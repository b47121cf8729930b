use mocktide::mapping::{Action, MappingFile, MappingState, MessageAction};

/// Decodes a mapping document the way the loader does — the YAML parser
/// yields the plain values, the library validates them.
fn parse_mapping(yaml: &str) -> Result<MappingFile, String> {
    let v: serde_yaml::Value = serde_yaml::from_str(yaml).map_err(|e| e.to_string())?;
    let name = v
        .get("name")
        .and_then(|n| n.as_str())
        .ok_or("missing name")?
        .to_string();
    let mut messages: Vec<(String, Vec<u8>)> = Vec::new();
    let msgs = v
        .get("messages")
        .and_then(|m| m.as_mapping())
        .ok_or("missing messages")?;
    for (k, val) in msgs {
        let key = k.as_str().ok_or("bad message name")?.to_string();
        let payload = val.as_str().ok_or("bad message payload")?.as_bytes().to_vec();
        messages.push((key, payload));
    }
    let mut actions: Vec<MessageAction> = Vec::new();
    let acts = v
        .get("actions")
        .and_then(|a| a.as_sequence())
        .ok_or("missing actions")?;
    for a in acts {
        let message = a
            .get("message")
            .and_then(|m| m.as_str())
            .unwrap_or("")
            .to_string();
        let execute = match a
            .get("execute")
            .and_then(|e| e.as_str())
            .ok_or("missing execute")?
        {
            "Send" => Action::Send,
            "Recv" => Action::Recv,
            "Shutdown" => Action::Shutdown,
            _ => Action::Unknown,
        };
        let wait_for = a.get("wait_for").and_then(|w| w.as_u64()).unwrap_or(0);
        actions.push(MessageAction { message, execute, wait_for });
    }
    MappingFile::new(name, messages, actions)
        .map_err(|e| format!("action {} requires a mapped message", e.action_index))
}

#[test]
fn test_yaml_file_is_correctly_deserialized() {
    let mapping_yaml: &str = r#"
        name: good test

        messages:
            msg1: "\x01\x02\x03"
            msg2: "\x04\x05\x06"

        actions:
            - message: msg1
              execute: Send
            - message: msg2
              execute: Recv
    "#;
    let parsed = parse_mapping(mapping_yaml);
    assert!(parsed.is_ok());
}

#[test]
fn test_yaml_file_fails_to_serialize_action_without_a_mapped_msg() {
    let mapping_wrong_yaml: &str = r#"
        name: bad test

        messages:
            msg1: "\x01\x02\x03"
            msg2: "\x04\x05\x06"

        actions:
            - message: msg1
              execute: Send
            - execute: Recv
    "#;
    let parsed = parse_mapping(mapping_wrong_yaml);
    assert!(parsed.is_err());
}

#[test]
fn validation_reports_first_offending_action() {
    let messages = vec![("msg1".to_string(), vec![1u8, 2, 3])];
    let actions = vec![
        MessageAction { message: "msg1".to_string(), execute: Action::Send, wait_for: 0 },
        MessageAction { message: "ghost".to_string(), execute: Action::Recv, wait_for: 0 },
        MessageAction { message: "".to_string(), execute: Action::Send, wait_for: 0 },
    ];
    let r = MappingFile::new("suite".to_string(), messages, actions);
    assert_eq!(r.err().map(|e| e.action_index), Some(1));
}

#[test]
fn unknown_placeholder_needs_a_mapped_message() {
    let actions = vec![
        MessageAction { message: "".to_string(), execute: Action::Unknown, wait_for: 0 },
    ];
    let r = MappingFile::new(
        "suite".to_string(),
        vec![("msg1".to_string(), vec![1u8])],
        actions,
    );
    assert_eq!(r.err().map(|e| e.action_index), Some(0));

    let unmapped = vec![
        MessageAction { message: "ghost".to_string(), execute: Action::Unknown, wait_for: 0 },
    ];
    let r = MappingFile::new(
        "suite".to_string(),
        vec![("msg1".to_string(), vec![1u8])],
        unmapped,
    );
    assert!(r.is_err());

    let mapped = vec![
        MessageAction { message: "msg1".to_string(), execute: Action::Unknown, wait_for: 0 },
    ];
    let r = MappingFile::new(
        "suite".to_string(),
        vec![("msg1".to_string(), vec![1u8])],
        mapped,
    );
    assert!(r.is_ok());
}

#[test]
fn shutdown_needs_no_message() {
    let messages = vec![("msg1".to_string(), b"hi".to_vec())];
    let actions = vec![
        MessageAction { message: "".to_string(), execute: Action::Shutdown, wait_for: 0 },
    ];
    let r = MappingFile::new("suite".to_string(), messages, actions);
    assert!(r.is_ok());
}

#[test]
fn state_carries_table_with_reserved_empty_name() {
    let messages = vec![("msg1".to_string(), b"hi".to_vec())];
    let actions = vec![
        MessageAction { message: "msg1".to_string(), execute: Action::Recv, wait_for: 0 },
    ];
    let file = MappingFile::new("suite".to_string(), messages, actions).unwrap();
    let state = MappingState::from_file(file);
    assert_eq!(state.mapping_name, "suite");
    assert_eq!(state.name_to_message[0], ("".to_string(), vec![0u8]));
    assert_eq!(state.name_to_message[1], ("msg1".to_string(), b"hi".to_vec()));
    assert_eq!(state.message_actions.len(), 1);
}

#[test]
fn lookup_returns_first_entry_with_the_name() {
    let table = vec![
        ("a".to_string(), vec![1u8]),
        ("b".to_string(), vec![2u8]),
    ];
    assert_eq!(mocktide::mapping::lookup(&table, &"b".to_string()), Some(&vec![2u8]));
    assert_eq!(mocktide::mapping::lookup(&table, &"c".to_string()), None);
}

#[test]
fn message_action_identity_ignores_delay() {
    let a = MessageAction { message: "m".to_string(), execute: Action::Send, wait_for: 0 };
    let b = MessageAction { message: "m".to_string(), execute: Action::Send, wait_for: 9 };
    let c = MessageAction { message: "m".to_string(), execute: Action::Recv, wait_for: 0 };
    assert!(a == b);
    assert!(a != c);
}
