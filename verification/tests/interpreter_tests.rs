use mocktide::interpreter::{record_recv_outcome, run_script, SocketOp};
use mocktide::connection::MessageError;
use mocktide::mapping::{Action, MappingFile, MappingState, MessageAction};
use mocktide::reporter::{Reporter, TestResult};

fn make_state(
    suite: &str,
    messages: Vec<(&str, &[u8])>,
    actions: Vec<(&str, Action)>,
) -> MappingState {
    let messages = messages
        .into_iter()
        .map(|(k, v)| (k.to_string(), v.to_vec()))
        .collect();
    let actions = actions
        .into_iter()
        .map(|(m, e)| MessageAction { message: m.to_string(), execute: e, wait_for: 0 })
        .collect();
    let file = MappingFile::new(suite.to_string(), messages, actions).unwrap();
    MappingState::from_file(file)
}

#[test]
fn happy_path_records_one_success() {
    let state = make_state("hello", vec![("msg1", b"\x48\x65\x6C\x6C\x6F")], vec![(
        "msg1",
        Action::Recv,
    )]);
    let chunks = vec![b"Hello".to_vec()];
    let r = run_script(&state, &chunks);
    assert_eq!(r.reporter.suite_name, "hello");
    assert_eq!(r.reporter.test_cases.len(), 1);
    assert_eq!(r.reporter.test_cases[0].name, "msg1");
    assert_eq!(r.reporter.test_cases[0].result, TestResult::Success);
    assert!(!r.shutdown_raised);
}

#[test]
fn mismatch_records_one_message_error() {
    let state = make_state("hello", vec![("msg1", b"\x48\x65\x6C\x6C\x6F")], vec![(
        "msg1",
        Action::Recv,
    )]);
    let chunks = vec![b"World".to_vec()];
    let r = run_script(&state, &chunks);
    assert_eq!(r.reporter.test_cases.len(), 1);
    assert_eq!(r.reporter.test_cases[0].result, TestResult::Error);
    assert_eq!(r.reporter.test_cases[0].error_type, "message_error");
    assert_eq!(r.reporter.test_cases[0].message, "messages do not match");
}

#[test]
fn early_close_records_one_failure() {
    let state = make_state("hello", vec![("msg1", b"\x48\x65\x6C\x6C\x6F")], vec![(
        "msg1",
        Action::Recv,
    )]);
    let chunks: Vec<Vec<u8>> = Vec::new();
    let r = run_script(&state, &chunks);
    assert_eq!(r.reporter.test_cases.len(), 1);
    assert_eq!(r.reporter.test_cases[0].result, TestResult::Failure);
    assert_eq!(r.reporter.test_cases[0].error_type, "recv_error");
    assert_eq!(r.reporter.test_cases[0].message, "message not recv correctly");
}

#[test]
fn scripted_shutdown_keeps_recorded_outcome() {
    let state = make_state("hello", vec![("msg1", b"\x48\x65\x6C\x6C\x6F")], vec![
        ("msg1", Action::Recv),
        ("", Action::Shutdown),
    ]);
    let chunks = vec![b"Hello".to_vec()];
    let r = run_script(&state, &chunks);
    assert!(r.shutdown_raised);
    assert_eq!(r.reporter.test_cases.len(), 1);
    assert_eq!(r.reporter.test_cases[0].result, TestResult::Success);
    assert_eq!(r.ops, vec![
        SocketOp::RecvMsg("msg1".to_string()),
        SocketOp::RaiseShutdown,
    ]);
}

#[test]
fn reset_records_one_message_error() {
    let state = make_state("hello", vec![("msg1", b"\x48\x65\x6C\x6C\x6F")], vec![(
        "msg1",
        Action::Recv,
    )]);
    let chunks = vec![b"He".to_vec()];
    let r = run_script(&state, &chunks);
    assert_eq!(r.reporter.test_cases.len(), 1);
    assert_eq!(r.reporter.test_cases[0].result, TestResult::Error);
    assert_eq!(r.reporter.test_cases[0].error_type, "message_error");
    assert_eq!(r.reporter.test_cases[0].message, "connection reset by peer");
}

#[test]
fn operations_follow_script_order() {
    let state = make_state(
        "order",
        vec![("a", b"A"), ("b", b"B"), ("c", b"C")],
        vec![("a", Action::Send), ("b", Action::Recv), ("c", Action::Send)],
    );
    let chunks = vec![b"B".to_vec()];
    let r = run_script(&state, &chunks);
    assert_eq!(r.ops, vec![
        SocketOp::SendMsg("a".to_string()),
        SocketOp::RecvMsg("b".to_string()),
        SocketOp::SendMsg("c".to_string()),
    ]);
    assert!(!r.shutdown_raised);
}

#[test]
fn shutdown_stops_the_script_early() {
    let state = make_state(
        "early",
        vec![("m", b"M"), ("m2", b"N")],
        vec![("m", Action::Send), ("", Action::Shutdown), ("m2", Action::Recv)],
    );
    let chunks = vec![b"N".to_vec()];
    let r = run_script(&state, &chunks);
    // The send runs, the signal is raised, and the receive never does.
    assert_eq!(r.ops, vec![
        SocketOp::SendMsg("m".to_string()),
        SocketOp::RaiseShutdown,
    ]);
    assert!(r.shutdown_raised);
    assert!(r.reporter.test_cases.is_empty());
}

#[test]
fn leftover_bytes_feed_the_next_receive() {
    let state = make_state(
        "carry",
        vec![("m1", b"Hello"), ("m2", b"World")],
        vec![("m1", Action::Recv), ("m2", Action::Recv)],
    );
    // One read carries both messages; the second receive is served from
    // the leftover buffer alone.
    let chunks = vec![b"HelloWorld".to_vec()];
    let r = run_script(&state, &chunks);
    assert_eq!(r.reporter.test_cases.len(), 2);
    assert_eq!(r.reporter.test_cases[0].result, TestResult::Success);
    assert_eq!(r.reporter.test_cases[1].result, TestResult::Success);
}

#[test]
fn script_continues_after_a_mismatch() {
    let state = make_state(
        "continue",
        vec![("m1", b"AB"), ("m2", b"XY")],
        vec![("m1", Action::Recv), ("m2", Action::Recv)],
    );
    let chunks = vec![b"XY".to_vec()];
    let r = run_script(&state, &chunks);
    assert_eq!(r.reporter.test_cases.len(), 2);
    // The first receive mismatches and consumes nothing...
    assert_eq!(r.reporter.test_cases[0].result, TestResult::Error);
    // ...so the second sees the same bytes and matches.
    assert_eq!(r.reporter.test_cases[1].result, TestResult::Success);
}

#[test]
fn record_recv_outcome_classifies_every_case() {
    let mut rep = Reporter::new("suite");
    record_recv_outcome(&mut rep, "a", 5, &Ok(Some(3)));
    record_recv_outcome(&mut rep, "b", 6, &Ok(None));
    record_recv_outcome(&mut rep, "c", 7, &Err(MessageError::NotEqual));
    record_recv_outcome(
        &mut rep,
        "d",
        8,
        &Err(MessageError::Other("connection reset by peer".to_string())),
    );
    assert_eq!(rep.test_cases.len(), 4);
    assert_eq!(rep.test_cases[0].result, TestResult::Success);
    assert_eq!(rep.test_cases[0].duration_ms, 5);
    assert_eq!(rep.test_cases[1].result, TestResult::Failure);
    assert_eq!(rep.test_cases[1].error_type, "recv_error");
    assert_eq!(rep.test_cases[2].result, TestResult::Error);
    assert_eq!(rep.test_cases[2].message, "messages do not match");
    assert_eq!(rep.test_cases[3].result, TestResult::Error);
    assert_eq!(rep.test_cases[3].message, "connection reset by peer");
}
