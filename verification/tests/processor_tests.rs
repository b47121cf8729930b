use mocktide::processor::{get_message, ProcessError, Processor};

#[test]
fn get_message_takes_whole_buffer() {
    assert_eq!(get_message(&b"ping".to_vec()), Ok(b"ping".to_vec()));
}

#[test]
fn get_message_incomplete_on_empty() {
    assert_eq!(get_message(&Vec::new()), Err(ProcessError::Incomplete));
}

#[test]
fn parse_incoming_consumes_buffered_bytes() {
    let mut p = Processor::new();
    p.fill(&b"abc".to_vec());
    assert_eq!(p.parse_incoming(), Ok(Some(b"abc".to_vec())));
    assert!(p.is_empty());
    assert_eq!(p.parse_incoming(), Ok(None));
}

#[test]
fn process_incoming_prefers_buffered_data() {
    let mut p = Processor::new();
    p.fill(&b"old".to_vec());
    let chunks = vec![b"new".to_vec()];
    let mut pos = 0;
    assert_eq!(p.process_incoming(&chunks, &mut pos), Ok(Some(b"old".to_vec())));
    assert_eq!(pos, 0);
    assert_eq!(p.process_incoming(&chunks, &mut pos), Ok(Some(b"new".to_vec())));
    assert_eq!(pos, 1);
}

#[test]
fn process_incoming_no_message_at_clean_close() {
    let mut p = Processor::new();
    let chunks: Vec<Vec<u8>> = Vec::new();
    let mut pos = 0;
    assert_eq!(p.process_incoming(&chunks, &mut pos), Ok(None));
}

#[test]
fn process_error_descriptions() {
    assert_eq!(ProcessError::Incomplete.message(), "incomplete data");
    assert_eq!(
        ProcessError::ConnectionReset.message(),
        "connection reset by peer"
    );
    assert_eq!(ProcessError::Other("oops".to_string()).message(), "oops");
}
