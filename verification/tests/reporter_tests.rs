use mocktide::reporter::{Reporter, TestResult};

#[test]
fn reporter_starts_empty() {
    let rep = Reporter::new("suite");
    assert_eq!(rep.suite_name, "suite");
    assert!(rep.test_cases.is_empty());
}

#[test]
fn sucess_appends_a_success_record() {
    let mut rep = Reporter::new("suite");
    rep.sucess("msg1", 12);
    assert_eq!(rep.test_cases.len(), 1);
    let tc = &rep.test_cases[0];
    assert_eq!(tc.name, "msg1");
    assert_eq!(tc.duration_ms, 12);
    assert_eq!(tc.result, TestResult::Success);
    assert_eq!(tc.error_type, "");
    assert_eq!(tc.message, "");
}

#[test]
fn failure_and_error_keep_kind_and_detail() {
    let mut rep = Reporter::new("suite");
    rep.failure("msg1", 1, "recv_error", "message not recv correctly");
    rep.error("msg2", 2, "message_error", "messages do not match");
    assert_eq!(rep.test_cases.len(), 2);
    assert_eq!(rep.test_cases[0].result, TestResult::Failure);
    assert_eq!(rep.test_cases[0].error_type, "recv_error");
    assert_eq!(rep.test_cases[0].message, "message not recv correctly");
    assert_eq!(rep.test_cases[1].result, TestResult::Error);
    assert_eq!(rep.test_cases[1].error_type, "message_error");
    assert_eq!(rep.test_cases[1].message, "messages do not match");
}

#[test]
fn records_keep_execution_order() {
    let mut rep = Reporter::new("suite");
    rep.sucess("a", 0);
    rep.failure("b", 0, "recv_error", "message not recv correctly");
    rep.sucess("c", 0);
    let names: Vec<&str> = rep.test_cases.iter().map(|c| c.name.as_str()).collect();
    assert_eq!(names, vec!["a", "b", "c"]);
}
