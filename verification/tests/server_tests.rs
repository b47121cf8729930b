use mocktide::server::{
    accept_failures_until_give_up, run_admission, AcceptDecision, AcceptRetry, AdmissionGate,
};
use mocktide::MAX_CONNECTIONS;

#[test]
fn gate_admits_up_to_capacity() {
    let mut gate = AdmissionGate::new(2);
    assert!(gate.try_acquire());
    assert!(gate.try_acquire());
    assert!(!gate.try_acquire());
    assert_eq!(gate.in_use(), 2);
    gate.release();
    assert_eq!(gate.in_use(), 1);
    assert!(gate.try_acquire());
    assert!(!gate.try_acquire());
}

#[test]
fn admission_bound_holds_under_burst() {
    // A burst of capacity + 5 simultaneous arrivals: the count in use
    // never exceeds the capacity at any instant.
    let capacity = MAX_CONNECTIONS;
    let events = vec![true; capacity + 5];
    let counts = run_admission(capacity, &events);
    assert_eq!(counts.len(), capacity + 5);
    assert!(counts.iter().all(|&c| c <= capacity));
    assert_eq!(counts[capacity - 1], capacity);
    assert_eq!(*counts.last().unwrap(), capacity);
}

#[test]
fn admission_frees_slots_on_departure() {
    let events = vec![true, true, true, false, true, false, false];
    let counts = run_admission(2, &events);
    assert_eq!(counts, vec![1, 2, 2, 1, 2, 1, 0]);
}

#[test]
fn backoff_doubles_then_gives_up() {
    let mut retry = AcceptRetry::new();
    let mut sleeps = Vec::new();
    loop {
        match retry.on_failure() {
            AcceptDecision::Retry(secs) => sleeps.push(secs),
            AcceptDecision::GiveUp => break,
        }
    }
    assert_eq!(sleeps, vec![1, 2, 4, 8, 16, 32, 64]);
}

#[test]
fn listener_never_retries_forever() {
    assert_eq!(accept_failures_until_give_up(), 7);
}
