use pulsar_governance::errors::Error;
use pulsar_governance::timelock::TimelockScheduler;

#[test]
fn test_queue_window() {
    let mut s = TimelockScheduler::new(10, 100);
    let e = s.queue(1, 10, 100, 1000).unwrap();
    assert_eq!(e.proposal_id, 1);
    assert_eq!(e.queued_at, 1000);
    assert_eq!(e.eta, 1010);
    assert_eq!(e.expiry, 1100);
    // Queuing the same id twice is refused.
    assert_eq!(s.queue(1, 10, 100, 1001), Err(Error::InvalidState));
}

#[test]
fn test_queue_rejects_bad_windows() {
    let mut s = TimelockScheduler::new(10, 100);
    assert_eq!(s.queue(1, 0, 100, 0), Err(Error::InvalidDelay));
    assert_eq!(s.queue(1, 10, 0, 0), Err(Error::InvalidDelay));
    assert_eq!(s.queue(1, 50, 20, 0), Err(Error::InvalidDelay));
    // Bypassing the configured floor or ceiling is refused.
    assert_eq!(s.queue(1, 5, 100, 0), Err(Error::InvalidDelay));
    assert_eq!(s.queue(1, 10, 200, 0), Err(Error::InvalidDelay));
}

#[test]
fn test_ready_and_expired() {
    let mut s = TimelockScheduler::new(10, 100);
    s.queue(3, 10, 100, 0).unwrap();
    assert!(!s.is_ready(3, 9));
    assert!(s.is_ready(3, 10));
    assert!(s.is_ready(3, 99));
    assert!(!s.is_ready(3, 100));
    assert!(!s.is_expired(3, 99));
    assert!(s.is_expired(3, 100));
    // An unknown id is neither ready nor expired.
    assert!(!s.is_ready(4, 50));
    assert!(!s.is_expired(4, 50));
}

#[test]
fn test_cancel_consumes_entry() {
    let mut s = TimelockScheduler::new(1, 10);
    s.queue(1, 1, 10, 0).unwrap();
    s.queue(2, 1, 10, 0).unwrap();
    assert!(s.cancel(1).is_ok());
    assert_eq!(s.cancel(1), Err(Error::NotFound));
    // The other entry is untouched.
    assert!(s.is_ready(2, 5));
}
