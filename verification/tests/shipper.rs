use melee_pc::shipper::{Backoff, FIRST_RETRY_MS, MAX_RETRY_MS, Retry};

#[test]
fn retries_double_up_to_the_cap_and_report_once() {
    let mut backoff = Backoff::new();
    assert_eq!(backoff.retry_ms, FIRST_RETRY_MS);
    let waits: Vec<Retry> = (0..7).map(|_| backoff.failed()).collect();
    let expected = [250, 500, 1000, 2000, 4000, 5000, 5000];
    for (retry, wait) in waits.iter().zip(expected) {
        assert_eq!(retry.wait_ms, wait);
    }
    assert!(waits[0].report);
    assert!(waits[1..].iter().all(|retry| !retry.report));
    assert_eq!(backoff.retry_ms, MAX_RETRY_MS);
}
