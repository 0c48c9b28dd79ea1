use fathomable::landing::RequestQueue;

#[test]
fn saturated_queue_retains_oldest_and_newest_requests() {
    let mut landing: RequestQueue<&str> = RequestQueue::new();
    landing.retain_later("first");
    landing.retain_later("middle");
    landing.retain_later("latest");
    assert_eq!(landing.next_request(None), Some("first"));
    assert_eq!(landing.queued, Some("latest"));
    assert!(landing.retry.is_none());
    assert_eq!(landing.next_request(None), Some("latest"));
    assert!(!landing.pending(false));
}

#[test]
fn a_chained_request_runs_before_the_waiting_ones() {
    let mut landing: RequestQueue<u32> = RequestQueue::new();
    landing.retain_later(1);
    landing.retain_later(2);
    assert_eq!(landing.next_request(Some(9)), Some(9));
    assert_eq!((landing.queued, landing.retry), (Some(1), Some(2)));
    assert!(landing.pending(false));
    landing.clear_retained();
    assert!(!landing.pending(false));
    assert!(landing.pending(true));
    assert_eq!(landing.next_request(None), None);
}

use fathomable::landing::{group_by_checkout, remaining};

#[test]
fn candidates_group_by_checkout_in_first_seen_order() {
    let groups = group_by_checkout(&[7, 3, 7, 9, 3, 7]);
    assert_eq!(groups, vec![(7, vec![0, 2, 5]), (3, vec![1, 4]), (9, vec![3])]);
    assert!(group_by_checkout(&[]).is_empty());
}

#[test]
fn a_paused_batch_resumes_with_the_rest_of_its_group_and_the_later_ones() {
    let groups = group_by_checkout(&[7, 3, 7, 9, 3, 7]);
    assert_eq!(remaining(&groups, 0, 1), vec![2, 5, 1, 4, 3]);
    assert_eq!(remaining(&groups, 1, 2), vec![3]);
    assert_eq!(remaining(&groups, 1, 9), vec![3]);
    assert!(remaining(&groups, 3, 0).is_empty());
}
