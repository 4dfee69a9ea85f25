use conduit::dispatcher::{
    backoff_ms, DestinationQueue, Dispatcher, DispatchAction, RequestPermits, TransactionState, BATCH_LIMIT,
};
use conduit::sending::{build_transaction, OutgoingKind, SendingEventType};
use conduit::services;

fn pdu(n: u8) -> SendingEventType {
    SendingEventType::Pdu(vec![n])
}

fn is_send(a: &DispatchAction) -> bool {
    matches!(a, DispatchAction::Send)
}

fn ids(items: &[SendingEventType]) -> Vec<u8> {
    items
        .iter()
        .map(|e| match e {
            SendingEventType::Pdu(b) | SendingEventType::Edu(b) => b[0],
        })
        .collect()
}

#[test]
fn backoff_follows_capped_quadratic() {
    assert_eq!(backoff_ms(0), 0);
    assert_eq!(backoff_ms(1), 30_000);
    assert_eq!(backoff_ms(2), 120_000);
    assert_eq!(backoff_ms(3), 270_000);
    assert_eq!(backoff_ms(53), 84_270_000);
    assert_eq!(backoff_ms(54), 86_400_000);
    assert_eq!(backoff_ms(u64::MAX), 86_400_000);
}

#[test]
fn backoff_never_decreases() {
    let mut last = 0;
    for n in 0..200u64 {
        let w = backoff_ms(n);
        assert!(w >= last);
        assert!(w <= 86_400_000);
        last = w;
    }
}

#[test]
fn first_item_starts_a_transaction() {
    let mut q = DestinationQueue::new();
    let a = q.enqueue(pdu(1), 0);
    assert!(is_send(&a));
    assert!(matches!(q.state, TransactionState::Running { failures: 0 }));
    assert_eq!(ids(&q.active), vec![1]);
    assert!(q.queued.is_empty());
}

#[test]
fn items_during_flight_go_out_together_once() {
    let mut q = DestinationQueue::new();
    assert!(is_send(&q.enqueue(pdu(1), 0)));
    for n in 2..5u8 {
        assert!(!is_send(&q.enqueue(pdu(n), 10)));
    }
    assert_eq!(ids(&q.active), vec![1]);
    assert_eq!(ids(&q.queued), vec![2, 3, 4]);
    let a = q.transaction_succeeded();
    assert!(is_send(&a));
    assert_eq!(ids(&q.active), vec![2, 3, 4]);
    assert!(q.queued.is_empty());
    let b = q.transaction_succeeded();
    assert!(!is_send(&b));
    assert!(matches!(q.state, TransactionState::Idle));
    assert!(q.active.is_empty());
}

#[test]
fn no_attempt_before_backoff_after_three_failures() {
    let mut q = DestinationQueue::new();
    assert!(is_send(&q.enqueue(pdu(1), 0)));
    q.transaction_failed(1_000);
    assert!(is_send(&q.poll(31_000)));
    q.transaction_failed(40_000);
    assert!(!is_send(&q.poll(159_999)));
    assert!(is_send(&q.poll(160_000)));
    q.transaction_failed(200_000);
    assert!(matches!(
        q.state,
        TransactionState::Failed { failures: 3, last_failure_ms: 200_000 }
    ));
    assert!(!is_send(&q.poll(200_000)));
    assert!(!is_send(&q.poll(469_999)));
    assert!(!is_send(&q.enqueue(pdu(2), 469_999)));
    assert_eq!(ids(&q.queued), vec![2]);
    assert!(is_send(&q.poll(470_000)));
    assert!(matches!(q.state, TransactionState::Running { failures: 3 }));
    assert_eq!(ids(&q.active), vec![1, 2]);
}

#[test]
fn enqueue_after_backoff_retries_with_new_item() {
    let mut q = DestinationQueue::new();
    q.enqueue(pdu(1), 0);
    q.transaction_failed(0);
    assert!(is_send(&q.enqueue(pdu(2), 30_000)));
    assert_eq!(ids(&q.active), vec![1, 2]);
}

#[test]
fn poll_while_in_flight_or_idle_waits() {
    let mut q = DestinationQueue::new();
    assert!(!is_send(&q.poll(5)));
    q.enqueue(pdu(1), 0);
    assert!(!is_send(&q.poll(u64::MAX)));
}

#[test]
fn batch_is_bounded() {
    let mut q = DestinationQueue::new();
    q.enqueue(pdu(0), 0);
    for n in 1..=40u8 {
        q.enqueue(pdu(n), 0);
    }
    assert!(is_send(&q.transaction_succeeded()));
    assert_eq!(q.active.len(), BATCH_LIMIT);
    assert_eq!(ids(&q.active), (1..=30u8).collect::<Vec<_>>());
    assert_eq!(ids(&q.queued), (31..=40u8).collect::<Vec<_>>());
}

#[test]
fn clear_drops_everything() {
    let mut q = DestinationQueue::new();
    q.enqueue(pdu(1), 0);
    q.enqueue(pdu(2), 0);
    q.clear();
    assert!(matches!(q.state, TransactionState::Idle));
    assert!(q.active.is_empty() && q.queued.is_empty());
}

#[test]
fn permits_bound_requests() {
    let mut s = services(2);
    let permits = &mut s.maximum_requests;
    assert_eq!(permits.limit, 2);
    assert!(permits.try_acquire());
    assert!(permits.try_acquire());
    assert!(!permits.try_acquire());
    permits.release();
    assert_eq!(permits.in_use, 1);
    assert!(permits.try_acquire());
    let mut none = RequestPermits::new(0);
    assert!(!none.try_acquire());
}

#[test]
fn prefixes_of_each_kind() {
    assert_eq!(
        OutgoingKind::Appservice("irc".to_owned()).get_prefix(),
        b"+irc\xff".to_vec()
    );
    assert_eq!(
        OutgoingKind::Push("@a:x".to_owned(), "k".to_owned()).get_prefix(),
        b"$@a:x\xffk\xff".to_vec()
    );
    assert_eq!(
        OutgoingKind::Normal("example.org".to_owned()).get_prefix(),
        b"example.org\xff".to_vec()
    );
}

#[test]
fn transaction_to_server_carries_edus() {
    let events = vec![
        SendingEventType::Pdu(vec![1, 2]),
        SendingEventType::Edu(b"{}".to_vec()),
        SendingEventType::Pdu(vec![3]),
    ];
    let t = build_transaction(&OutgoingKind::Normal("s".to_owned()), &events, &vec![0xfb, 0xff]);
    assert_eq!(t.pdus, vec![vec![1, 2], vec![3]]);
    assert_eq!(t.edus, vec![b"{}".to_vec()]);
    assert_eq!(t.transaction_id, "-_8");
}

#[test]
fn transaction_to_push_or_bridge_drops_edus() {
    let events = vec![SendingEventType::Edu(b"{}".to_vec()), SendingEventType::Pdu(vec![7])];
    let digest = b"hello".to_vec();
    for kind in [
        OutgoingKind::Push("@u:s".to_owned(), "k".to_owned()),
        OutgoingKind::Appservice("bridge".to_owned()),
    ] {
        let t = build_transaction(&kind, &events, &digest);
        assert_eq!(t.pdus, vec![vec![7]]);
        assert!(t.edus.is_empty());
        assert_eq!(t.transaction_id, "aGVsbG8");
    }
}

#[test]
fn destinations_are_independent() {
    let mut s = services(4);
    let d = &mut s.sending;
    assert!(is_send(&d.enqueue_outbound(1, pdu(1), 0)));
    assert!(is_send(&d.enqueue_outbound(2, pdu(2), 0)));
    assert!(!is_send(&d.enqueue_outbound(1, pdu(3), 0)));
    d.transaction_failed(2, 100);
    assert!(!is_send(&d.poll(2, 100)));
    assert!(!is_send(&d.poll(7, 100)));
    assert!(is_send(&d.transaction_succeeded(1)));
    assert_eq!(ids(&d.queues[&1].active), vec![3]);
    assert!(!is_send(&d.transaction_succeeded(1)));
    assert!(!d.queues.contains_key(&1));
    assert!(is_send(&d.poll(2, 30_100)));
    d.cleanup_events(2);
    assert!(d.queues.is_empty());
}

#[test]
fn new_dispatcher_is_empty() {
    assert!(Dispatcher::new().queues.is_empty());
}
