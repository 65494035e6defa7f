use broadcast::{next_message_id, Progress, SendError, Shared};
use std::sync::atomic::{AtomicUsize, Ordering};
use std::sync::Arc;
use std::task::{Wake, Waker};

struct Count(AtomicUsize);

impl Wake for Count {
    fn wake(self: Arc<Self>) {
        self.0.fetch_add(1, Ordering::SeqCst);
    }

    fn wake_by_ref(self: &Arc<Self>) {
        self.0.fetch_add(1, Ordering::SeqCst);
    }
}

fn counting() -> (Arc<Count>, Waker) {
    let c = Arc::new(Count(AtomicUsize::new(0)));
    let w = Waker::from(c.clone());
    (c, w)
}

fn wakes(c: &Arc<Count>) -> usize {
    c.0.load(Ordering::SeqCst)
}

fn noop() -> &'static Waker {
    Waker::noop()
}

#[test]
fn next_id_advances_by_one() {
    assert_eq!(next_message_id(0), 1);
    assert_eq!(next_message_id(5), 6);
    assert_eq!(next_message_id(u64::MAX - 1), u64::MAX);
}

#[test]
fn next_id_skips_zero_on_wrap() {
    assert_eq!(next_message_id(u64::MAX), 1);
    let mut id = u64::MAX - 3;
    for _ in 0..8 {
        id = next_message_id(id);
        assert_ne!(id, 0);
    }
    assert_eq!(id, 5);
}

#[test]
fn send_error_message() {
    let mut ch: Shared<u32> = Shared::new();
    ch.next_message();
    match ch.poll_send(&1, noop()) {
        Progress::Ready(Err(e)) => {
            assert_eq!(e.message(), "no receivers to broadcast channel");
            let copy: SendError = e;
            assert_eq!(copy, e);
        }
        other => panic!("unexpected {:?}", other),
    }
}

#[test]
fn publish_without_subscribers_fails() {
    let mut ch: Shared<u32> = Shared::new();
    ch.next_message();
    assert!(matches!(ch.poll_send(&7, noop()), Progress::Ready(Err(_))));
    assert!(matches!(ch.poll_send(&7, noop()), Progress::Ready(Err(_))));
    // A subscriber added now starts from the id that the failed publish set:
    // it counts as having seen that message.
    let s = ch.new_receiver();
    assert_eq!(ch.subscribers(), 1);
    assert_eq!(ch.poll_send(&7, noop()), Progress::Ready(Ok(())));
    assert_eq!(ch.poll_recv(s, noop()), Progress::Pending);
}

#[test]
fn subscriber_count_follows_records() {
    let mut ch: Shared<u32> = Shared::new();
    assert_eq!(ch.subscribers(), 0);
    let a = ch.new_receiver();
    let b = ch.new_receiver();
    assert_ne!(a, b);
    assert_eq!(ch.subscribers(), 2);
    ch.remove_receiver(a);
    assert_eq!(ch.subscribers(), 1);
    ch.remove_receiver(a);
    assert_eq!(ch.subscribers(), 1);
    ch.remove_receiver(b);
    assert_eq!(ch.subscribers(), 0);
}

#[test]
fn two_subscribers_scenario() {
    let mut ch: Shared<String> = Shared::new();
    let s1 = ch.new_receiver();
    let s2 = ch.new_receiver();

    ch.next_message();
    let a = "a".to_string();
    assert_eq!(ch.poll_send(&a, noop()), Progress::Pending);
    assert_eq!(ch.poll_recv(s1, noop()), Progress::Ready(Some("a".to_string())));
    assert_eq!(ch.poll_send(&a, noop()), Progress::Pending);
    assert_eq!(ch.poll_recv(s2, noop()), Progress::Ready(Some("a".to_string())));
    assert_eq!(ch.poll_send(&a, noop()), Progress::Ready(Ok(())));
    // Each received "a" exactly once.
    assert_eq!(ch.poll_recv(s1, noop()), Progress::Pending);
    assert_eq!(ch.poll_recv(s2, noop()), Progress::Pending);

    ch.next_message();
    let b = "b".to_string();
    assert_eq!(ch.poll_send(&b, noop()), Progress::Pending);
    assert_eq!(ch.poll_recv(s1, noop()), Progress::Ready(Some("b".to_string())));
    for _ in 0..5 {
        assert_eq!(ch.poll_send(&b, noop()), Progress::Pending);
    }
    ch.remove_receiver(s2);
    assert_eq!(ch.poll_send(&b, noop()), Progress::Ready(Ok(())));
}

#[test]
fn publish_waits_for_every_subscriber() {
    let mut ch: Shared<u32> = Shared::new();
    let subs: Vec<usize> = (0..4).map(|_| ch.new_receiver()).collect();
    ch.next_message();
    for (n, s) in subs.iter().enumerate() {
        assert_eq!(ch.poll_send(&9, noop()), Progress::Pending, "after {} receives", n);
        assert_eq!(ch.poll_recv(*s, noop()), Progress::Ready(Some(9)));
    }
    assert_eq!(ch.poll_send(&9, noop()), Progress::Ready(Ok(())));
}

#[test]
fn late_subscriber_gets_only_later_messages() {
    let mut ch: Shared<u32> = Shared::new();
    let early = ch.new_receiver();
    ch.next_message();
    assert_eq!(ch.poll_send(&1, noop()), Progress::Pending);
    let late = ch.new_receiver();
    assert_eq!(ch.poll_send(&1, noop()), Progress::Pending);
    assert_eq!(ch.poll_recv(late, noop()), Progress::Pending);
    assert_eq!(ch.poll_recv(early, noop()), Progress::Ready(Some(1)));
    assert_eq!(ch.poll_send(&1, noop()), Progress::Ready(Ok(())));

    ch.next_message();
    assert_eq!(ch.poll_send(&2, noop()), Progress::Pending);
    assert_eq!(ch.poll_recv(late, noop()), Progress::Ready(Some(2)));
    assert_eq!(ch.poll_recv(early, noop()), Progress::Ready(Some(2)));
    assert_eq!(ch.poll_send(&2, noop()), Progress::Ready(Ok(())));
}

#[test]
fn silent_subscriber_holds_back_publish() {
    let mut ch: Shared<u32> = Shared::new();
    let _a = ch.new_receiver();
    let b = ch.new_receiver();
    ch.next_message();
    assert_eq!(ch.poll_send(&3, noop()), Progress::Pending);
    assert_eq!(ch.poll_recv(b, noop()), Progress::Ready(Some(3)));
    for _ in 0..10 {
        assert_eq!(ch.poll_send(&3, noop()), Progress::Pending);
    }
}

#[test]
fn departure_unblocks_publish() {
    let mut ch: Shared<u32> = Shared::new();
    let a = ch.new_receiver();
    let b = ch.new_receiver();
    ch.next_message();
    assert_eq!(ch.poll_send(&4, noop()), Progress::Pending);
    assert_eq!(ch.poll_recv(b, noop()), Progress::Ready(Some(4)));
    assert_eq!(ch.poll_send(&4, noop()), Progress::Pending);
    let (sc, sw) = counting();
    assert_eq!(ch.poll_send(&4, &sw), Progress::Pending);
    ch.remove_receiver(a);
    assert_eq!(wakes(&sc), 1);
    assert_eq!(ch.poll_send(&4, &sw), Progress::Ready(Ok(())));
}

#[test]
fn departure_of_last_subscriber_fails_publish() {
    let mut ch: Shared<u32> = Shared::new();
    let a = ch.new_receiver();
    ch.next_message();
    assert_eq!(ch.poll_send(&4, noop()), Progress::Pending);
    ch.remove_receiver(a);
    assert!(matches!(ch.poll_send(&4, noop()), Progress::Ready(Err(_))));
}

#[test]
fn close_ends_every_stream() {
    let mut ch: Shared<u32> = Shared::new();
    let a = ch.new_receiver();
    let b = ch.new_receiver();
    let (ac, aw) = counting();
    let (bc, bw) = counting();
    assert_eq!(ch.poll_recv(a, &aw), Progress::Pending);
    assert_eq!(ch.poll_recv(b, &bw), Progress::Pending);
    ch.close();
    assert_eq!(wakes(&ac), 1);
    assert_eq!(wakes(&bc), 1);
    for _ in 0..3 {
        assert_eq!(ch.poll_recv(a, &aw), Progress::Ready(None));
        assert_eq!(ch.poll_recv(b, noop()), Progress::Ready(None));
    }
}

#[test]
fn close_keeps_a_pending_value() {
    let mut ch: Shared<u32> = Shared::new();
    let a = ch.new_receiver();
    ch.next_message();
    assert_eq!(ch.poll_send(&8, noop()), Progress::Pending);
    ch.close();
    assert_eq!(ch.poll_recv(a, noop()), Progress::Ready(Some(8)));
    assert_eq!(ch.poll_recv(a, noop()), Progress::Ready(None));
}

#[test]
fn unknown_subscriber_ends_stream() {
    let mut ch: Shared<u32> = Shared::new();
    assert_eq!(ch.poll_recv(3, noop()), Progress::Ready(None));
    let a = ch.new_receiver();
    ch.remove_receiver(a);
    assert_eq!(ch.poll_recv(a, noop()), Progress::Ready(None));
}

#[test]
fn cancelled_receive_discards_value() {
    let mut ch: Shared<u32> = Shared::new();
    let a = ch.new_receiver();
    ch.next_message();
    assert_eq!(ch.poll_send(&5, noop()), Progress::Pending);
    ch.cancel_recv(a);
    assert_eq!(ch.poll_recv(a, noop()), Progress::Pending);
    // The publish is still waiting on `a` and hands it the value again.
    assert_eq!(ch.poll_send(&5, noop()), Progress::Pending);
    assert_eq!(ch.poll_recv(a, noop()), Progress::Ready(Some(5)));
    assert_eq!(ch.poll_send(&5, noop()), Progress::Ready(Ok(())));
}

#[test]
fn handles_are_woken() {
    let mut ch: Shared<u32> = Shared::new();
    let a = ch.new_receiver();
    let (ac, aw) = counting();
    let (sc, sw) = counting();
    // A waiting receive wakes the publisher, if one is registered (none yet).
    assert_eq!(ch.poll_recv(a, &aw), Progress::Pending);
    assert_eq!(wakes(&ac), 0);
    ch.next_message();
    // Handing the value over wakes the waiting receive.
    assert_eq!(ch.poll_send(&6, &sw), Progress::Pending);
    assert_eq!(wakes(&ac), 1);
    assert_eq!(wakes(&sc), 0);
    // Taking it wakes the publisher.
    assert_eq!(ch.poll_recv(a, &aw), Progress::Ready(Some(6)));
    assert_eq!(wakes(&sc), 1);
    assert_eq!(ch.poll_send(&6, &sw), Progress::Ready(Ok(())));
    // A receive that has to wait wakes the publisher too.
    assert_eq!(ch.poll_recv(a, &aw), Progress::Pending);
    assert_eq!(wakes(&sc), 2);
}
