use jwalk_meta::channel::QueuePoll;
use jwalk_meta::index_path::IndexPath;
use jwalk_meta::ordered::Ordered;
use jwalk_meta::ordered_queue::new_ordered_queue;
use jwalk_meta::priority_queue::{backoff_micros, new_priority_queue};
use jwalk_meta::weighted::Weighted;
use std::sync::atomic::AtomicBool;
use std::sync::Arc;

#[test]
fn priority_queue_hands_out_heaviest_first() {
    let stop = Arc::new(AtomicBool::new(false));
    let (queue, mut iter) = new_priority_queue::<&str>(stop);
    assert!(matches!(iter.poll(), QueuePoll::Disconnected));
    queue.push(Weighted::new("light", IndexPath::new(vec![0, 0]), 1)).unwrap();
    queue.push(Weighted::new("heavy", IndexPath::new(vec![0, 1]), 9)).unwrap();
    assert_eq!(iter.pending_count(), 2);
    assert_eq!(iter.drain_channel(), 2);
    assert_eq!(iter.drain_channel(), 0);
    match iter.poll() {
        QueuePoll::Ready(w) => assert_eq!(w.value, "heavy"),
        _ => panic!("expected an item"),
    }
    queue.complete_item();
    match iter.poll() {
        QueuePoll::Ready(w) => assert_eq!(w.value, "light"),
        _ => panic!("expected an item"),
    }
    // One item still pending and nothing buffered: wait.
    assert!(matches!(iter.poll(), QueuePoll::Empty));
    queue.clone().complete_item();
    assert!(matches!(iter.poll(), QueuePoll::Disconnected));
}

#[test]
fn priority_queue_stops_when_told() {
    let stop = Arc::new(AtomicBool::new(false));
    let (queue, mut iter) = new_priority_queue::<u8>(stop.clone());
    queue.push(Weighted::new(1, IndexPath::new(vec![0]), 1)).unwrap();
    assert_eq!(iter.drain_channel(), 1);
    stop.store(true, std::sync::atomic::Ordering::Release);
    assert!(iter.is_stop());
    assert!(matches!(iter.poll(), QueuePoll::Disconnected));
}

#[test]
fn backoff_grows_with_idle_polls() {
    assert_eq!(backoff_micros(0), 10);
    assert_eq!(backoff_micros(10), 10);
    assert_eq!(backoff_micros(11), 100);
    assert_eq!(backoff_micros(50), 100);
    assert_eq!(backoff_micros(51), 1000);
}

#[test]
fn ordered_queue_releases_in_preorder_only() {
    let stop = Arc::new(AtomicBool::new(false));
    let (queue, mut iter) = new_ordered_queue::<&str>(stop, 16, 64);
    // The child arrives before its parent: it must wait.
    queue.push(Ordered::new("child", IndexPath::new(vec![0, 0]), 0)).unwrap();
    assert!(matches!(iter.poll_strict(), QueuePoll::Empty));
    queue.push(Ordered::new("root", IndexPath::new(vec![0]), 1)).unwrap();
    match iter.poll_strict() {
        QueuePoll::Ready(o) => assert_eq!(o.value, "root"),
        _ => panic!("expected the root"),
    }
    match iter.poll_strict() {
        QueuePoll::Ready(o) => assert_eq!(o.value, "child"),
        _ => panic!("expected the child"),
    }
    assert!(matches!(iter.poll_strict(), QueuePoll::Disconnected));
    assert_eq!(iter.depth(), 0);
}

#[test]
fn ordered_queue_drains_leftovers_after_disconnect() {
    let stop = Arc::new(AtomicBool::new(false));
    let (queue, mut iter) = new_ordered_queue::<&str>(stop, 16, 64);
    queue.push(Ordered::new("late", IndexPath::new(vec![0, 3]), 0)).unwrap();
    queue.push(Ordered::new("early", IndexPath::new(vec![0, 1]), 0)).unwrap();
    drop(queue);
    assert_eq!(iter.finish_disconnected().map(|o| o.value), Some("early"));
    assert_eq!(iter.finish_disconnected().map(|o| o.value), Some("late"));
    assert!(iter.finish_disconnected().is_none());
}

#[test]
fn priority_step_follows_the_stop_flag_read() {
    let stop = Arc::new(AtomicBool::new(false));
    let (queue, mut iter) = new_priority_queue::<u8>(stop);
    queue.push(Weighted::new(7, IndexPath::new(vec![0]), 3)).unwrap();
    assert_eq!(iter.drain_channel(), 1);
    // Read as stopped: nothing is handed out and the item stays buffered.
    assert!(matches!(iter.poll_given_stop(true, 1), QueuePoll::Disconnected));
    // A buffered item is handed out whatever the pending count reads.
    match iter.poll_given_stop(false, 0) {
        QueuePoll::Ready(w) => assert_eq!(w.value, 7),
        _ => panic!("expected the buffered item"),
    }
    // Nothing buffered, one item still pending: wait.
    assert!(matches!(iter.poll_given_stop(false, 1), QueuePoll::Empty));
    // Nothing buffered and nothing pending: the walk is over.
    assert!(matches!(iter.poll_given_stop(false, 0), QueuePoll::Disconnected));
    queue.complete_item();
    assert!(matches!(iter.poll(), QueuePoll::Disconnected));
}

#[test]
fn strict_step_follows_the_stop_flag_read() {
    let stop = Arc::new(AtomicBool::new(false));
    let (queue, mut iter) = new_ordered_queue::<&str>(stop, 16, 64);
    queue.push(Ordered::new("root", IndexPath::new(vec![0]), 0)).unwrap();
    assert!(matches!(iter.poll_strict_given_stop(true), QueuePoll::Disconnected));
    assert_eq!(iter.depth(), 1);
    match iter.poll_strict_given_stop(false) {
        QueuePoll::Ready(o) => assert_eq!(o.value, "root"),
        _ => panic!("expected the root"),
    }
    // The whole tree went out.
    assert!(matches!(iter.poll_strict_given_stop(false), QueuePoll::Disconnected));
    assert_eq!(iter.depth(), 0);
}

#[test]
fn empty_work_queue_with_nothing_pending_is_over() {
    let stop = Arc::new(AtomicBool::new(false));
    let (_queue, mut iter) = new_priority_queue::<u32>(stop);
    assert_eq!(iter.drain_channel(), 0);
    assert!(matches!(iter.poll(), QueuePoll::Disconnected));
}
