use subs::queue::Queue;

#[test]
fn fresh_append_current_is_first() {
    let mut q = Queue::new();
    q.append(10);
    q.append(20);
    q.append(30);
    assert_eq!(q.position(), 0);
    assert_eq!(q.current(), Some(10));
}

#[test]
fn playback_enumerates_in_order() {
    let mut q = Queue::new();
    q.append(1);
    q.append(2);
    q.append(3);
    // The first track is consumed through `current`, every later one
    // through `next`; nothing is skipped, repeated, or read out of bounds.
    assert_eq!(q.current(), Some(1));
    assert_eq!(q.next(), Some(2));
    assert_eq!(q.next(), Some(3));
    assert_eq!(q.next(), None);
    assert_eq!(q.next(), None);
    assert_eq!(q.position(), 3);
}

#[test]
fn next_on_final_track_stops_cleanly() {
    let mut q = Queue::new();
    q.append(7);
    // Stepping off the single track yields None instead of indexing past
    // the end, and the cursor rests on the end sentinel.
    assert_eq!(q.next(), None);
    assert_eq!(q.position(), 1);
    assert_eq!(q.current(), None);
}

#[test]
fn prev_on_fresh_queue_returns_current_unchanged() {
    let mut q = Queue::new();
    q.append(4);
    q.append(5);
    let before = q.current();
    assert_eq!(q.prev(), before);
    assert_eq!(q.position(), 0);
}

#[test]
fn prev_clamps_at_zero() {
    let mut q = Queue::new();
    q.append(4);
    q.append(5);
    q.next();
    assert_eq!(q.position(), 1);
    assert_eq!(q.prev(), Some(4));
    assert_eq!(q.position(), 0);
    assert_eq!(q.prev(), Some(4));
    assert_eq!(q.position(), 0);
}

#[test]
fn prev2_rewinds_by_two_clamped() {
    let mut q = Queue::new();
    q.append(1);
    q.append(2);
    q.append(3);
    q.next();
    q.next();
    assert_eq!(q.position(), 2);
    assert_eq!(q.prev2(), Some(1));
    assert_eq!(q.position(), 0);
    assert_eq!(q.prev2(), Some(1));
    assert_eq!(q.position(), 0);
}

#[test]
fn insert_next_past_end_appends() {
    let mut q = Queue::new();
    // A fresh queue has position == length == 0: past the end.
    q.insert_next(9);
    assert_eq!(q.len(), 1);
    assert_eq!(q.current(), Some(9));

    let mut q2 = Queue::new();
    q2.append(1);
    q2.next();
    assert_eq!(q2.position(), 1); // past the end again
    q2.insert_next(2);
    assert_eq!(q2.len(), 2);
    assert_eq!(q2.current(), Some(2));
}

#[test]
fn insert_next_mid_queue_goes_after_cursor() {
    let mut q = Queue::new();
    q.append(1);
    q.append(3);
    q.insert_next(2);
    assert_eq!(q.current(), Some(1));
    assert_eq!(q.next(), Some(2));
    assert_eq!(q.next(), Some(3));
}

#[test]
fn clear_resets_cursor() {
    let mut q = Queue::new();
    q.append(1);
    q.append(2);
    q.next();
    q.clear();
    assert_eq!(q.len(), 0);
    assert_eq!(q.position(), 0);
    assert_eq!(q.current(), None);
    assert!(q.is_empty());
    // The reset cursor keeps insert_next sound on the emptied queue.
    q.insert_next(5);
    assert_eq!(q.current(), Some(5));
}

#[test]
fn has_next_sees_tracks_beyond_cursor() {
    let mut q = Queue::new();
    assert!(!q.has_next());
    q.append(1);
    assert!(!q.has_next());
    q.append(2);
    assert!(q.has_next());
    q.next();
    assert!(!q.has_next());
}

#[test]
fn append_all_keeps_order_and_cursor() {
    let mut q = Queue::new();
    q.append(1);
    q.append_all(&vec![2, 3, 4]);
    assert_eq!(q.len(), 4);
    assert_eq!(q.position(), 0);
    assert_eq!(q.current(), Some(1));
    assert_eq!(q.next(), Some(2));
    assert_eq!(q.next(), Some(3));
    assert_eq!(q.next(), Some(4));
}
