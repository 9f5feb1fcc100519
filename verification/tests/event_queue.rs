use gaggle::api::event_queue::{EventQueue, MAX_RETRIES};

#[test]
fn test_enqueue_assigns_sequential_event_seq() {
    let mut q = EventQueue::new();

    let s1 = q.enqueue("agent_a", "msg", r#"{"type":"ping"}"#).unwrap();
    let s2 = q.enqueue("agent_a", "msg", r#"{"type":"pong"}"#).unwrap();
    let s3 = q.enqueue("agent_b", "msg", r#"{"type":"ping"}"#).unwrap();

    assert_eq!(s1, 1);
    assert_eq!(s2, 2);
    assert_eq!(s3, 1, "different agents have independent seq counters");
}

#[test]
fn test_get_pending_returns_only_undelivered() {
    let mut q = EventQueue::new();

    q.enqueue("a1", "t1", "{}").unwrap();
    q.enqueue("a1", "t2", "{}").unwrap();
    q.enqueue("a1", "t3", "{}").unwrap();

    q.mark_delivered("a1", &[2]).unwrap();

    let pending = q.get_pending("a1", 0).unwrap();
    assert_eq!(pending.len(), 2);
    assert_eq!(pending[0].event_seq, 1);
    assert_eq!(pending[1].event_seq, 3);
}

#[test]
fn test_mark_delivered_up_to_cumulative_ack() {
    let mut q = EventQueue::new();

    q.enqueue("a1", "t1", "{}").unwrap();
    q.enqueue("a1", "t2", "{}").unwrap();
    q.enqueue("a1", "t3", "{}").unwrap();
    q.enqueue("a1", "t4", "{}").unwrap();
    q.enqueue("a1", "t5", "{}").unwrap();

    let count = q.mark_delivered_up_to("a1", 3).unwrap();
    assert_eq!(count, 3);

    let pending = q.get_pending("a1", 0).unwrap();
    assert_eq!(pending.len(), 2);
    assert_eq!(pending[0].event_seq, 4);
    assert_eq!(pending[1].event_seq, 5);

    let count2 = q.mark_delivered_up_to("a1", 4).unwrap();
    assert_eq!(count2, 1);

    let pending2 = q.get_pending("a1", 0).unwrap();
    assert_eq!(pending2.len(), 1);
    assert_eq!(pending2[0].event_seq, 5);
}

#[test]
fn test_mark_delivered_up_to_idempotent() {
    let mut q = EventQueue::new();

    q.enqueue("a1", "t1", "{}").unwrap();
    q.enqueue("a1", "t2", "{}").unwrap();

    let c1 = q.mark_delivered_up_to("a1", 5).unwrap();
    assert_eq!(c1, 2);

    let c2 = q.mark_delivered_up_to("a1", 5).unwrap();
    assert_eq!(c2, 0);
}

#[test]
fn test_get_pending_after_seq_filter() {
    let mut q = EventQueue::new();

    q.enqueue("a1", "t1", "{}").unwrap();
    q.enqueue("a1", "t2", "{}").unwrap();
    q.enqueue("a1", "t3", "{}").unwrap();

    let pending = q.get_pending("a1", 1).unwrap();
    assert_eq!(pending.len(), 2);
    assert_eq!(pending[0].event_seq, 2);
    assert_eq!(pending[1].event_seq, 3);
}

#[test]
fn test_retry_mechanism_and_dead_letter() {
    let mut q = EventQueue::new();

    q.enqueue("a1", "t1", "{}").unwrap();

    let pending = q.get_pending("a1", 0).unwrap();
    assert_eq!(pending.len(), 1);
    let event_id = pending[0].id;

    let alive = q.mark_retry_attempt(event_id).unwrap();
    assert!(alive, "should have retries remaining after first attempt");

    for _ in 1..(MAX_RETRIES - 1) {
        let alive = q.mark_retry_attempt(event_id).unwrap();
        assert!(alive);
    }

    let alive = q.mark_retry_attempt(event_id).unwrap();
    assert!(!alive, "should be dead letter after max retries");

    let pending = q.get_pending("a1", 0).unwrap();
    assert_eq!(pending.len(), 0, "dead letter should not appear in pending");
}

#[test]
fn test_queue_stats() {
    let mut q = EventQueue::new();

    q.enqueue("a1", "t1", "{}").unwrap();
    q.enqueue("a1", "t2", "{}").unwrap();
    q.enqueue("a1", "t3", "{}").unwrap();

    let stats = q.get_stats().unwrap();
    assert!(stats.pending_count + stats.retry_pending_count >= 3);
    assert_eq!(stats.dead_letter_count, 0);
    assert_eq!(stats.delivered_count, 0);

    q.mark_delivered_up_to("a1", 1).unwrap();
    let stats = q.get_stats().unwrap();
    assert_eq!(stats.delivered_count, 1);
}

#[test]
fn test_recover_dead_letters() {
    let mut q = EventQueue::new();

    q.enqueue("a1", "t1", r#"{"data":1}"#).unwrap();
    q.enqueue("a1", "t2", r#"{"data":2}"#).unwrap();

    let pending = q.get_pending("a1", 0).unwrap();
    assert_eq!(pending.len(), 2);
    for evt in &pending {
        for _ in 0..MAX_RETRIES {
            q.mark_retry_attempt(evt.id).unwrap();
        }
    }

    let stats = q.get_stats().unwrap();
    assert_eq!(stats.dead_letter_count, 2);
    let pending_after = q.get_pending("a1", 0).unwrap();
    assert_eq!(pending_after.len(), 0, "dead letters excluded from pending");

    let recovered = q.recover_dead_letters("a1").unwrap();
    assert_eq!(recovered.len(), 2, "recovered events should appear in pending");
    assert_eq!(recovered[0].event_seq, 1);
    assert_eq!(recovered[1].event_seq, 2);

    let stats = q.get_stats().unwrap();
    assert_eq!(stats.dead_letter_count, 0);
}

#[test]
fn test_cleanup_dead_letters() {
    let mut q = EventQueue::new();

    q.enqueue("a1", "t1", "{}").unwrap();

    let pending = q.get_pending("a1", 0).unwrap();
    for _ in 0..MAX_RETRIES {
        q.mark_retry_attempt(pending[0].id).unwrap();
    }

    let stats = q.get_stats().unwrap();
    assert_eq!(stats.dead_letter_count, 1);

    let deleted = q.cleanup_dead_letters(-1).unwrap();
    assert_eq!(deleted, 1);

    let stats = q.get_stats().unwrap();
    assert_eq!(stats.dead_letter_count, 0);
}

#[test]
fn retry_dead_letter_requeues_only_dead_letters() {
    let mut q = EventQueue::new();
    q.enqueue("a1", "t1", "{}").unwrap();
    let id = q.get_pending("a1", 0).unwrap()[0].id;
    assert_eq!(q.retry_dead_letter(id).unwrap(), false);
    for _ in 0..MAX_RETRIES {
        q.mark_retry_attempt(id).unwrap();
    }
    assert_eq!(q.list_dead_letters(Some("a1"), 10).unwrap().len(), 1);
    assert_eq!(q.retry_dead_letter(id).unwrap(), true);
    assert_eq!(q.list_dead_letters(None, 10).unwrap().len(), 0);
    assert_eq!(q.get_pending("a1", 0).unwrap().len(), 1);
}

#[test]
fn payload_and_type_come_back_as_enqueued() {
    let mut q = EventQueue::new();
    q.enqueue("a", "new_message", r#"{"x":1}"#).unwrap();
    let p = q.get_pending("a", 0).unwrap();
    assert_eq!(p[0].agent_id, "a");
    assert_eq!(p[0].event_type, "new_message");
    assert_eq!(p[0].payload, r#"{"x":1}"#);
    assert_eq!(p[0].retry_count, 0);
    assert!(!p[0].is_dead_letter);
}

#[test]
fn delivery_is_permanent_after_ack() {
    let mut q = EventQueue::new();
    q.enqueue("a", "t", "{}").unwrap();
    q.mark_delivered_up_to("a", 1).unwrap();
    let recovered = q.recover_dead_letters("a").unwrap();
    assert!(recovered.is_empty());
    assert_eq!(q.get_stats().unwrap().delivered_count, 1);
}

#[test]
fn orphan_events_are_dropped() {
    let mut q = EventQueue::new();
    q.enqueue("known", "t", "{}").unwrap();
    q.enqueue("gone", "t", "{}").unwrap();
    let removed = q.cleanup_orphan_events(&["known".to_string()]).unwrap();
    assert_eq!(removed, 1);
    assert_eq!(q.get_pending("gone", 0).unwrap().len(), 0);
    assert_eq!(q.get_pending("known", 0).unwrap().len(), 1);
}

#[test]
fn retry_waits_grow_five_fifteen_fortyfive() {
    let mut q = EventQueue::new();
    q.enqueue_at("a", "tick", "{}", 0).unwrap();
    let e = q.get_pending("a", 0).unwrap().remove(0);
    assert_eq!(e.next_retry_at, Some(5_000));
    let expected = [15_000i64, 45_000, 135_000, 405_000];
    for (k, wait) in expected.iter().enumerate() {
        let now = 100_000 * (k as i64 + 1);
        assert!(q.mark_retry_attempt_at(e.id, now).unwrap());
        let again = q.get_pending("a", 0).unwrap().remove(0);
        assert_eq!(again.retry_count, k as u32 + 1);
        assert_eq!(again.next_retry_at, Some(now + wait));
    }
    assert!(!q.mark_retry_attempt_at(e.id, 1_000_000).unwrap());
}
