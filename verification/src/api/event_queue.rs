//! The reliable event queue.
//!
//! Every event pushed to an agent is kept here until the agent acknowledges
//! it. Each agent has its own sequence of event numbers, starting at 1. An
//! event that is not acknowledged is retried with exponential backoff
//! (5 s, 15 s, 45 s, 135 s, 405 s); after `MAX_RETRIES` attempts it becomes a
//! dead letter, which can be recovered so that events never silently
//! disappear.

use vstd::prelude::*;
use crate::error::GaggleError;
use crate::seqs::{
    count, keep, lemma_count_add, lemma_count_keep_le, lemma_count_pointwise, lemma_count_push,
    lemma_count_remove, lemma_keep_len, lemma_keep_none, lemma_keep_ordered, lemma_keep_origin,
    lemma_keep_prefix, lemma_keep_push, lemma_keep_some, lemma_keep_take_step, lemma_take_full,
    ordered_by,
};
use crate::sys::{now_millis, MAX_CLOCK_MILLIS};
use crate::text::{str_eq, str_lt, str_lt_exec};
use vstd::string::*;

verus! {

/// At most this many events are kept per agent; older ones are dropped.
pub const MAX_EVENTS_PER_AGENT: usize = 1000;

/// At most this many events are handed out by one `get_pending`.
pub const DELIVER_BATCH_SIZE: usize = 500;

/// After this many retry attempts an event becomes a dead letter.
pub const MAX_RETRIES: u32 = 5;

/// At most this many due events are handed out by one `get_retry_pending`.
pub const RETRY_BATCH_SIZE: usize = 500;

/// Milliseconds in a day.
pub const DAY_MILLIS: i64 = 86_400_000;

/// The largest number of days (either way) a cleanup accepts.
pub const MAX_CLEANUP_DAYS: i64 = 100_000_000_000;

/// The wait before the next delivery after `i` failed attempts: 5 s before
/// the first retry, then 15 s, 45 s, 135 s and 405 s.
pub open spec fn retry_backoff_ms(i: int) -> i64 {
    if i <= 0 {
        5_000
    } else if i == 1 {
        15_000
    } else if i == 2 {
        45_000
    } else if i == 3 {
        135_000
    } else {
        405_000
    }
}

fn backoff_ms(i: u32) -> (r: i64)
    ensures
        r == retry_backoff_ms(i as int),
{
    if i == 0 {
        5_000
    } else if i == 1 {
        15_000
    } else if i == 2 {
        45_000
    } else if i == 3 {
        135_000
    } else {
        405_000
    }
}

/// An event as handed out to readers of the queue.
#[derive(Debug)]
pub struct QueuedEvent {
    pub id: i64,
    pub agent_id: String,
    pub event_type: String,
    pub payload: String,
    pub event_seq: i64,
    pub created_at: i64,
    pub retry_count: u32,
    pub next_retry_at: Option<i64>,
    pub is_dead_letter: bool,
}

/// Queue counts for observability.
#[derive(Debug, Clone, Copy, PartialEq, Eq)]
pub struct QueueStats {
    /// Undelivered, not dead, with no retry scheduled.
    pub pending_count: i64,
    /// Undelivered, not dead, with a retry scheduled.
    pub retry_pending_count: i64,
    /// Dead letters.
    pub dead_letter_count: i64,
    /// Delivered events.
    pub delivered_count: i64,
}

/// The mathematical view of one stored event.
pub struct EventRecord {
    pub id: i64,
    pub agent_id: Seq<char>,
    pub event_type: Seq<char>,
    pub payload: Seq<char>,
    pub event_seq: i64,
    pub created_at: i64,
    pub delivered_at: Option<i64>,
    pub retry_count: u32,
    pub next_retry_at: Option<i64>,
    pub last_attempt_at: Option<i64>,
    pub is_dead_letter: bool,
}

struct StoredEvent {
    id: i64,
    agent_id: String,
    event_type: String,
    payload: String,
    event_seq: i64,
    created_at: i64,
    delivered_at: Option<i64>,
    retry_count: u32,
    next_retry_at: Option<i64>,
    last_attempt_at: Option<i64>,
    is_dead_letter: bool,
}

impl StoredEvent {
    spec fn view(&self) -> EventRecord {
        EventRecord {
            id: self.id,
            agent_id: self.agent_id@,
            event_type: self.event_type@,
            payload: self.payload@,
            event_seq: self.event_seq,
            created_at: self.created_at,
            delivered_at: self.delivered_at,
            retry_count: self.retry_count,
            next_retry_at: self.next_retry_at,
            last_attempt_at: self.last_attempt_at,
            is_dead_letter: self.is_dead_letter,
        }
    }

    fn duplicate(&self) -> (r: StoredEvent)
        ensures
            r.view() == self.view(),
    {
        StoredEvent {
            id: self.id,
            agent_id: self.agent_id.clone(),
            event_type: self.event_type.clone(),
            payload: self.payload.clone(),
            event_seq: self.event_seq,
            created_at: self.created_at,
            delivered_at: self.delivered_at,
            retry_count: self.retry_count,
            next_retry_at: self.next_retry_at,
            last_attempt_at: self.last_attempt_at,
            is_dead_letter: self.is_dead_letter,
        }
    }

    fn to_queued(&self) -> (q: QueuedEvent)
        ensures
            queued_is(q, self.view()),
    {
        QueuedEvent {
            id: self.id,
            agent_id: self.agent_id.clone(),
            event_type: self.event_type.clone(),
            payload: self.payload.clone(),
            event_seq: self.event_seq,
            created_at: self.created_at,
            retry_count: self.retry_count,
            next_retry_at: self.next_retry_at,
            is_dead_letter: self.is_dead_letter,
        }
    }
}

/// Whether a handed-out event shows exactly the stored record `r`.
pub open spec fn queued_is(q: QueuedEvent, r: EventRecord) -> bool {
    &&& q.id == r.id
    &&& q.agent_id@ == r.agent_id
    &&& q.event_type@ == r.event_type
    &&& q.payload@ == r.payload
    &&& q.event_seq == r.event_seq
    &&& q.created_at == r.created_at
    &&& q.retry_count == r.retry_count
    &&& q.next_retry_at == r.next_retry_at
    &&& q.is_dead_letter == r.is_dead_letter
}

/// Whether the handed-out list shows exactly the records `rs`, in order.
pub open spec fn queued_list(out: Seq<QueuedEvent>, rs: Seq<EventRecord>) -> bool {
    &&& out.len() == rs.len()
    &&& forall|i: int| 0 <= i < out.len() ==> queued_is(#[trigger] out[i], rs[i])
}

// ───────────────────────── the model ─────────────────────────

/// How many stored events belong to agent `a`.
pub open spec fn agent_count(rows: Seq<EventRecord>, a: Seq<char>) -> nat {
    count(rows, agent_pred(a))
}

/// The events of agent `a`.
pub open spec fn agent_pred(a: Seq<char>) -> spec_fn(EventRecord) -> bool {
    |r: EventRecord| r.agent_id == a
}

/// Earlier rows have smaller ids and, for the same agent, smaller event numbers.
pub open spec fn row_order(x: EventRecord, y: EventRecord) -> bool {
    &&& x.id < y.id
    &&& x.agent_id == y.agent_id ==> x.event_seq < y.event_seq
}

pub open spec fn row_order_fn() -> spec_fn(EventRecord, EventRecord) -> bool {
    |x: EventRecord, y: EventRecord| row_order(x, y)
}

/// The queue's invariant.
pub open spec fn rows_wf(rows: Seq<EventRecord>, next_id: i64) -> bool {
    &&& next_id >= 1
    &&& ordered_by(rows, row_order_fn())
    &&& forall|i: int| 0 <= i < rows.len() ==> 1 <= #[trigger] rows[i].id < next_id
    &&& forall|i: int| 0 <= i < rows.len() ==> #[trigger] rows[i].event_seq >= 1
    &&& forall|a: Seq<char>| #[trigger] agent_count(rows, a) <= MAX_EVENTS_PER_AGENT
}

/// The largest event number of agent `a`, or 0 if it has none.
pub open spec fn max_seq(rows: Seq<EventRecord>, a: Seq<char>) -> i64
    decreases rows.len(),
{
    if rows.len() == 0 {
        0
    } else {
        let m = max_seq(rows.drop_last(), a);
        if rows.last().agent_id == a && rows.last().event_seq > m {
            rows.last().event_seq
        } else {
            m
        }
    }
}

/// The event number the next event of agent `a` gets.
pub open spec fn next_seq_for(rows: Seq<EventRecord>, a: Seq<char>) -> int {
    max_seq(rows, a) + 1
}

/// The record a new event starts as.
pub open spec fn new_record(
    id: i64,
    a: Seq<char>,
    t: Seq<char>,
    p: Seq<char>,
    seq: i64,
    now: i64,
) -> EventRecord {
    EventRecord {
        id,
        agent_id: a,
        event_type: t,
        payload: p,
        event_seq: seq,
        created_at: now,
        delivered_at: None,
        retry_count: 0,
        next_retry_at: Some((now + retry_backoff_ms(0)) as i64),
        last_attempt_at: None,
        is_dead_letter: false,
    }
}

/// The position of the oldest stored event of agent `a`.
#[verifier::opaque]
pub open spec fn first_of_agent(rows: Seq<EventRecord>, a: Seq<char>) -> int {
    choose|k: int|
        0 <= k < rows.len() && rows[k].agent_id == a && forall|j: int|
            0 <= j < k ==> rows[j].agent_id != a
}

/// Keeps only the newest `MAX_EVENTS_PER_AGENT` events of agent `a`.
pub open spec fn trimmed(rows: Seq<EventRecord>, a: Seq<char>) -> Seq<EventRecord> {
    if agent_count(rows, a) > MAX_EVENTS_PER_AGENT {
        rows.remove(first_of_agent(rows, a))
    } else {
        rows
    }
}

/// The stored events after an event for agent `a` is enqueued.
pub open spec fn enqueued(
    rows: Seq<EventRecord>,
    next_id: i64,
    a: Seq<char>,
    t: Seq<char>,
    p: Seq<char>,
    now: i64,
) -> Seq<EventRecord> {
    trimmed(rows.push(new_record(next_id, a, t, p, (max_seq(rows, a) + 1) as i64, now)), a)
}

/// An event that `get_pending(a, after)` hands out.
pub open spec fn is_pending_for(r: EventRecord, a: Seq<char>, after: i64) -> bool {
    &&& r.agent_id == a
    &&& r.event_seq > after
    &&& r.delivered_at is None
    &&& !r.is_dead_letter
}

pub open spec fn pending_pred(a: Seq<char>, after: i64) -> spec_fn(EventRecord) -> bool {
    |r: EventRecord| is_pending_for(r, a, after)
}

/// The undelivered, live events of agent `a` numbered above `after`, oldest first.
pub open spec fn pending_of(rows: Seq<EventRecord>, a: Seq<char>, after: i64) -> Seq<EventRecord> {
    keep(rows, pending_pred(a, after))
}

/// One batch of pending events.
pub open spec fn pending_batch(rows: Seq<EventRecord>, a: Seq<char>, after: i64) -> Seq<
    EventRecord,
> {
    let all = pending_of(rows, a, after);
    if all.len() <= DELIVER_BATCH_SIZE {
        all
    } else {
        all.take(DELIVER_BATCH_SIZE as int)
    }
}

/// Event numbers increase along a list.
pub open spec fn seq_increasing(s: Seq<EventRecord>) -> bool {
    forall|i: int, j: int| 0 <= i < j < s.len() ==> s[i].event_seq < s[j].event_seq
}

/// The queue.
pub struct EventQueue {
    rows: Vec<StoredEvent>,
    next_id: i64,
}

impl EventQueue {
    /// The stored events, oldest first.
    pub closed spec fn rows(&self) -> Seq<EventRecord> {
        self.rows@.map_values(|e: StoredEvent| e.view())
    }

    /// The id the next stored event gets.
    pub closed spec fn next_id(&self) -> i64 {
        self.next_id
    }

    /// The queue's invariant holds.
    pub open spec fn wf(&self) -> bool {
        rows_wf(self.rows(), self.next_id())
    }

    /// An empty queue.
    pub fn new() -> (q: EventQueue)
        ensures
            q.wf(),
            q.rows() == Seq::<EventRecord>::empty(),
            q.next_id() == 1,
    {
        let q = EventQueue { rows: Vec::new(), next_id: 1 };
        proof {
            assert(q.rows() =~= Seq::<EventRecord>::empty());
            assert forall|a: Seq<char>| #[trigger] agent_count(q.rows(), a) <= MAX_EVENTS_PER_AGENT by {
                lemma_keep_len(q.rows(), agent_pred(a));
            }
        }
        q
    }
}

// ───────────────────────── lemmas ─────────────────────────

/// Every event of agent `a` is numbered at most `max_seq(rows, a)`.
pub proof fn lemma_max_seq_bound(rows: Seq<EventRecord>, a: Seq<char>)
    ensures
        max_seq(rows, a) >= 0,
        forall|i: int|
            0 <= i < rows.len() && rows[i].agent_id == a ==> #[trigger] rows[i].event_seq <= max_seq(
                rows,
                a,
            ),
    decreases rows.len(),
{
    if rows.len() > 0 {
        lemma_max_seq_bound(rows.drop_last(), a);
        assert forall|i: int|
            0 <= i < rows.len() && rows[i].agent_id == a implies #[trigger] rows[i].event_seq
            <= max_seq(rows, a) by {
            if i < rows.len() - 1 {
                assert(rows.drop_last()[i] == rows[i]);
            }
        }
    }
}

/// Rows that keep id, agent and event number keep the invariant.
pub proof fn lemma_wf_pointwise(old_rows: Seq<EventRecord>, new_rows: Seq<EventRecord>, next_id: i64)
    requires
        rows_wf(old_rows, next_id),
        old_rows.len() == new_rows.len(),
        forall|i: int|
            0 <= i < old_rows.len() ==> (#[trigger] new_rows[i]).id == old_rows[i].id
                && new_rows[i].agent_id == old_rows[i].agent_id && new_rows[i].event_seq
                == old_rows[i].event_seq,
    ensures
        rows_wf(new_rows, next_id),
{
    assert forall|i: int, j: int| 0 <= i < j < new_rows.len() implies (row_order_fn())(
        #[trigger] new_rows[i],
        #[trigger] new_rows[j],
    ) by {
        assert((row_order_fn())(old_rows[i], old_rows[j]));
    }
    assert forall|i: int| 0 <= i < new_rows.len() implies 1 <= #[trigger] new_rows[i].id < next_id by {
        assert(1 <= old_rows[i].id < next_id);
    }
    assert forall|i: int| 0 <= i < new_rows.len() implies #[trigger] new_rows[i].event_seq >= 1 by {
        assert(old_rows[i].event_seq >= 1);
    }
    assert forall|a: Seq<char>| #[trigger] agent_count(new_rows, a) <= MAX_EVENTS_PER_AGENT by {
        let q = agent_pred(a);
        assert forall|i: int| 0 <= i < old_rows.len() implies q(#[trigger] old_rows[i]) == q(
            new_rows[i],
        ) by {
            assert(new_rows[i].agent_id == old_rows[i].agent_id);
        }
        lemma_count_pointwise(old_rows, new_rows, q);
        assert(agent_count(old_rows, a) <= MAX_EVENTS_PER_AGENT);
    }
}

/// Deleting rows keeps the invariant.
pub proof fn lemma_wf_keep(rows: Seq<EventRecord>, next_id: i64, p: spec_fn(EventRecord) -> bool)
    requires
        rows_wf(rows, next_id),
    ensures
        rows_wf(keep(rows, p), next_id),
{
    let k = keep(rows, p);
    lemma_keep_ordered(rows, p, row_order_fn());
    lemma_keep_origin(rows, p);
    assert forall|i: int| 0 <= i < k.len() implies 1 <= #[trigger] k[i].id < next_id && k[i].event_seq
        >= 1 by {
        let m = choose|m: int| 0 <= m < rows.len() && #[trigger] k[i] == rows[m] && p(rows[m]);
        assert(1 <= rows[m].id < next_id);
        assert(rows[m].event_seq >= 1);
    }
    assert forall|a: Seq<char>| #[trigger] agent_count(k, a) <= MAX_EVENTS_PER_AGENT by {
        lemma_count_keep_le(rows, p, agent_pred(a));
        assert(agent_count(rows, a) <= MAX_EVENTS_PER_AGENT);
    }
}

/// Pending events come out in increasing event-number order.
pub proof fn lemma_pending_sorted(rows: Seq<EventRecord>, next_id: i64, a: Seq<char>, after: i64)
    requires
        rows_wf(rows, next_id),
    ensures
        seq_increasing(pending_of(rows, a, after)),
        seq_increasing(pending_batch(rows, a, after)),
{
    let p = pending_pred(a, after);
    let r = |x: EventRecord, y: EventRecord| x.agent_id == a && y.agent_id == a ==> x.event_seq < y.event_seq;
    assert(ordered_by(rows, r)) by {
        assert forall|i: int, j: int| 0 <= i < j < rows.len() implies r(#[trigger] rows[i], #[trigger] rows[j]) by {
            assert((row_order_fn())(rows[i], rows[j]));
        }
    }
    lemma_keep_ordered(rows, p, r);
    lemma_keep_origin(rows, p);
    let k = keep(rows, p);
    assert forall|i: int, j: int| 0 <= i < j < k.len() implies k[i].event_seq < k[j].event_seq by {
        assert(r(k[i], k[j]));
        let m = choose|m: int| 0 <= m < rows.len() && #[trigger] k[i] == rows[m] && p(rows[m]);
        let n = choose|n: int| 0 <= n < rows.len() && #[trigger] k[j] == rows[n] && p(rows[n]);
    }
}


/// Ids grow with position, so the queue never holds more rows than ids handed out.
pub proof fn lemma_rows_bounded(rows: Seq<EventRecord>, next_id: i64)
    requires
        rows_wf(rows, next_id),
    ensures
        rows.len() < next_id,
        forall|i: int| 0 <= i < rows.len() ==> #[trigger] rows[i].id >= i + 1,
{
    assert forall|i: int| 0 <= i < rows.len() implies #[trigger] rows[i].id >= i + 1 by {
        lemma_id_ge_index(rows, next_id, i);
    }
    if rows.len() > 0 {
        assert(rows[rows.len() - 1].id >= rows.len());
    }
}

proof fn lemma_id_ge_index(rows: Seq<EventRecord>, next_id: i64, i: int)
    requires
        rows_wf(rows, next_id),
        0 <= i < rows.len(),
    ensures
        rows[i].id >= i + 1,
    decreases i,
{
    if i > 0 {
        lemma_id_ge_index(rows, next_id, i - 1);
        assert((row_order_fn())(rows[i - 1], rows[i]));
    } else {
        assert(1 <= rows[i].id);
    }
}

// ───────────────────────── updates and deletions ─────────────────────────

/// The record after its delivery is confirmed at `now`.
pub open spec fn delivered(r: EventRecord, now: i64) -> EventRecord {
    EventRecord { delivered_at: Some(now), next_retry_at: None, ..r }
}

/// `mark_delivered`: every event of `a` whose number is listed is marked delivered.
pub open spec fn mark_delivered_rows(
    rows: Seq<EventRecord>,
    a: Seq<char>,
    seqs: Seq<i64>,
    now: i64,
) -> Seq<EventRecord> {
    rows.map_values(
        |r: EventRecord|
            if r.agent_id == a && seqs.contains(r.event_seq) {
                delivered(r, now)
            } else {
                r
            },
    )
}

/// An undelivered event of `a` numbered at most `n`: what a cumulative ack confirms.
pub open spec fn acked_by(r: EventRecord, a: Seq<char>, n: i64) -> bool {
    r.agent_id == a && r.event_seq <= n && r.delivered_at is None
}

pub open spec fn acked_pred(a: Seq<char>, n: i64) -> spec_fn(EventRecord) -> bool {
    |r: EventRecord| acked_by(r, a, n)
}

/// `mark_delivered_up_to`: every undelivered event of `a` numbered at most `n` is delivered.
pub open spec fn ack_rows(rows: Seq<EventRecord>, a: Seq<char>, n: i64, now: i64) -> Seq<
    EventRecord,
> {
    rows.map_values(|r: EventRecord| if acked_by(r, a, n) { delivered(r, now) } else { r })
}

/// The retry count of the event with id `id`, or 0 if there is none.
pub open spec fn retry_count_of(rows: Seq<EventRecord>, id: i64) -> u32 {
    if exists|k: int| 0 <= k < rows.len() && rows[k].id == id {
        rows[choose|k: int| 0 <= k < rows.len() && rows[k].id == id].retry_count
    } else {
        0
    }
}

/// The record after one more failed delivery attempt at `now`, its count now
/// being `n`: a dead letter at `MAX_RETRIES`, else due again
/// `retry_backoff_ms(n)` later.
pub open spec fn attempted(r: EventRecord, n: u32, now: i64) -> EventRecord {
    if n >= MAX_RETRIES {
        EventRecord {
            retry_count: n,
            last_attempt_at: Some(now),
            is_dead_letter: true,
            next_retry_at: None,
            ..r
        }
    } else {
        EventRecord {
            retry_count: n,
            last_attempt_at: Some(now),
            next_retry_at: Some((now + retry_backoff_ms(n as int)) as i64),
            ..r
        }
    }
}

/// `mark_retry_attempt`: the event with id `id` records one more attempt.
pub open spec fn retry_rows(rows: Seq<EventRecord>, id: i64, now: i64) -> Seq<EventRecord> {
    let n = (retry_count_of(rows, id) + 1) as u32;
    rows.map_values(|r: EventRecord| if r.id == id { attempted(r, n, now) } else { r })
}

/// `reset_retry_timer`: an undelivered event with id `id` waits a fresh first backoff.
pub open spec fn reset_rows(rows: Seq<EventRecord>, id: i64, now: i64) -> Seq<EventRecord> {
    rows.map_values(
        |r: EventRecord|
            if r.id == id && r.delivered_at is None {
                EventRecord { next_retry_at: Some((now + retry_backoff_ms(0)) as i64), ..r }
            } else {
                r
            },
    )
}

/// A dead letter brought back to life at `now`.
pub open spec fn revived(r: EventRecord, now: i64) -> EventRecord {
    EventRecord {
        is_dead_letter: false,
        retry_count: 0,
        next_retry_at: Some((now + retry_backoff_ms(0)) as i64),
        ..r
    }
}

/// `recover_dead_letters`: every undelivered dead letter of `a` is revived.
pub open spec fn recover_rows(rows: Seq<EventRecord>, a: Seq<char>, now: i64) -> Seq<EventRecord> {
    rows.map_values(
        |r: EventRecord|
            if r.agent_id == a && r.is_dead_letter && r.delivered_at is None {
                revived(r, now)
            } else {
                r
            },
    )
}

/// `retry_dead_letter`: the dead letter with id `id` is revived.
pub open spec fn retry_dead_rows(rows: Seq<EventRecord>, id: i64, now: i64) -> Seq<EventRecord> {
    rows.map_values(
        |r: EventRecord| if r.id == id && r.is_dead_letter { revived(r, now) } else { r },
    )
}

/// The cutoff `days` days before `now`.
pub open spec fn cutoff(now: i64, days: i64) -> int {
    now - days * DAY_MILLIS
}

/// Delivered before the cutoff: what `cleanup_delivered` deletes.
pub open spec fn delivered_before(r: EventRecord, c: int) -> bool {
    match r.delivered_at {
        Some(t) => t < c,
        None => false,
    }
}

/// Undelivered, live, never retried and created before the cutoff: what
/// `cleanup_stale_pending` deletes.
pub open spec fn stale_before(r: EventRecord, c: int) -> bool {
    r.delivered_at is None && !r.is_dead_letter && r.created_at < c && r.retry_count == 0
}

/// An undelivered dead letter last attempted before the cutoff: what
/// `cleanup_dead_letters` deletes.
pub open spec fn dead_before(r: EventRecord, c: int) -> bool {
    r.is_dead_letter && r.delivered_at is None && match r.last_attempt_at {
        Some(t) => t < c,
        None => false,
    }
}

/// An undelivered event whose agent is not among `known`: what
/// `cleanup_orphan_events` deletes.
pub open spec fn orphaned(r: EventRecord, known: Seq<Seq<char>>) -> bool {
    r.delivered_at is None && !known.contains(r.agent_id)
}

pub open spec fn not_pred(p: spec_fn(EventRecord) -> bool) -> spec_fn(EventRecord) -> bool {
    |r: EventRecord| !p(r)
}

pub open spec fn delivered_before_pred(c: int) -> spec_fn(EventRecord) -> bool {
    |r: EventRecord| delivered_before(r, c)
}

pub open spec fn stale_before_pred(c: int) -> spec_fn(EventRecord) -> bool {
    |r: EventRecord| stale_before(r, c)
}

pub open spec fn dead_before_pred(c: int) -> spec_fn(EventRecord) -> bool {
    |r: EventRecord| dead_before(r, c)
}

pub open spec fn orphaned_pred(known: Seq<Seq<char>>) -> spec_fn(EventRecord) -> bool {
    |r: EventRecord| orphaned(r, known)
}

// ───────────────────────── statistics ─────────────────────────

pub open spec fn stat_pending(r: EventRecord) -> bool {
    r.delivered_at is None && !r.is_dead_letter && r.next_retry_at is None
}

pub open spec fn stat_retry_pending(r: EventRecord) -> bool {
    r.delivered_at is None && !r.is_dead_letter && r.next_retry_at is Some
}

pub open spec fn stat_dead(r: EventRecord) -> bool {
    r.is_dead_letter
}

pub open spec fn stat_delivered(r: EventRecord) -> bool {
    r.delivered_at is Some
}

/// The statistics of a queue holding `rows`.
pub open spec fn stats_of(rows: Seq<EventRecord>) -> QueueStats {
    QueueStats {
        pending_count: count(rows, |r: EventRecord| stat_pending(r)) as i64,
        retry_pending_count: count(rows, |r: EventRecord| stat_retry_pending(r)) as i64,
        dead_letter_count: count(rows, |r: EventRecord| stat_dead(r)) as i64,
        delivered_count: count(rows, |r: EventRecord| stat_delivered(r)) as i64,
    }
}

// ───────────────────────── dead-letter listing ─────────────────────────

/// A dead letter, of agent `a` if one is given.
pub open spec fn is_listed_dead(r: EventRecord, a: Option<Seq<char>>) -> bool {
    r.is_dead_letter && match a {
        Some(x) => r.agent_id == x,
        None => true,
    }
}

pub open spec fn listed_dead_pred(a: Option<Seq<char>>) -> spec_fn(EventRecord) -> bool {
    |r: EventRecord| is_listed_dead(r, a)
}

/// Inserts `x` after every element created no earlier than it.
pub open spec fn insert_newest_first(s: Seq<EventRecord>, x: EventRecord) -> Seq<EventRecord>
    decreases s.len(),
{
    if s.len() == 0 {
        seq![x]
    } else if s[0].created_at < x.created_at {
        seq![x] + s
    } else {
        seq![s[0]] + insert_newest_first(s.drop_first(), x)
    }
}

/// `s` ordered newest first; events created at the same time keep their order.
pub open spec fn newest_first(s: Seq<EventRecord>) -> Seq<EventRecord>
    decreases s.len(),
{
    if s.len() == 0 {
        Seq::empty()
    } else {
        insert_newest_first(newest_first(s.drop_last()), s.last())
    }
}

/// Creation times do not increase along `s`.
pub open spec fn created_non_increasing(s: Seq<EventRecord>) -> bool {
    forall|i: int, j: int| 0 <= i < j < s.len() ==> s[i].created_at >= s[j].created_at
}

/// What `list_dead_letters(a, limit)` hands out.
pub open spec fn dead_listing(rows: Seq<EventRecord>, a: Option<Seq<char>>, limit: u32) -> Seq<
    EventRecord,
> {
    let all = newest_first(keep(rows, listed_dead_pred(a)));
    if all.len() <= limit {
        all
    } else {
        all.take(limit as int)
    }
}

proof fn lemma_insert_at(s: Seq<EventRecord>, x: EventRecord, j: int)
    requires
        0 <= j <= s.len(),
        forall|k: int| 0 <= k < j ==> s[k].created_at >= x.created_at,
        j < s.len() ==> s[j].created_at < x.created_at,
    ensures
        insert_newest_first(s, x) == s.insert(j, x),
    decreases s.len(),
{
    if s.len() == 0 {
        assert(s.insert(j, x) =~= seq![x]);
    } else if j == 0 {
        assert(s.insert(0, x) =~= seq![x] + s);
    } else {
        let t = s.drop_first();
        assert forall|k: int| 0 <= k < j - 1 implies t[k].created_at >= x.created_at by {
            assert(t[k] == s[k + 1]);
        }
        if j < s.len() {
            assert(t[j - 1] == s[j]);
        }
        lemma_insert_at(t, x, j - 1);
        assert(s.insert(j, x) =~= seq![s[0]] + t.insert(j - 1, x));
    }
}

proof fn lemma_insert_sorted(s: Seq<EventRecord>, x: EventRecord)
    requires
        created_non_increasing(s),
    ensures
        created_non_increasing(insert_newest_first(s, x)),
        insert_newest_first(s, x).len() == s.len() + 1,
    decreases s.len(),
{
    if s.len() > 0 && s[0].created_at >= x.created_at {
        let t = s.drop_first();
        assert(created_non_increasing(t)) by {
            assert forall|i: int, j: int| 0 <= i < j < t.len() implies t[i].created_at >= t[j].created_at by {
                assert(t[i] == s[i + 1] && t[j] == s[j + 1]);
            }
        }
        lemma_insert_sorted(t, x);
        lemma_insert_members(t, x);
        let r = seq![s[0]] + insert_newest_first(t, x);
        assert forall|i: int, j: int| 0 <= i < j < r.len() implies r[i].created_at >= r[j].created_at by {
            if i == 0 {
                let m = insert_newest_first(t, x);
                assert(r[j] == m[j - 1]);
                let y = m[j - 1];
                if y == x {
                } else {
                    let k = choose|k: int| 0 <= k < t.len() && t[k] == y;
                    assert(s[k + 1] == y);
                }
            } else {
                assert(r[i] == insert_newest_first(t, x)[i - 1]);
                assert(r[j] == insert_newest_first(t, x)[j - 1]);
            }
        }
    } else if s.len() > 0 {
        let r = seq![x] + s;
        assert forall|i: int, j: int| 0 <= i < j < r.len() implies r[i].created_at >= r[j].created_at by {
            if i == 0 {
                assert(r[j] == s[j - 1]);
                assert(s[0].created_at >= s[j - 1].created_at || j - 1 == 0);
            } else {
                assert(r[i] == s[i - 1] && r[j] == s[j - 1]);
            }
        }
    }
}

proof fn lemma_insert_members(s: Seq<EventRecord>, x: EventRecord)
    ensures
        forall|i: int|
            0 <= i < insert_newest_first(s, x).len() ==> #[trigger] insert_newest_first(s, x)[i] == x
                || exists|k: int| 0 <= k < s.len() && s[k] == insert_newest_first(s, x)[i],
    decreases s.len(),
{
    if s.len() > 0 && s[0].created_at >= x.created_at {
        let t = s.drop_first();
        lemma_insert_members(t, x);
        let r = insert_newest_first(s, x);
        assert forall|i: int| 0 <= i < r.len() implies #[trigger] r[i] == x || exists|k: int|
            0 <= k < s.len() && s[k] == r[i] by {
            if i == 0 {
                assert(s[0] == r[0]);
            } else {
                let m = insert_newest_first(t, x);
                assert(r[i] == m[i - 1]);
                if m[i - 1] != x {
                    let k = choose|k: int| 0 <= k < t.len() && t[k] == m[i - 1];
                    assert(s[k + 1] == r[i]);
                }
            }
        }
    } else if s.len() > 0 {
        let r = insert_newest_first(s, x);
        assert forall|i: int| 0 <= i < r.len() implies #[trigger] r[i] == x || exists|k: int|
            0 <= k < s.len() && s[k] == r[i] by {
            if i > 0 {
                assert(r[i] == s[i - 1]);
            }
        }
    }
}

/// The newest-first ordering is ordered newest first and keeps the length.
pub proof fn lemma_newest_first_sorted(s: Seq<EventRecord>)
    ensures
        created_non_increasing(newest_first(s)),
        newest_first(s).len() == s.len(),
    decreases s.len(),
{
    if s.len() > 0 {
        lemma_newest_first_sorted(s.drop_last());
        lemma_insert_sorted(newest_first(s.drop_last()), s.last());
    }
}

/// The invariant without the per-agent bound.
pub open spec fn rows_ordered(rows: Seq<EventRecord>, next_id: i64) -> bool {
    &&& next_id >= 1
    &&& ordered_by(rows, row_order_fn())
    &&& forall|i: int| 0 <= i < rows.len() ==> 1 <= #[trigger] rows[i].id < next_id
    &&& forall|i: int| 0 <= i < rows.len() ==> #[trigger] rows[i].event_seq >= 1
}

proof fn lemma_push_ordered(old_rows: Seq<EventRecord>, old_next: i64, new_rec: EventRecord)
    requires
        rows_ordered(old_rows, old_next),
        old_next < i64::MAX,
        new_rec.id == old_next,
        new_rec.event_seq >= 1,
        forall|i: int|
            0 <= i < old_rows.len() && old_rows[i].agent_id == new_rec.agent_id
                ==> #[trigger] old_rows[i].event_seq < new_rec.event_seq,
    ensures
        rows_ordered(old_rows.push(new_rec), (old_next + 1) as i64),
{
    let pushed = old_rows.push(new_rec);
    let next = (old_next + 1) as i64;
    assert forall|i: int, j: int| 0 <= i < j < pushed.len() implies (row_order_fn())(
        #[trigger] pushed[i],
        #[trigger] pushed[j],
    ) by {
        if j < old_rows.len() {
            assert((row_order_fn())(old_rows[i], old_rows[j]));
        } else {
            assert(pushed[i] == old_rows[i]);
            assert(1 <= old_rows[i].id < old_next);
        }
    }
    assert forall|i: int| 0 <= i < pushed.len() implies 1 <= #[trigger] pushed[i].id < next by {
        if i < old_rows.len() {
            assert(pushed[i] == old_rows[i]);
        }
    }
    assert forall|i: int| 0 <= i < pushed.len() implies #[trigger] pushed[i].event_seq >= 1 by {
        if i < old_rows.len() {
            assert(pushed[i] == old_rows[i]);
        }
    }
}

proof fn lemma_remove_ordered(rows: Seq<EventRecord>, next: i64, k: int)
    requires
        rows_ordered(rows, next),
        0 <= k < rows.len(),
    ensures
        rows_ordered(rows.remove(k), next),
{
    let r = rows.remove(k);
    assert forall|i: int, j: int| 0 <= i < j < r.len() implies (row_order_fn())(
        #[trigger] r[i],
        #[trigger] r[j],
    ) by {
        let i2 = if i < k { i } else { i + 1 };
        let j2 = if j < k { j } else { j + 1 };
        assert(r[i] == rows[i2] && r[j] == rows[j2]);
        assert((row_order_fn())(rows[i2], rows[j2]));
    }
    assert forall|i: int| 0 <= i < r.len() implies 1 <= #[trigger] r[i].id < next by {
        let i2 = if i < k { i } else { i + 1 };
        assert(r[i] == rows[i2]);
    }
    assert forall|i: int| 0 <= i < r.len() implies #[trigger] r[i].event_seq >= 1 by {
        let i2 = if i < k { i } else { i + 1 };
        assert(r[i] == rows[i2]);
    }
}

proof fn lemma_push_counts(old_rows: Seq<EventRecord>, new_rec: EventRecord)
    requires
        forall|a: Seq<char>| #[trigger] agent_count(old_rows, a) <= MAX_EVENTS_PER_AGENT,
    ensures
        forall|b: Seq<char>|
            b != new_rec.agent_id ==> #[trigger] agent_count(old_rows.push(new_rec), b)
                <= MAX_EVENTS_PER_AGENT,
        agent_count(old_rows.push(new_rec), new_rec.agent_id) <= MAX_EVENTS_PER_AGENT + 1,
{
    let pushed = old_rows.push(new_rec);
    assert forall|b: Seq<char>| b != new_rec.agent_id implies #[trigger] agent_count(pushed, b)
        <= MAX_EVENTS_PER_AGENT by {
        lemma_count_push(old_rows, new_rec, agent_pred(b));
        assert(agent_count(old_rows, b) <= MAX_EVENTS_PER_AGENT);
    }
    lemma_count_push(old_rows, new_rec, agent_pred(new_rec.agent_id));
    assert(agent_count(old_rows, new_rec.agent_id) <= MAX_EVENTS_PER_AGENT);
}

proof fn lemma_remove_counts(rows: Seq<EventRecord>, k: int, a: Seq<char>)
    requires
        0 <= k < rows.len(),
        rows[k].agent_id == a,
        forall|b: Seq<char>| b != a ==> #[trigger] agent_count(rows, b) <= MAX_EVENTS_PER_AGENT,
        agent_count(rows, a) <= MAX_EVENTS_PER_AGENT + 1,
    ensures
        forall|b: Seq<char>| #[trigger] agent_count(rows.remove(k), b) <= MAX_EVENTS_PER_AGENT,
{
    assert forall|b: Seq<char>| #[trigger] agent_count(rows.remove(k), b) <= MAX_EVENTS_PER_AGENT by {
        lemma_count_remove(rows, k, agent_pred(b));
        if b != a {
            assert(agent_count(rows, b) <= MAX_EVENTS_PER_AGENT);
        }
    }
}

/// The oldest event of an agent that has one is that agent's, and no earlier one is.
pub proof fn lemma_first_of_agent(rows: Seq<EventRecord>, a: Seq<char>, w: int)
    requires
        0 <= w < rows.len(),
        rows[w].agent_id == a,
    ensures
        0 <= first_of_agent(rows, a) < rows.len(),
        rows[first_of_agent(rows, a)].agent_id == a,
        forall|j: int| 0 <= j < first_of_agent(rows, a) ==> rows[j].agent_id != a,
{
    reveal(first_of_agent);
    lemma_first_exists(rows, a, w);
}

proof fn lemma_first_exists(rows: Seq<EventRecord>, a: Seq<char>, w: int)
    requires
        0 <= w < rows.len(),
        rows[w].agent_id == a,
    ensures
        exists|k: int|
            0 <= k < rows.len() && rows[k].agent_id == a && forall|j: int|
                0 <= j < k ==> rows[j].agent_id != a,
    decreases w,
{
    if exists|j: int| 0 <= j < w && rows[j].agent_id == a {
        let j = choose|j: int| 0 <= j < w && rows[j].agent_id == a;
        lemma_first_exists(rows, a, j);
    } else {
        assert(forall|j: int| 0 <= j < w ==> rows[j].agent_id != a);
    }
}

/// Enqueueing keeps the invariant.
#[verifier::spinoff_prover]
pub proof fn lemma_enqueue_wf(
    old_rows: Seq<EventRecord>,
    old_next: i64,
    a: Seq<char>,
    t: Seq<char>,
    p: Seq<char>,
    now: i64,
)
    requires
        rows_wf(old_rows, old_next),
        old_next < i64::MAX,
        max_seq(old_rows, a) < i64::MAX,
        0 <= now <= MAX_CLOCK_MILLIS,
    ensures
        rows_wf(enqueued(old_rows, old_next, a, t, p, now), (old_next + 1) as i64),
{
    lemma_max_seq_bound(old_rows, a);
    let new_rec = new_record(old_next, a, t, p, (max_seq(old_rows, a) + 1) as i64, now);
    let pushed = old_rows.push(new_rec);
    let next = (old_next + 1) as i64;
    assert(rows_ordered(old_rows, old_next));
    assert forall|i: int|
        0 <= i < old_rows.len() && old_rows[i].agent_id == new_rec.agent_id implies #[trigger] old_rows[i].event_seq
            < new_rec.event_seq by {
        assert(old_rows[i].event_seq <= max_seq(old_rows, a));
    }
    lemma_push_ordered(old_rows, old_next, new_rec);
    lemma_push_counts(old_rows, new_rec);
    let e = enqueued(old_rows, old_next, a, t, p, now);
    if agent_count(pushed, a) > MAX_EVENTS_PER_AGENT {
        assert(pushed[pushed.len() - 1].agent_id == a);
        let k = first_of_agent(pushed, a);
        lemma_first_of_agent(pushed, a, pushed.len() - 1);
        assert(e == pushed.remove(k));
        lemma_remove_ordered(pushed, next, k);
        lemma_remove_counts(pushed, k, a);
        assert(rows_ordered(e, next));
    } else {
        assert(e == pushed);
        assert forall|b: Seq<char>| #[trigger] agent_count(e, b) <= MAX_EVENTS_PER_AGENT by {
            if b != a {
                assert(agent_count(pushed, b) <= MAX_EVENTS_PER_AGENT);
            }
        }
    }
}

// ───────────────────────── operations ─────────────────────────

impl EventQueue {
    proof fn lemma_rows_index(&self, i: int)
        requires
            0 <= i < self.rows@.len(),
        ensures
            self.rows()[i] == self.rows@[i].view(),
            self.rows().len() == self.rows@.len(),
    {
    }

    fn max_seq_exec(&self, agent_id: &str) -> (m: i64)
        ensures
            m == max_seq(self.rows(), agent_id@),
    {
        let mut m: i64 = 0;
        let mut i: usize = 0;
        while i < self.rows.len()
            invariant
                0 <= i <= self.rows@.len(),
                self.rows().len() == self.rows@.len(),
                m == max_seq(self.rows().take(i as int), agent_id@),
            decreases self.rows@.len() - i,
        {
            proof {
                self.lemma_rows_index(i as int);
                assert(self.rows().take(i + 1).drop_last() =~= self.rows().take(i as int));
            }
            let e = &self.rows[i];
            if str_eq(e.agent_id.as_str(), agent_id) && e.event_seq > m {
                m = e.event_seq;
            }
            i = i + 1;
        }
        proof {
            lemma_take_full(self.rows());
        }
        m
    }

    fn count_agent_exec(&self, agent_id: &str) -> (c: usize)
        ensures
            c == agent_count(self.rows(), agent_id@),
    {
        let ghost q = agent_pred(agent_id@);
        let mut c: usize = 0;
        let mut i: usize = 0;
        while i < self.rows.len()
            invariant
                0 <= i <= self.rows@.len(),
                self.rows().len() == self.rows@.len(),
                q == agent_pred(agent_id@),
                c == count(self.rows().take(i as int), q),
                c <= i,
            decreases self.rows@.len() - i,
        {
            proof {
                self.lemma_rows_index(i as int);
                lemma_keep_take_step(self.rows(), i as int, q);
            }
            let e = &self.rows[i];
            if str_eq(e.agent_id.as_str(), agent_id) {
                c = c + 1;
            }
            i = i + 1;
        }
        proof {
            lemma_take_full(self.rows());
        }
        c
    }

    fn first_of_agent_exec(&self, agent_id: &str) -> (k: usize)
        requires
            exists|j: int| 0 <= j < self.rows().len() && self.rows()[j].agent_id == agent_id@,
        ensures
            k == first_of_agent(self.rows(), agent_id@),
            k < self.rows().len(),
    {
        let mut i: usize = 0;
        while i < self.rows.len()
            invariant
                0 <= i <= self.rows@.len(),
                self.rows().len() == self.rows@.len(),
                forall|j: int| 0 <= j < i ==> self.rows()[j].agent_id != agent_id@,
            decreases self.rows@.len() - i,
        {
            proof {
                self.lemma_rows_index(i as int);
            }
            if str_eq(self.rows[i].agent_id.as_str(), agent_id) {
                proof {
                    let rows = self.rows();
                    let a = agent_id@;
                    let kk = first_of_agent(rows, a);
                    lemma_first_of_agent(rows, a, i as int);
                    if kk < i {
                        assert(rows[kk].agent_id != a);
                    }
                    if kk > i {
                        assert(rows[i as int].agent_id != a);
                    }
                }
                return i;
            }
            i = i + 1;
        }
        proof {
            let j = choose|j: int| 0 <= j < self.rows().len() && self.rows()[j].agent_id == agent_id@;
            assert(self.rows()[j].agent_id != agent_id@);
        }
        0
    }

    /// Enqueues an event for `agent_id` at time `now` and returns its event
    /// number: one more than the agent's largest stored event number, or 1.
    /// Only the newest `MAX_EVENTS_PER_AGENT` events of the agent are kept.
    /// Fails, changing nothing, only when ids or the agent's event numbers are
    /// exhausted.
    pub fn enqueue_at(&mut self, agent_id: &str, event_type: &str, payload: &str, now: i64) -> (r:
        Result<i64, GaggleError>)
        requires
            old(self).wf(),
            0 <= now <= MAX_CLOCK_MILLIS,
        ensures
            final(self).wf(),
            r is Ok <==> (old(self).next_id() < i64::MAX && max_seq(old(self).rows(), agent_id@)
                < i64::MAX),
            r matches Ok(seq) ==> {
                &&& seq == next_seq_for(old(self).rows(), agent_id@)
                &&& final(self).rows() == enqueued(
                    old(self).rows(),
                    old(self).next_id(),
                    agent_id@,
                    event_type@,
                    payload@,
                    now,
                )
                &&& final(self).next_id() == old(self).next_id() + 1
            },
            r matches Err(e) ==> {
                &&& e is DatabaseError
                &&& final(self).rows() == old(self).rows()
                &&& final(self).next_id() == old(self).next_id()
            },
    {
        let ghost old_rows = self.rows();
        let ghost a = agent_id@;
        let m = self.max_seq_exec(agent_id);
        if self.next_id == i64::MAX || m == i64::MAX {
            return Err(GaggleError::DatabaseError(String::from_str("database or disk is full")));
        }
        proof {
            lemma_max_seq_bound(old_rows, a);
            lemma_rows_bounded(old_rows, self.next_id);
        }
        let seq = m + 1;
        let e = StoredEvent {
            id: self.next_id,
            agent_id: String::from_str(agent_id),
            event_type: String::from_str(event_type),
            payload: String::from_str(payload),
            event_seq: seq,
            created_at: now,
            delivered_at: None,
            retry_count: 0,
            next_retry_at: Some(now + backoff_ms(0)),
            last_attempt_at: None,
            is_dead_letter: false,
        };
        let ghost new_rec = e.view();
        self.rows.push(e);
        let ghost old_next = self.next_id;
        self.next_id = self.next_id + 1;
        let ghost pushed = old_rows.push(new_rec);
        proof {
            assert(self.rows() =~= pushed);
            assert(new_rec == new_record(old_next, a, event_type@, payload@, seq, now));
            lemma_enqueue_wf(old_rows, old_next, a, event_type@, payload@, now);
        }
        let c = self.count_agent_exec(agent_id);
        if c > MAX_EVENTS_PER_AGENT {
            proof {
                assert(pushed[pushed.len() - 1].agent_id == a);
            }
            let k = self.first_of_agent_exec(agent_id);
            self.rows.remove(k);
            proof {
                assert(self.rows() =~= pushed.remove(k as int));
            }
        }
        Ok(seq)
    }

    /// Enqueues an event for `agent_id` at the current time; see `enqueue_at`.
    pub fn enqueue(&mut self, agent_id: &str, event_type: &str, payload: &str) -> (r: Result<
        i64,
        GaggleError,
    >)
        requires
            old(self).wf(),
        ensures
            final(self).wf(),
            r is Ok <==> (old(self).next_id() < i64::MAX && max_seq(old(self).rows(), agent_id@)
                < i64::MAX),
            r matches Ok(seq) ==> {
                &&& seq == next_seq_for(old(self).rows(), agent_id@)
                &&& final(self).next_id() == old(self).next_id() + 1
                &&& exists|now: i64|
                    0 <= now <= MAX_CLOCK_MILLIS && final(self).rows() == enqueued(
                        old(self).rows(),
                        old(self).next_id(),
                        agent_id@,
                        event_type@,
                        payload@,
                        now,
                    )
            },
            r is Err ==> final(self).rows() == old(self).rows() && final(self).next_id() == old(
                self,
            ).next_id(),
    {
        let now = now_millis();
        self.enqueue_at(agent_id, event_type, payload, now)
    }

    /// The undelivered, live events of `agent_id` numbered above `after_seq`,
    /// in increasing event-number order, at most `DELIVER_BATCH_SIZE` of them.
    pub fn get_pending(&self, agent_id: &str, after_seq: i64) -> (r: Result<
        Vec<QueuedEvent>,
        GaggleError,
    >)
        requires
            self.wf(),
        ensures
            r matches Ok(v) && queued_list(v@, pending_batch(self.rows(), agent_id@, after_seq)),
            seq_increasing(pending_batch(self.rows(), agent_id@, after_seq)),
    {
        let ghost p = pending_pred(agent_id@, after_seq);
        let ghost rows = self.rows();
        let mut out: Vec<QueuedEvent> = Vec::new();
        let mut i: usize = 0;
        while i < self.rows.len() && out.len() < DELIVER_BATCH_SIZE
            invariant
                0 <= i <= self.rows@.len(),
                rows == self.rows(),
                rows.len() == self.rows@.len(),
                p == pending_pred(agent_id@, after_seq),
                queued_list(out@, keep(rows.take(i as int), p)),
                out.len() <= DELIVER_BATCH_SIZE,
            decreases self.rows@.len() - i,
        {
            proof {
                self.lemma_rows_index(i as int);
                lemma_keep_take_step(rows, i as int, p);
            }
            let e = &self.rows[i];
            if str_eq(e.agent_id.as_str(), agent_id) && e.event_seq > after_seq
                && e.delivered_at.is_none() && !e.is_dead_letter {
                out.push(e.to_queued());
            }
            i = i + 1;
        }
        proof {
            lemma_pending_sorted(rows, self.next_id, agent_id@, after_seq);
            lemma_keep_prefix(rows, i as int, rows.len() as int, p);
            lemma_take_full(rows);
        }
        Ok(out)
    }
}


impl EventQueue {
    /// Deletes every stored event that `del` selects; `del` decides as `p` does.
    fn delete_where<F: Fn(&StoredEvent) -> bool>(
        &mut self,
        del: F,
        Ghost(p): Ghost<spec_fn(EventRecord) -> bool>,
    ) -> (n: usize)
        requires
            old(self).wf(),
            forall|e: &StoredEvent| #[trigger] del.requires((e,)),
            forall|e: &StoredEvent, b: bool| del.ensures((e,), b) ==> b == p(e.view()),
        ensures
            final(self).wf(),
            final(self).rows() == keep(old(self).rows(), not_pred(p)),
            n == count(old(self).rows(), p),
            final(self).next_id() == old(self).next_id(),
    {
        let ghost rows = self.rows();
        let ghost q = not_pred(p);
        let mut kept: Vec<StoredEvent> = Vec::new();
        let mut n: usize = 0;
        let mut i: usize = 0;
        while i < self.rows.len()
            invariant
                0 <= i <= self.rows@.len(),
                rows == self.rows(),
                rows.len() == self.rows@.len(),
                q == not_pred(p),
                forall|e: &StoredEvent| #[trigger] del.requires((e,)),
                forall|e: &StoredEvent, b: bool| del.ensures((e,), b) ==> b == p(e.view()),
                kept@.map_values(|e: StoredEvent| e.view()) == keep(rows.take(i as int), q),
                n == count(rows.take(i as int), p),
                n <= i,
            decreases self.rows@.len() - i,
        {
            proof {
                self.lemma_rows_index(i as int);
                lemma_keep_take_step(rows, i as int, q);
                lemma_keep_take_step(rows, i as int, p);
            }
            let e = &self.rows[i];
            if del(e) {
                n = n + 1;
            } else {
                let ghost before = kept@;
                kept.push(e.duplicate());
                proof {
                    assert(kept@.map_values(|e: StoredEvent| e.view()) =~= before.map_values(
                        |e: StoredEvent| e.view(),
                    ).push(rows[i as int]));
                }
            }
            i = i + 1;
        }
        proof {
            lemma_take_full(rows);
            lemma_wf_keep(rows, self.next_id, q);
        }
        self.rows = kept;
        n
    }

    /// Rewrites every stored event that `upd` selects; `upd` rewrites as `f`
    /// does and selects as `p` does, and `f` leaves unselected events alone.
    fn update_where<F: Fn(&StoredEvent) -> Option<StoredEvent>>(
        &mut self,
        upd: F,
        Ghost(f): Ghost<spec_fn(EventRecord) -> EventRecord>,
        Ghost(p): Ghost<spec_fn(EventRecord) -> bool>,
    ) -> (n: usize)
        requires
            old(self).wf(),
            forall|e: &StoredEvent| #[trigger] upd.requires((e,)),
            forall|e: &StoredEvent, r: Option<StoredEvent>|
                upd.ensures((e,), r) ==> (r is Some <==> p(e.view())) && match r {
                    Some(x) => x.view() == f(e.view()),
                    None => f(e.view()) == e.view(),
                },
            forall|x: EventRecord|
                #![trigger f(x)]
                f(x).id == x.id && f(x).agent_id == x.agent_id && f(x).event_seq == x.event_seq,
        ensures
            final(self).wf(),
            final(self).rows() == old(self).rows().map_values(f),
            n == count(old(self).rows(), p),
            final(self).next_id() == old(self).next_id(),
    {
        let ghost rows = self.rows();
        let n_rows = self.rows.len();
        let mut n: usize = 0;
        let mut i: usize = 0;
        while i < n_rows
            invariant
                0 <= i <= n_rows,
                n_rows == self.rows@.len(),
                rows.len() == n_rows,
                self.next_id == old(self).next_id,
                rows == old(self).rows(),
                forall|e: &StoredEvent| #[trigger] upd.requires((e,)),
                forall|e: &StoredEvent, r: Option<StoredEvent>|
                    upd.ensures((e,), r) ==> (r is Some <==> p(e.view())) && match r {
                        Some(x) => x.view() == f(e.view()),
                        None => f(e.view()) == e.view(),
                    },
                forall|j: int| 0 <= j < i ==> #[trigger] self.rows@[j].view() == f(rows[j]),
                forall|j: int| i <= j < n_rows ==> #[trigger] self.rows@[j].view() == rows[j],
                n == count(rows.take(i as int), p),
                n <= i,
            decreases n_rows - i,
        {
            proof {
                lemma_keep_take_step(rows, i as int, p);
            }
            let r = upd(&self.rows[i]);
            match r {
                Some(x) => {
                    self.rows.set(i, x);
                    n = n + 1;
                },
                None => {},
            }
            i = i + 1;
        }
        proof {
            lemma_take_full(rows);
            assert(self.rows() =~= rows.map_values(f));
            lemma_wf_pointwise(rows, rows.map_values(f), self.next_id);
        }
        n
    }
}


fn slice_contains_i64(s: &[i64], x: i64) -> (r: bool)
    ensures
        r == s@.contains(x),
{
    let mut i: usize = 0;
    while i < s.len()
        invariant
            0 <= i <= s@.len(),
            forall|j: int| 0 <= j < i ==> s@[j] != x,
        decreases s@.len() - i,
    {
        if s[i] == x {
            return true;
        }
        i = i + 1;
    }
    false
}

fn contains_str(known: &[String], x: &str) -> (r: bool)
    ensures
        r == known@.map_values(|k: String| k@).contains(x@),
{
    let ghost ks = known@.map_values(|k: String| k@);
    let mut i: usize = 0;
    while i < known.len()
        invariant
            0 <= i <= known@.len(),
            ks == known@.map_values(|k: String| k@),
            forall|j: int| 0 <= j < i ==> ks[j] != x@,
        decreases known@.len() - i,
    {
        if str_eq(known[i].as_str(), x) {
            assert(ks[i as int] == x@);
            return true;
        }
        i = i + 1;
    }
    false
}

fn cutoff_exec(now: i64, days: i64) -> (c: i64)
    requires
        0 <= now <= MAX_CLOCK_MILLIS,
        -MAX_CLEANUP_DAYS <= days <= MAX_CLEANUP_DAYS,
    ensures
        c == cutoff(now, days),
{
    assert(-8_640_000_000_000_000_000 <= days * DAY_MILLIS <= 8_640_000_000_000_000_000) by (nonlinear_arith)
        requires
            -MAX_CLEANUP_DAYS <= days <= MAX_CLEANUP_DAYS,
    ;
    now - days * DAY_MILLIS
}

impl EventQueue {
    /// Marks the events of `agent_id` whose numbers are listed as delivered at `now`.
    pub fn mark_delivered_at(&mut self, agent_id: &str, seqs: &[i64], now: i64) -> (r: Result<
        (),
        GaggleError,
    >)
        requires
            old(self).wf(),
        ensures
            final(self).wf(),
            r is Ok,
            final(self).rows() == mark_delivered_rows(old(self).rows(), agent_id@, seqs@, now),
            final(self).next_id() == old(self).next_id(),
    {
        let ghost a = agent_id@;
        let ghost f = |r: EventRecord|
            if r.agent_id == a && seqs@.contains(r.event_seq) {
                delivered(r, now)
            } else {
                r
            };
        let ghost p = |r: EventRecord| r.agent_id == a && seqs@.contains(r.event_seq);
        if seqs.len() == 0 {
            proof {
                assert(self.rows().map_values(f) =~= self.rows());
            }
            return Ok(());
        }
        let upd = |e: &StoredEvent| -> (r: Option<StoredEvent>)
            ensures
                (r is Some <==> p(e.view())) && match r {
                    Some(x) => x.view() == f(e.view()),
                    None => f(e.view()) == e.view(),
                },
            {
                if str_eq(e.agent_id.as_str(), agent_id) && slice_contains_i64(seqs, e.event_seq) {
                    let mut x = e.duplicate();
                    x.delivered_at = Some(now);
                    x.next_retry_at = None;
                    Some(x)
                } else {
                    None
                }
            };
        self.update_where(upd, Ghost(f), Ghost(p));
        Ok(())
    }

    /// Marks the listed events of `agent_id` as delivered now; see `mark_delivered_at`.
    pub fn mark_delivered(&mut self, agent_id: &str, seqs: &[i64]) -> (r: Result<(), GaggleError>)
        requires
            old(self).wf(),
        ensures
            final(self).wf(),
            r is Ok,
            exists|now: i64|
                0 <= now <= MAX_CLOCK_MILLIS && final(self).rows() == mark_delivered_rows(
                    old(self).rows(),
                    agent_id@,
                    seqs@,
                    now,
                ),
            final(self).next_id() == old(self).next_id(),
    {
        let now = now_millis();
        self.mark_delivered_at(agent_id, seqs, now)
    }

    /// Cumulative acknowledgement: marks every undelivered event of `agent_id`
    /// numbered at most `up_to_seq` as delivered at `now`, and returns how many
    /// it marked.
    pub fn mark_delivered_up_to_at(&mut self, agent_id: &str, up_to_seq: i64, now: i64) -> (r:
        Result<usize, GaggleError>)
        requires
            old(self).wf(),
        ensures
            final(self).wf(),
            r matches Ok(n) && n == count(old(self).rows(), acked_pred(agent_id@, up_to_seq)),
            final(self).rows() == ack_rows(old(self).rows(), agent_id@, up_to_seq, now),
            final(self).next_id() == old(self).next_id(),
    {
        let ghost a = agent_id@;
        let ghost f = |r: EventRecord| if acked_by(r, a, up_to_seq) { delivered(r, now) } else { r };
        let ghost p = acked_pred(a, up_to_seq);
        let upd = |e: &StoredEvent| -> (r: Option<StoredEvent>)
            ensures
                (r is Some <==> p(e.view())) && match r {
                    Some(x) => x.view() == f(e.view()),
                    None => f(e.view()) == e.view(),
                },
            {
                if str_eq(e.agent_id.as_str(), agent_id) && e.event_seq <= up_to_seq
                    && e.delivered_at.is_none() {
                    let mut x = e.duplicate();
                    x.delivered_at = Some(now);
                    x.next_retry_at = None;
                    Some(x)
                } else {
                    None
                }
            };
        let n = self.update_where(upd, Ghost(f), Ghost(p));
        Ok(n)
    }

    /// Cumulative acknowledgement at the current time; see `mark_delivered_up_to_at`.
    pub fn mark_delivered_up_to(&mut self, agent_id: &str, up_to_seq: i64) -> (r: Result<
        usize,
        GaggleError,
    >)
        requires
            old(self).wf(),
        ensures
            final(self).wf(),
            r matches Ok(n) && n == count(old(self).rows(), acked_pred(agent_id@, up_to_seq)),
            exists|now: i64|
                0 <= now <= MAX_CLOCK_MILLIS && final(self).rows() == ack_rows(
                    old(self).rows(),
                    agent_id@,
                    up_to_seq,
                    now,
                ),
            final(self).next_id() == old(self).next_id(),
    {
        let now = now_millis();
        self.mark_delivered_up_to_at(agent_id, up_to_seq, now)
    }

    fn retry_count_exec(&self, event_id: i64) -> (rc: u32)
        requires
            self.wf(),
        ensures
            rc == retry_count_of(self.rows(), event_id),
    {
        let mut i: usize = 0;
        while i < self.rows.len()
            invariant
                self.wf(),
                0 <= i <= self.rows@.len(),
                self.rows().len() == self.rows@.len(),
                forall|j: int| 0 <= j < i ==> self.rows()[j].id != event_id,
            decreases self.rows@.len() - i,
        {
            proof {
                self.lemma_rows_index(i as int);
            }
            if self.rows[i].id == event_id {
                proof {
                    let rows = self.rows();
                    assert(rows[i as int].id == event_id);
                    let k = choose|k: int| 0 <= k < rows.len() && rows[k].id == event_id;
                    if k < i {
                        assert((row_order_fn())(rows[k], rows[i as int]));
                    } else if k > i {
                        assert((row_order_fn())(rows[i as int], rows[k]));
                    }
                }
                return self.rows[i].retry_count;
            }
            i = i + 1;
        }
        0
    }

    /// Records a failed delivery attempt of event `event_id` at `now`. The
    /// attempt count grows by one; at `MAX_RETRIES` the event becomes a dead
    /// letter and `false` is returned, otherwise the next retry is scheduled
    /// after the matching backoff and `true` is returned.
    pub fn mark_retry_attempt_at(&mut self, event_id: i64, now: i64) -> (r: Result<bool, GaggleError>)
        requires
            old(self).wf(),
            0 <= now <= MAX_CLOCK_MILLIS,
            retry_count_of(old(self).rows(), event_id) < u32::MAX,
        ensures
            final(self).wf(),
            r matches Ok(alive) && alive == (retry_count_of(old(self).rows(), event_id) + 1
                < MAX_RETRIES),
            final(self).rows() == retry_rows(old(self).rows(), event_id, now),
            final(self).next_id() == old(self).next_id(),
    {
        let rc = self.retry_count_exec(event_id);
        let n = rc + 1;
        let ghost f = |r: EventRecord| if r.id == event_id { attempted(r, n, now) } else { r };
        let ghost p = |r: EventRecord| r.id == event_id;
        let upd = |e: &StoredEvent| -> (r: Option<StoredEvent>)
            ensures
                (r is Some <==> p(e.view())) && match r {
                    Some(x) => x.view() == f(e.view()),
                    None => f(e.view()) == e.view(),
                },
            {
                if e.id == event_id {
                    let mut x = e.duplicate();
                    x.retry_count = n;
                    x.last_attempt_at = Some(now);
                    if n >= MAX_RETRIES {
                        x.is_dead_letter = true;
                        x.next_retry_at = None;
                    } else {
                        x.next_retry_at = Some(now + backoff_ms(n));
                    }
                    Some(x)
                } else {
                    None
                }
            };
        self.update_where(upd, Ghost(f), Ghost(p));
        Ok(n < MAX_RETRIES)
    }

    /// Records a failed delivery attempt now; see `mark_retry_attempt_at`.
    pub fn mark_retry_attempt(&mut self, event_id: i64) -> (r: Result<bool, GaggleError>)
        requires
            old(self).wf(),
            retry_count_of(old(self).rows(), event_id) < u32::MAX,
        ensures
            final(self).wf(),
            r matches Ok(alive) && alive == (retry_count_of(old(self).rows(), event_id) + 1
                < MAX_RETRIES),
            exists|now: i64|
                0 <= now <= MAX_CLOCK_MILLIS && final(self).rows() == retry_rows(
                    old(self).rows(),
                    event_id,
                    now,
                ),
            final(self).next_id() == old(self).next_id(),
    {
        let now = now_millis();
        self.mark_retry_attempt_at(event_id, now)
    }

    /// After an online delivery, an undelivered event `event_id` waits a fresh
    /// first backoff from `now` before its next retry.
    pub fn reset_retry_timer_at(&mut self, event_id: i64, now: i64) -> (r: Result<(), GaggleError>)
        requires
            old(self).wf(),
            0 <= now <= MAX_CLOCK_MILLIS,
        ensures
            final(self).wf(),
            r is Ok,
            final(self).rows() == reset_rows(old(self).rows(), event_id, now),
            final(self).next_id() == old(self).next_id(),
    {
        let ghost f = |r: EventRecord|
            if r.id == event_id && r.delivered_at is None {
                EventRecord { next_retry_at: Some((now + retry_backoff_ms(0)) as i64), ..r }
            } else {
                r
            };
        let ghost p = |r: EventRecord| r.id == event_id && r.delivered_at is None;
        let upd = |e: &StoredEvent| -> (r: Option<StoredEvent>)
            ensures
                (r is Some <==> p(e.view())) && match r {
                    Some(x) => x.view() == f(e.view()),
                    None => f(e.view()) == e.view(),
                },
            {
                if e.id == event_id && e.delivered_at.is_none() {
                    let mut x = e.duplicate();
                    x.next_retry_at = Some(now + backoff_ms(0));
                    Some(x)
                } else {
                    None
                }
            };
        self.update_where(upd, Ghost(f), Ghost(p));
        Ok(())
    }

    /// Resets the retry timer of `event_id` now; see `reset_retry_timer_at`.
    pub fn reset_retry_timer(&mut self, event_id: i64) -> (r: Result<(), GaggleError>)
        requires
            old(self).wf(),
        ensures
            final(self).wf(),
            r is Ok,
            exists|now: i64|
                0 <= now <= MAX_CLOCK_MILLIS && final(self).rows() == reset_rows(
                    old(self).rows(),
                    event_id,
                    now,
                ),
            final(self).next_id() == old(self).next_id(),
    {
        let now = now_millis();
        self.reset_retry_timer_at(event_id, now)
    }

    /// The queue's statistics.
    pub fn get_stats(&self) -> (r: Result<QueueStats, GaggleError>)
        requires
            self.wf(),
        ensures
            r matches Ok(st) && st == stats_of(self.rows()),
    {
        let ghost rows = self.rows();
        let ghost p1 = |r: EventRecord| stat_pending(r);
        let ghost p2 = |r: EventRecord| stat_retry_pending(r);
        let ghost p3 = |r: EventRecord| stat_dead(r);
        let ghost p4 = |r: EventRecord| stat_delivered(r);
        proof {
            lemma_rows_bounded(rows, self.next_id);
        }
        let mut c1: i64 = 0;
        let mut c2: i64 = 0;
        let mut c3: i64 = 0;
        let mut c4: i64 = 0;
        let mut i: usize = 0;
        while i < self.rows.len()
            invariant
                0 <= i <= self.rows@.len(),
                rows == self.rows(),
                rows.len() == self.rows@.len(),
                rows.len() < self.next_id,
                p1 == (|r: EventRecord| stat_pending(r)),
                p2 == (|r: EventRecord| stat_retry_pending(r)),
                p3 == (|r: EventRecord| stat_dead(r)),
                p4 == (|r: EventRecord| stat_delivered(r)),
                c1 == count(rows.take(i as int), p1),
                c2 == count(rows.take(i as int), p2),
                c3 == count(rows.take(i as int), p3),
                c4 == count(rows.take(i as int), p4),
                c1 <= i && c2 <= i && c3 <= i && c4 <= i,
            decreases self.rows@.len() - i,
        {
            proof {
                self.lemma_rows_index(i as int);
                lemma_keep_take_step(rows, i as int, p1);
                lemma_keep_take_step(rows, i as int, p2);
                lemma_keep_take_step(rows, i as int, p3);
                lemma_keep_take_step(rows, i as int, p4);
            }
            let e = &self.rows[i];
            if e.delivered_at.is_none() && !e.is_dead_letter && e.next_retry_at.is_none() {
                c1 = c1 + 1;
            }
            if e.delivered_at.is_none() && !e.is_dead_letter && e.next_retry_at.is_some() {
                c2 = c2 + 1;
            }
            if e.is_dead_letter {
                c3 = c3 + 1;
            }
            if e.delivered_at.is_some() {
                c4 = c4 + 1;
            }
            i = i + 1;
        }
        proof {
            lemma_take_full(rows);
        }
        Ok(
            QueueStats {
                pending_count: c1,
                retry_pending_count: c2,
                dead_letter_count: c3,
                delivered_count: c4,
            },
        )
    }

    /// Deletes events delivered more than `days` days before `now`; returns how many.
    pub fn cleanup_delivered_at(&mut self, days: i64, now: i64) -> (r: Result<usize, GaggleError>)
        requires
            old(self).wf(),
            0 <= now <= MAX_CLOCK_MILLIS,
            -MAX_CLEANUP_DAYS <= days <= MAX_CLEANUP_DAYS,
        ensures
            final(self).wf(),
            r matches Ok(n) && n == count(
                old(self).rows(),
                delivered_before_pred(cutoff(now, days)),
            ),
            final(self).rows() == keep(
                old(self).rows(),
                not_pred(delivered_before_pred(cutoff(now, days))),
            ),
            final(self).next_id() == old(self).next_id(),
    {
        let c = cutoff_exec(now, days);
        let ghost p = delivered_before_pred(c as int);
        let del = |e: &StoredEvent| -> (b: bool)
            ensures
                b == p(e.view()),
            {
                match e.delivered_at {
                    Some(t) => t < c,
                    None => false,
                }
            };
        let n = self.delete_where(del, Ghost(p));
        Ok(n)
    }

    /// Deletes events delivered more than `days` days ago; see `cleanup_delivered_at`.
    pub fn cleanup_delivered(&mut self, days: i64) -> (r: Result<usize, GaggleError>)
        requires
            old(self).wf(),
            -MAX_CLEANUP_DAYS <= days <= MAX_CLEANUP_DAYS,
        ensures
            final(self).wf(),
            exists|now: i64|
                0 <= now <= MAX_CLOCK_MILLIS && (r matches Ok(n) && n == count(
                    old(self).rows(),
                    delivered_before_pred(cutoff(now, days)),
                )) && final(self).rows() == keep(
                    old(self).rows(),
                    not_pred(delivered_before_pred(cutoff(now, days))),
                ),
            final(self).next_id() == old(self).next_id(),
    {
        let now = now_millis();
        self.cleanup_delivered_at(days, now)
    }

    /// Brings every undelivered dead letter of `agent_id` back to life at
    /// `now` (attempts reset, first backoff scheduled), then returns the
    /// agent's pending events as `get_pending(agent_id, 0)` does.
    pub fn recover_dead_letters_at(&mut self, agent_id: &str, now: i64) -> (r: Result<
        Vec<QueuedEvent>,
        GaggleError,
    >)
        requires
            old(self).wf(),
            0 <= now <= MAX_CLOCK_MILLIS,
        ensures
            final(self).wf(),
            final(self).rows() == recover_rows(old(self).rows(), agent_id@, now),
            r matches Ok(v) && queued_list(v@, pending_batch(final(self).rows(), agent_id@, 0)),
            final(self).next_id() == old(self).next_id(),
    {
        let ghost a = agent_id@;
        let ghost f = |r: EventRecord|
            if r.agent_id == a && r.is_dead_letter && r.delivered_at is None {
                revived(r, now)
            } else {
                r
            };
        let ghost p = |r: EventRecord| r.agent_id == a && r.is_dead_letter && r.delivered_at is None;
        let upd = |e: &StoredEvent| -> (r: Option<StoredEvent>)
            ensures
                (r is Some <==> p(e.view())) && match r {
                    Some(x) => x.view() == f(e.view()),
                    None => f(e.view()) == e.view(),
                },
            {
                if str_eq(e.agent_id.as_str(), agent_id) && e.is_dead_letter
                    && e.delivered_at.is_none() {
                    let mut x = e.duplicate();
                    x.is_dead_letter = false;
                    x.retry_count = 0;
                    x.next_retry_at = Some(now + backoff_ms(0));
                    Some(x)
                } else {
                    None
                }
            };
        self.update_where(upd, Ghost(f), Ghost(p));
        self.get_pending(agent_id, 0)
    }

    /// Recovers the dead letters of `agent_id` now; see `recover_dead_letters_at`.
    pub fn recover_dead_letters(&mut self, agent_id: &str) -> (r: Result<
        Vec<QueuedEvent>,
        GaggleError,
    >)
        requires
            old(self).wf(),
        ensures
            final(self).wf(),
            exists|now: i64|
                0 <= now <= MAX_CLOCK_MILLIS && final(self).rows() == recover_rows(
                    old(self).rows(),
                    agent_id@,
                    now,
                ),
            r matches Ok(v) && queued_list(v@, pending_batch(final(self).rows(), agent_id@, 0)),
            final(self).next_id() == old(self).next_id(),
    {
        let now = now_millis();
        self.recover_dead_letters_at(agent_id, now)
    }

    /// Revives the dead letter `event_id` at `now`; returns whether there was one.
    pub fn retry_dead_letter_at(&mut self, event_id: i64, now: i64) -> (r: Result<bool, GaggleError>)
        requires
            old(self).wf(),
            0 <= now <= MAX_CLOCK_MILLIS,
        ensures
            final(self).wf(),
            r matches Ok(b) && b == exists|k: int|
                0 <= k < old(self).rows().len() && old(self).rows()[k].id == event_id && old(
                    self,
                ).rows()[k].is_dead_letter,
            final(self).rows() == retry_dead_rows(old(self).rows(), event_id, now),
            final(self).next_id() == old(self).next_id(),
    {
        let ghost f = |r: EventRecord| if r.id == event_id && r.is_dead_letter { revived(r, now) } else { r };
        let ghost p = |r: EventRecord| r.id == event_id && r.is_dead_letter;
        let ghost rows = self.rows();
        let upd = |e: &StoredEvent| -> (r: Option<StoredEvent>)
            ensures
                (r is Some <==> p(e.view())) && match r {
                    Some(x) => x.view() == f(e.view()),
                    None => f(e.view()) == e.view(),
                },
            {
                if e.id == event_id && e.is_dead_letter {
                    let mut x = e.duplicate();
                    x.is_dead_letter = false;
                    x.retry_count = 0;
                    x.next_retry_at = Some(now + backoff_ms(0));
                    Some(x)
                } else {
                    None
                }
            };
        let n = self.update_where(upd, Ghost(f), Ghost(p));
        proof {
            if exists|k: int| 0 <= k < rows.len() && rows[k].id == event_id && rows[k].is_dead_letter {
                let k = choose|k: int| 0 <= k < rows.len() && rows[k].id == event_id && rows[k].is_dead_letter;
                lemma_keep_some(rows, p, k);
            } else {
                lemma_keep_none(rows, p);
            }
        }
        Ok(n > 0)
    }

    /// Revives the dead letter `event_id` now; see `retry_dead_letter_at`.
    pub fn retry_dead_letter(&mut self, event_id: i64) -> (r: Result<bool, GaggleError>)
        requires
            old(self).wf(),
        ensures
            final(self).wf(),
            r matches Ok(b) && b == exists|k: int|
                0 <= k < old(self).rows().len() && old(self).rows()[k].id == event_id && old(
                    self,
                ).rows()[k].is_dead_letter,
            exists|now: i64|
                0 <= now <= MAX_CLOCK_MILLIS && final(self).rows() == retry_dead_rows(
                    old(self).rows(),
                    event_id,
                    now,
                ),
            final(self).next_id() == old(self).next_id(),
    {
        let now = now_millis();
        self.retry_dead_letter_at(event_id, now)
    }

    /// Deletes the undelivered events of agents that are no longer known
    /// (not among `known_agents`); returns how many.
    pub fn cleanup_orphan_events(&mut self, known_agents: &[String]) -> (r: Result<
        usize,
        GaggleError,
    >)
        requires
            old(self).wf(),
        ensures
            final(self).wf(),
            r matches Ok(n) && n == count(
                old(self).rows(),
                orphaned_pred(known_agents@.map_values(|k: String| k@)),
            ),
            final(self).rows() == keep(
                old(self).rows(),
                not_pred(orphaned_pred(known_agents@.map_values(|k: String| k@))),
            ),
            final(self).next_id() == old(self).next_id(),
    {
        let ghost p = orphaned_pred(known_agents@.map_values(|k: String| k@));
        let del = |e: &StoredEvent| -> (b: bool)
            ensures
                b == p(e.view()),
            { e.delivered_at.is_none() && !contains_str(known_agents, e.agent_id.as_str()) };
        let n = self.delete_where(del, Ghost(p));
        Ok(n)
    }

    /// Deletes undelivered, live, never-retried events created more than
    /// `days` days before `now`; returns how many.
    pub fn cleanup_stale_pending_at(&mut self, days: i64, now: i64) -> (r: Result<
        usize,
        GaggleError,
    >)
        requires
            old(self).wf(),
            0 <= now <= MAX_CLOCK_MILLIS,
            -MAX_CLEANUP_DAYS <= days <= MAX_CLEANUP_DAYS,
        ensures
            final(self).wf(),
            r matches Ok(n) && n == count(old(self).rows(), stale_before_pred(cutoff(now, days))),
            final(self).rows() == keep(
                old(self).rows(),
                not_pred(stale_before_pred(cutoff(now, days))),
            ),
            final(self).next_id() == old(self).next_id(),
    {
        let c = cutoff_exec(now, days);
        let ghost p = stale_before_pred(c as int);
        let del = |e: &StoredEvent| -> (b: bool)
            ensures
                b == p(e.view()),
            {
                e.delivered_at.is_none() && !e.is_dead_letter && e.created_at < c && e.retry_count
                    == 0
            };
        let n = self.delete_where(del, Ghost(p));
        Ok(n)
    }

    /// Deletes stale pending events now; see `cleanup_stale_pending_at`.
    pub fn cleanup_stale_pending(&mut self, days: i64) -> (r: Result<usize, GaggleError>)
        requires
            old(self).wf(),
            -MAX_CLEANUP_DAYS <= days <= MAX_CLEANUP_DAYS,
        ensures
            final(self).wf(),
            exists|now: i64|
                0 <= now <= MAX_CLOCK_MILLIS && (r matches Ok(n) && n == count(
                    old(self).rows(),
                    stale_before_pred(cutoff(now, days)),
                )) && final(self).rows() == keep(
                    old(self).rows(),
                    not_pred(stale_before_pred(cutoff(now, days))),
                ),
            final(self).next_id() == old(self).next_id(),
    {
        let now = now_millis();
        self.cleanup_stale_pending_at(days, now)
    }

    /// Deletes undelivered dead letters last attempted more than `days` days
    /// before `now`; returns how many.
    pub fn cleanup_dead_letters_at(&mut self, days: i64, now: i64) -> (r: Result<
        usize,
        GaggleError,
    >)
        requires
            old(self).wf(),
            0 <= now <= MAX_CLOCK_MILLIS,
            -MAX_CLEANUP_DAYS <= days <= MAX_CLEANUP_DAYS,
        ensures
            final(self).wf(),
            r matches Ok(n) && n == count(old(self).rows(), dead_before_pred(cutoff(now, days))),
            final(self).rows() == keep(
                old(self).rows(),
                not_pred(dead_before_pred(cutoff(now, days))),
            ),
            final(self).next_id() == old(self).next_id(),
    {
        let c = cutoff_exec(now, days);
        let ghost p = dead_before_pred(c as int);
        let del = |e: &StoredEvent| -> (b: bool)
            ensures
                b == p(e.view()),
            {
                e.is_dead_letter && e.delivered_at.is_none() && match e.last_attempt_at {
                    Some(t) => t < c,
                    None => false,
                }
            };
        let n = self.delete_where(del, Ghost(p));
        Ok(n)
    }

    /// Deletes old dead letters now; see `cleanup_dead_letters_at`.
    pub fn cleanup_dead_letters(&mut self, days: i64) -> (r: Result<usize, GaggleError>)
        requires
            old(self).wf(),
            -MAX_CLEANUP_DAYS <= days <= MAX_CLEANUP_DAYS,
        ensures
            final(self).wf(),
            exists|now: i64|
                0 <= now <= MAX_CLOCK_MILLIS && (r matches Ok(n) && n == count(
                    old(self).rows(),
                    dead_before_pred(cutoff(now, days)),
                )) && final(self).rows() == keep(
                    old(self).rows(),
                    not_pred(dead_before_pred(cutoff(now, days))),
                ),
            final(self).next_id() == old(self).next_id(),
    {
        let now = now_millis();
        self.cleanup_dead_letters_at(days, now)
    }
}


impl EventQueue {
    /// The dead letters (of `agent_id`, if given), newest first, at most `limit`.
    pub fn list_dead_letters(&self, agent_id: Option<&str>, limit: u32) -> (r: Result<
        Vec<QueuedEvent>,
        GaggleError,
    >)
        requires
            self.wf(),
        ensures
            r matches Ok(v) && queued_list(
                v@,
                dead_listing(
                    self.rows(),
                    match agent_id {
                        Some(a) => Some(a@),
                        None => None,
                    },
                    limit,
                ),
            ),
            created_non_increasing(
                dead_listing(
                    self.rows(),
                    match agent_id {
                        Some(a) => Some(a@),
                        None => None,
                    },
                    limit,
                ),
            ),
    {
        let ghost a = match agent_id {
            Some(a) => Some(a@),
            None => None,
        };
        let ghost p = listed_dead_pred(a);
        let ghost rows = self.rows();
        let mut out: Vec<QueuedEvent> = Vec::new();
        let mut i: usize = 0;
        while i < self.rows.len()
            invariant
                0 <= i <= self.rows@.len(),
                rows == self.rows(),
                rows.len() == self.rows@.len(),
                p == listed_dead_pred(a),
                a == match agent_id {
                    Some(x) => Some(x@),
                    None => None::<Seq<char>>,
                },
                queued_list(out@, newest_first(keep(rows.take(i as int), p))),
            decreases self.rows@.len() - i,
        {
            proof {
                self.lemma_rows_index(i as int);
                lemma_keep_take_step(rows, i as int, p);
            }
            let e = &self.rows[i];
            let matches_agent = match agent_id {
                Some(x) => str_eq(e.agent_id.as_str(), x),
                None => true,
            };
            if e.is_dead_letter && matches_agent {
                let ghost sorted = newest_first(keep(rows.take(i as int), p));
                let ghost x = rows[i as int];
                let mut j: usize = 0;
                while j < out.len() && out[j].created_at >= e.created_at
                    invariant
                        0 <= j <= out@.len(),
                        queued_list(out@, sorted),
                        x.created_at == e.created_at,
                        forall|k: int| 0 <= k < j ==> sorted[k].created_at >= x.created_at,
                    decreases out@.len() - j,
                {
                    j = j + 1;
                }
                proof {
                    lemma_insert_at(sorted, x, j as int);
                    assert(keep(rows.take(i + 1), p) == keep(rows.take(i as int), p).push(x));
                    assert(keep(rows.take(i + 1), p).drop_last() =~= keep(rows.take(i as int), p));
                }
                let ghost before = out@;
                out.insert(j, e.to_queued());
                proof {
                    let t = sorted.insert(j as int, x);
                    assert forall|k: int| 0 <= k < out@.len() implies queued_is(#[trigger] out@[k], t[k]) by {
                        if k < j {
                            assert(out@[k] == before[k] && t[k] == sorted[k]);
                        } else if k > j {
                            assert(out@[k] == before[k - 1] && t[k] == sorted[k - 1]);
                        }
                    }
                }
            }
            i = i + 1;
        }
        proof {
            lemma_take_full(rows);
            lemma_newest_first_sorted(keep(rows, p));
        }
        let ghost all = out@;
        out.truncate(limit as usize);
        proof {
            let full = newest_first(keep(rows, p));
            if full.len() > limit {
                assert forall|k: int| 0 <= k < out@.len() implies queued_is(#[trigger] out@[k], full.take(limit as int)[k]) by {
                    assert(out@[k] == all[k]);
                }
            }
        }
        Ok(out)
    }
}


// ───────────────────────── retry scheduling ─────────────────────────

/// An undelivered, live event whose retry is due at `now`.
pub open spec fn is_due(r: EventRecord, now: i64) -> bool {
    r.delivered_at is None && !r.is_dead_letter && match r.next_retry_at {
        Some(t) => t <= now,
        None => false,
    }
}

pub open spec fn due_pred(now: i64) -> spec_fn(EventRecord) -> bool {
    |r: EventRecord| is_due(r, now)
}

/// Ordered by agent id, then by event number.
pub open spec fn key_lt(x: EventRecord, y: EventRecord) -> bool {
    str_lt(x.agent_id, y.agent_id) || (x.agent_id == y.agent_id && x.event_seq < y.event_seq)
}

/// Inserts `x` before the first element that sorts after it.
pub open spec fn insert_by_key(s: Seq<EventRecord>, x: EventRecord) -> Seq<EventRecord>
    decreases s.len(),
{
    if s.len() == 0 {
        seq![x]
    } else if key_lt(x, s[0]) {
        seq![x] + s
    } else {
        seq![s[0]] + insert_by_key(s.drop_first(), x)
    }
}

/// `s` ordered by agent id, then event number.
pub open spec fn by_agent_then_seq(s: Seq<EventRecord>) -> Seq<EventRecord>
    decreases s.len(),
{
    if s.len() == 0 {
        Seq::empty()
    } else {
        insert_by_key(by_agent_then_seq(s.drop_last()), s.last())
    }
}

/// Splits `s` into maximal runs of events of the same agent.
pub open spec fn group_runs(s: Seq<EventRecord>) -> Seq<(Seq<char>, Seq<EventRecord>)>
    decreases s.len(),
{
    if s.len() == 0 {
        Seq::empty()
    } else {
        let g = group_runs(s.drop_last());
        let x = s.last();
        if g.len() > 0 && g.last().0 == x.agent_id {
            g.update(g.len() - 1, (x.agent_id, g.last().1.push(x)))
        } else {
            g.push((x.agent_id, seq![x]))
        }
    }
}

/// What `get_retry_pending` hands out at `now`: the due events ordered by
/// agent id and event number, at most `RETRY_BATCH_SIZE` of them, grouped by agent.
pub open spec fn retry_schedule(rows: Seq<EventRecord>, now: i64) -> Seq<
    (Seq<char>, Seq<EventRecord>),
> {
    let all = by_agent_then_seq(keep(rows, due_pred(now)));
    group_runs(if all.len() <= RETRY_BATCH_SIZE { all } else { all.take(RETRY_BATCH_SIZE as int) })
}

/// Whether the handed-out groups show exactly `g`.
pub open spec fn groups_match(out: Seq<(String, Vec<QueuedEvent>)>, g: Seq<(Seq<char>, Seq<EventRecord>)>) -> bool {
    &&& out.len() == g.len()
    &&& forall|i: int| 0 <= i < out.len() ==> (#[trigger] out[i]).0@ == g[i].0 && queued_list(out[i].1@, g[i].1)
}

proof fn lemma_insert_by_key_at(s: Seq<EventRecord>, x: EventRecord, j: int)
    requires
        0 <= j <= s.len(),
        forall|k: int| 0 <= k < j ==> !key_lt(x, s[k]),
        j < s.len() ==> key_lt(x, s[j]),
    ensures
        insert_by_key(s, x) == s.insert(j, x),
    decreases s.len(),
{
    if s.len() == 0 {
        assert(s.insert(j, x) =~= seq![x]);
    } else if j == 0 {
        assert(s.insert(0, x) =~= seq![x] + s);
    } else {
        let t = s.drop_first();
        assert forall|k: int| 0 <= k < j - 1 implies !key_lt(x, t[k]) by {
            assert(t[k] == s[k + 1]);
        }
        if j < s.len() {
            assert(t[j - 1] == s[j]);
        }
        lemma_insert_by_key_at(t, x, j - 1);
        assert(s.insert(j, x) =~= seq![s[0]] + t.insert(j - 1, x));
    }
}

fn key_lt_exec(x: &QueuedEvent, y: &QueuedEvent) -> (r: bool)
    ensures
        r == (str_lt(x.agent_id@, y.agent_id@) || (x.agent_id@ == y.agent_id@ && x.event_seq
            < y.event_seq)),
{
    if str_lt_exec(x.agent_id.as_str(), y.agent_id.as_str()) {
        true
    } else {
        str_eq(x.agent_id.as_str(), y.agent_id.as_str()) && x.event_seq < y.event_seq
    }
}

fn duplicate_queued(q: &QueuedEvent) -> (r: QueuedEvent)
    ensures
        forall|x: EventRecord| queued_is(*q, x) ==> queued_is(r, x),
{
    QueuedEvent {
        id: q.id,
        agent_id: q.agent_id.clone(),
        event_type: q.event_type.clone(),
        payload: q.payload.clone(),
        event_seq: q.event_seq,
        created_at: q.created_at,
        retry_count: q.retry_count,
        next_retry_at: q.next_retry_at,
        is_dead_letter: q.is_dead_letter,
    }
}

impl EventQueue {
    /// The events whose retry is due at `now`, ordered by agent id and event
    /// number, at most `RETRY_BATCH_SIZE` of them, grouped by agent.
    pub fn get_retry_pending_at(&self, now: i64) -> (r: Result<
        Vec<(String, Vec<QueuedEvent>)>,
        GaggleError,
    >)
        requires
            self.wf(),
        ensures
            r matches Ok(v) && groups_match(v@, retry_schedule(self.rows(), now)),
    {
        let ghost p = due_pred(now);
        let ghost rows = self.rows();
        let mut sorted: Vec<QueuedEvent> = Vec::new();
        let mut i: usize = 0;
        while i < self.rows.len()
            invariant
                0 <= i <= self.rows@.len(),
                rows == self.rows(),
                rows.len() == self.rows@.len(),
                p == due_pred(now),
                queued_list(sorted@, by_agent_then_seq(keep(rows.take(i as int), p))),
            decreases self.rows@.len() - i,
        {
            proof {
                self.lemma_rows_index(i as int);
                lemma_keep_take_step(rows, i as int, p);
            }
            let e = &self.rows[i];
            let due = e.delivered_at.is_none() && !e.is_dead_letter && match e.next_retry_at {
                Some(t) => t <= now,
                None => false,
            };
            if due {
                let ghost before_s = by_agent_then_seq(keep(rows.take(i as int), p));
                let ghost x = rows[i as int];
                let q = e.to_queued();
                let mut j: usize = 0;
                while j < sorted.len() && !key_lt_exec(&q, &sorted[j])
                    invariant
                        0 <= j <= sorted@.len(),
                        queued_list(sorted@, before_s),
                        queued_is(q, x),
                        forall|k: int| 0 <= k < j ==> !key_lt(x, before_s[k]),
                    decreases sorted@.len() - j,
                {
                    j = j + 1;
                }
                proof {
                    lemma_insert_by_key_at(before_s, x, j as int);
                    assert(keep(rows.take(i + 1), p).drop_last() =~= keep(rows.take(i as int), p));
                }
                let ghost before = sorted@;
                sorted.insert(j, q);
                proof {
                    let t = before_s.insert(j as int, x);
                    assert forall|k: int| 0 <= k < sorted@.len() implies queued_is(#[trigger] sorted@[k], t[k]) by {
                        if k < j {
                            assert(sorted@[k] == before[k] && t[k] == before_s[k]);
                        } else if k > j {
                            assert(sorted@[k] == before[k - 1] && t[k] == before_s[k - 1]);
                        }
                    }
                }
            }
            i = i + 1;
        }
        proof {
            lemma_take_full(rows);
        }
        let ghost full = by_agent_then_seq(keep(rows, p));
        let ghost all = sorted@;
        sorted.truncate(RETRY_BATCH_SIZE);
        let ghost batch = if full.len() <= RETRY_BATCH_SIZE { full } else { full.take(RETRY_BATCH_SIZE as int) };
        proof {
            assert forall|k: int| 0 <= k < sorted@.len() implies queued_is(#[trigger] sorted@[k], batch[k]) by {
                assert(sorted@[k] == all[k]);
            }
        }
        let mut grouped: Vec<(String, Vec<QueuedEvent>)> = Vec::new();
        let mut k: usize = 0;
        while k < sorted.len()
            invariant
                0 <= k <= sorted@.len(),
                queued_list(sorted@, batch),
                groups_match(grouped@, group_runs(batch.take(k as int))),
            decreases sorted@.len() - k,
        {
            let ghost g = group_runs(batch.take(k as int));
            let ghost x = batch[k as int];
            proof {
                assert(batch.take(k + 1).drop_last() =~= batch.take(k as int));
                assert(batch.take(k + 1).last() == x);
            }
            let q = duplicate_queued(&sorted[k]);
            let n = grouped.len();
            let same = n > 0 && str_eq(grouped[n - 1].0.as_str(), q.agent_id.as_str());
            if same {
                let ghost before = grouped@;
                let (name, mut evs) = grouped.pop().unwrap();
                let ghost old_evs = evs@;
                evs.push(q);
                grouped.push((name, evs));
                proof {
                    let ng = g.update(g.len() - 1, (x.agent_id, g.last().1.push(x)));
                    assert(group_runs(batch.take(k + 1)) == ng);
                    assert forall|m: int| 0 <= m < grouped@.len() implies (#[trigger] grouped@[m]).0@
                        == ng[m].0 && queued_list(grouped@[m].1@, ng[m].1) by {
                        if m < n - 1 {
                            assert(grouped@[m] == before[m]);
                        } else {
                            assert(queued_list(old_evs, g.last().1));
                            assert forall|z: int| 0 <= z < grouped@[m].1@.len() implies queued_is(
                                #[trigger] grouped@[m].1@[z],
                                ng[m].1[z],
                            ) by {
                                if z < old_evs.len() {
                                    assert(grouped@[m].1@[z] == old_evs[z]);
                                }
                            }
                        }
                    }
                }
            } else {
                let ghost before = grouped@;
                let mut evs: Vec<QueuedEvent> = Vec::new();
                let name = q.agent_id.clone();
                evs.push(q);
                grouped.push((name, evs));
                proof {
                    let ng = g.push((x.agent_id, seq![x]));
                    assert(group_runs(batch.take(k + 1)) == ng);
                    assert forall|m: int| 0 <= m < grouped@.len() implies (#[trigger] grouped@[m]).0@
                        == ng[m].0 && queued_list(grouped@[m].1@, ng[m].1) by {
                        if m < n {
                            assert(grouped@[m] == before[m]);
                        }
                    }
                }
            }
            k = k + 1;
        }
        proof {
            lemma_take_full(batch);
        }
        Ok(grouped)
    }

    /// The events whose retry is due now; see `get_retry_pending_at`.
    pub fn get_retry_pending(&self) -> (r: Result<Vec<(String, Vec<QueuedEvent>)>, GaggleError>)
        requires
            self.wf(),
        ensures
            r is Ok,
            exists|now: i64|
                0 <= now <= MAX_CLOCK_MILLIS && groups_match(
                    r->Ok_0@,
                    #[trigger] retry_schedule(self.rows(), now),
                ),
    {
        let now = now_millis();
        self.get_retry_pending_at(now)
    }
}

} // verus!
