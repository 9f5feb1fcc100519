//! Properties of the event queue that span several operations.

use vstd::prelude::*;
use crate::api::event_queue::{
    ack_rows, acked_by, acked_pred, agent_pred, attempted, delivered, enqueued, first_of_agent,
    is_pending_for, lemma_first_of_agent, lemma_max_seq_bound, max_seq, next_seq_for,
    pending_of, recover_rows, retry_rows, rows_wf, row_order_fn, EventRecord,
    MAX_EVENTS_PER_AGENT, MAX_RETRIES, new_record, agent_count, retry_count_of, cutoff, not_pred,
    delivered_before_pred, stale_before_pred, dead_before_pred,
};
use crate::seqs::{count, keep, lemma_keep_membership, lemma_keep_none, lemma_keep_origin};

verus! {

/// `max_seq` is the largest event number of the agent, or 0 when it has none.
proof fn lemma_max_seq_attained(rows: Seq<EventRecord>, a: Seq<char>)
    ensures
        max_seq(rows, a) == 0 || exists|k: int|
            0 <= k < rows.len() && rows[k].agent_id == a && rows[k].event_seq == max_seq(rows, a),
    decreases rows.len(),
{
    if rows.len() > 0 {
        lemma_max_seq_attained(rows.drop_last(), a);
        if max_seq(rows, a) != max_seq(rows.drop_last(), a) {
            assert(rows[rows.len() - 1].agent_id == a);
        } else if max_seq(rows, a) != 0 {
            let k = choose|k: int|
                0 <= k < rows.drop_last().len() && rows.drop_last()[k].agent_id == a
                    && rows.drop_last()[k].event_seq == max_seq(rows.drop_last(), a);
            assert(rows[k] == rows.drop_last()[k]);
        }
    }
}

/// Any number that bounds the agent's events and is attained (or 0 with no
/// events) is `max_seq`.
proof fn lemma_max_seq_unique(rows: Seq<EventRecord>, a: Seq<char>, m: i64)
    requires
        forall|i: int| 0 <= i < rows.len() && rows[i].agent_id == a ==> rows[i].event_seq <= m,
        (m == 0 && forall|i: int| 0 <= i < rows.len() ==> rows[i].agent_id != a) || exists|k: int|
            0 <= k < rows.len() && rows[k].agent_id == a && rows[k].event_seq == m,
        forall|i: int| 0 <= i < rows.len() ==> rows[i].event_seq >= 1,
    ensures
        max_seq(rows, a) == m,
{
    lemma_max_seq_bound(rows, a);
    lemma_max_seq_attained(rows, a);
    if m == 0 && forall|i: int| 0 <= i < rows.len() ==> rows[i].agent_id != a {
        if max_seq(rows, a) != 0 {
            let k = choose|k: int|
                0 <= k < rows.len() && rows[k].agent_id == a && rows[k].event_seq == max_seq(rows, a);
            assert(rows[k].agent_id != a);
        }
    } else {
        let k = choose|k: int| 0 <= k < rows.len() && rows[k].agent_id == a && rows[k].event_seq == m;
        assert(rows[k].event_seq <= max_seq(rows, a));
        if max_seq(rows, a) != 0 {
            let j = choose|j: int|
                0 <= j < rows.len() && rows[j].agent_id == a && rows[j].event_seq == max_seq(rows, a);
            assert(rows[j].event_seq <= m);
        }
    }
}

/// Event numbering: after an event for agent `a` is enqueued, the next event
/// of `a` gets the following number, and every other agent's next number is
/// unchanged. Numbers therefore run 1, 2, 3, ... per agent, independently.
pub proof fn law_event_numbers_are_consecutive_per_agent(
    rows: Seq<EventRecord>,
    next_id: i64,
    a: Seq<char>,
    b: Seq<char>,
    t: Seq<char>,
    p: Seq<char>,
    now: i64,
)
    requires
        rows_wf(rows, next_id),
        max_seq(rows, a) < i64::MAX,
    ensures
        next_seq_for(enqueued(rows, next_id, a, t, p, now), a) == next_seq_for(rows, a) + 1,
        b != a ==> next_seq_for(enqueued(rows, next_id, a, t, p, now), b) == next_seq_for(rows, b),
{
    lemma_max_seq_bound(rows, a);
    lemma_max_seq_bound(rows, b);
    lemma_max_seq_attained(rows, b);
    let m = (max_seq(rows, a) + 1) as i64;
    let rec = new_record(next_id, a, t, p, m, now);
    let pushed = rows.push(rec);
    let e = enqueued(rows, next_id, a, t, p, now);
    assert forall|i: int| 0 <= i < pushed.len() implies #[trigger] pushed[i].event_seq >= 1 by {
        if i < rows.len() {
            assert(pushed[i] == rows[i]);
        }
    }
    // every row of `e` is a row of `pushed`, and the rows of other agents are all kept
    if agent_count(pushed, a) > MAX_EVENTS_PER_AGENT {
        lemma_first_of_agent(pushed, a, pushed.len() - 1);
        let k = first_of_agent(pushed, a);
        assert(e == pushed.remove(k));
        // the removed row is not the new one: `a` has an older row
        assert(k < pushed.len() - 1) by {
            if k == pushed.len() - 1 {
                assert forall|j: int| 0 <= j < rows.len() implies rows[j].agent_id != a by {
                    assert(pushed[j] == rows[j]);
                }
                lemma_keep_none(rows, agent_pred(a));
                crate::seqs::lemma_count_push(rows, rec, agent_pred(a));
            }
        }
        assert(e[e.len() - 1] == rec);
        assert forall|i: int| 0 <= i < e.len() && e[i].agent_id == a implies e[i].event_seq <= m by {
            let i2 = if i < k { i } else { i + 1 };
            assert(e[i] == pushed[i2]);
        }
        assert forall|i: int| 0 <= i < e.len() implies e[i].event_seq >= 1 by {
            let i2 = if i < k { i } else { i + 1 };
            assert(e[i] == pushed[i2]);
        }
        lemma_max_seq_unique(e, a, m);
        if b != a {
            assert forall|i: int| 0 <= i < e.len() && e[i].agent_id == b implies e[i].event_seq
                <= max_seq(rows, b) by {
                let i2 = if i < k { i } else { i + 1 };
                assert(e[i] == pushed[i2]);
            }
            if max_seq(rows, b) != 0 {
                let j = choose|j: int|
                    0 <= j < rows.len() && rows[j].agent_id == b && rows[j].event_seq == max_seq(rows, b);
                let j2 = if j < k { j } else { j - 1 };
                assert(pushed[j] == rows[j]);
                assert(j != k);
                assert(e[j2] == pushed[j]);
            } else {
                assert forall|i: int| 0 <= i < e.len() implies e[i].agent_id != b by {
                    let i2 = if i < k { i } else { i + 1 };
                    assert(e[i] == pushed[i2]);
                    if i2 < rows.len() {
                        assert(pushed[i2] == rows[i2]);
                        if rows[i2].agent_id == b {
                            assert(rows[i2].event_seq <= 0);
                        }
                    }
                }
            }
            lemma_max_seq_unique(e, b, max_seq(rows, b));
        }
    } else {
        assert(e == pushed);
        assert forall|i: int| 0 <= i < e.len() && e[i].agent_id == a implies e[i].event_seq <= m by {
            if i < rows.len() {
                assert(e[i] == rows[i]);
            }
        }
        assert(e[e.len() - 1] == rec);
        lemma_max_seq_unique(e, a, m);
        if b != a {
            assert forall|i: int| 0 <= i < e.len() && e[i].agent_id == b implies e[i].event_seq
                <= max_seq(rows, b) by {
                if i < rows.len() {
                    assert(e[i] == rows[i]);
                }
            }
            if max_seq(rows, b) != 0 {
                let j = choose|j: int|
                    0 <= j < rows.len() && rows[j].agent_id == b && rows[j].event_seq == max_seq(rows, b);
                assert(e[j] == rows[j]);
            } else {
                assert forall|i: int| 0 <= i < e.len() implies e[i].agent_id != b by {
                    if i < rows.len() {
                        assert(e[i] == rows[i]);
                        if rows[i].agent_id == b {
                            assert(rows[i].event_seq <= 0);
                        }
                    }
                }
            }
            lemma_max_seq_unique(e, b, max_seq(rows, b));
        }
    }
}

/// Cumulative acknowledgement: after acknowledging up to `n`, no event of
/// `a` numbered at most `n` is undelivered, so acknowledging again marks
/// nothing (the count is 0), and such events are never handed out as pending.
pub proof fn law_cumulative_ack(rows: Seq<EventRecord>, a: Seq<char>, n: i64, now: i64, after: i64)
    ensures
        forall|i: int|
            0 <= i < rows.len() && rows[i].agent_id == a && rows[i].event_seq <= n ==> (#[trigger] ack_rows(
                rows,
                a,
                n,
                now,
            )[i]).delivered_at is Some,
        count(ack_rows(rows, a, n, now), acked_pred(a, n)) == 0,
        forall|k: int|
            0 <= k < pending_of(ack_rows(rows, a, n, now), a, after).len() ==> #[trigger] pending_of(
                ack_rows(rows, a, n, now),
                a,
                after,
            )[k].event_seq > n,
{
    let r2 = ack_rows(rows, a, n, now);
    assert forall|i: int| 0 <= i < r2.len() implies !(acked_pred(a, n))(#[trigger] r2[i]) by {
        assert(r2[i] == (if acked_by(rows[i], a, n) { delivered(rows[i], now) } else { rows[i] }));
    }
    lemma_keep_none(r2, acked_pred(a, n));
    let pp = |r: EventRecord| is_pending_for(r, a, after);
    lemma_keep_origin(r2, crate::api::event_queue::pending_pred(a, after));
    let ps = pending_of(r2, a, after);
    assert forall|k: int| 0 <= k < ps.len() implies #[trigger] ps[k].event_seq > n by {
        let i = choose|i: int|
            0 <= i < r2.len() && ps[k] == r2[i] && (crate::api::event_queue::pending_pred(a, after))(r2[i]);
        assert(r2[i] == (if acked_by(rows[i], a, n) { delivered(rows[i], now) } else { rows[i] }));
    }
}

/// Retry accounting: a failed attempt adds one to the event's attempt count,
/// and the event becomes a dead letter exactly when the count reaches
/// `MAX_RETRIES` (or already was one); a dead letter is never pending.
pub proof fn law_retry_to_dead_letter(rows: Seq<EventRecord>, next_id: i64, id: i64, now: i64, k: int)
    requires
        rows_wf(rows, next_id),
        0 <= k < rows.len(),
        rows[k].id == id,
        rows[k].retry_count < u32::MAX,
    ensures
        retry_rows(rows, id, now)[k].retry_count == rows[k].retry_count + 1,
        retry_rows(rows, id, now)[k].is_dead_letter == (rows[k].is_dead_letter
            || rows[k].retry_count + 1 >= MAX_RETRIES),
        forall|a: Seq<char>, after: i64|
            retry_rows(rows, id, now)[k].is_dead_letter ==> !is_pending_for(
                #[trigger] retry_rows(rows, id, now)[k],
                a,
                after,
            ),
{
    assert(retry_count_of(rows, id) == rows[k].retry_count) by {
        let j = choose|j: int| 0 <= j < rows.len() && rows[j].id == id;
        if j < k {
            assert((row_order_fn())(rows[j], rows[k]));
        } else if j > k {
            assert((row_order_fn())(rows[k], rows[j]));
        }
    }
}

/// Events never silently disappear: after the dead letters of `a` are
/// recovered, every undelivered event of `a` is pending again (and none of
/// them is a dead letter).
pub proof fn law_recovery_makes_undelivered_pending(rows: Seq<EventRecord>, next_id: i64, a: Seq<char>, now: i64)
    requires
        rows_wf(rows, next_id),
    ensures
        forall|i: int|
            0 <= i < rows.len() && rows[i].agent_id == a && rows[i].delivered_at is None
                ==> is_pending_for(#[trigger] recover_rows(rows, a, now)[i], a, 0),
        recover_rows(rows, a, now).len() == rows.len(),
{
}

/// Delivery is permanent: no update of the queue clears a delivery mark.
pub proof fn law_delivery_is_permanent(rows: Seq<EventRecord>, a: Seq<char>, n: i64, id: i64, now: i64, i: int)
    requires
        0 <= i < rows.len(),
        rows[i].delivered_at is Some,
    ensures
        ack_rows(rows, a, n, now)[i].delivered_at is Some,
        retry_rows(rows, id, now)[i].delivered_at is Some,
        recover_rows(rows, a, now)[i].delivered_at is Some,
{
}


/// Retention windows count whole days of 86 400 000 ms back from `now`:
/// cleaning up delivered events with a window of `days` days keeps every
/// event delivered no more than `days * 86_400_000` ms before `now`, and
/// removes every event delivered earlier than that.
pub proof fn law_delivered_cleanup_window(rows: Seq<EventRecord>, days: i64, now: i64, i: int)
    requires
        0 <= i < rows.len(),
        rows[i].delivered_at is Some,
    ensures
        ({
            let kept = keep(rows, not_pred(delivered_before_pred(cutoff(now, days))));
            let t = rows[i].delivered_at->Some_0;
            &&& now - t <= days * 86_400_000 ==> kept.contains(rows[i])
            &&& now - t > days * 86_400_000 ==> !kept.contains(rows[i])
        }),
{
    lemma_keep_membership(rows, not_pred(delivered_before_pred(cutoff(now, days))), i);
}

/// The stale-pending window counts whole days too: an undelivered, live,
/// never retried event created no more than `days * 86_400_000` ms before
/// `now` survives the cleanup, and one created earlier is removed.
pub proof fn law_stale_cleanup_window(rows: Seq<EventRecord>, days: i64, now: i64, i: int)
    requires
        0 <= i < rows.len(),
        rows[i].delivered_at is None,
        !rows[i].is_dead_letter,
        rows[i].retry_count == 0,
    ensures
        ({
            let kept = keep(rows, not_pred(stale_before_pred(cutoff(now, days))));
            let t = rows[i].created_at;
            &&& now - t <= days * 86_400_000 ==> kept.contains(rows[i])
            &&& now - t > days * 86_400_000 ==> !kept.contains(rows[i])
        }),
{
    lemma_keep_membership(rows, not_pred(stale_before_pred(cutoff(now, days))), i);
}

/// The dead-letter window counts whole days too: an undelivered dead letter
/// last attempted no more than `days * 86_400_000` ms before `now` survives
/// the cleanup, and one last attempted earlier is removed.
pub proof fn law_dead_letter_cleanup_window(rows: Seq<EventRecord>, days: i64, now: i64, i: int)
    requires
        0 <= i < rows.len(),
        rows[i].is_dead_letter,
        rows[i].delivered_at is None,
        rows[i].last_attempt_at is Some,
    ensures
        ({
            let kept = keep(rows, not_pred(dead_before_pred(cutoff(now, days))));
            let t = rows[i].last_attempt_at->Some_0;
            &&& now - t <= days * 86_400_000 ==> kept.contains(rows[i])
            &&& now - t > days * 86_400_000 ==> !kept.contains(rows[i])
        }),
{
    lemma_keep_membership(rows, not_pred(dead_before_pred(cutoff(now, days))), i);
}

} // verus!
