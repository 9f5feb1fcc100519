//! The periodic work of the server: which due retries are redelivered and
//! which wait, and when old events are cleaned up.

use vstd::prelude::*;
use crate::api::event_queue::QueuedEvent;
use crate::text::str_eq;

verus! {

/// Whether agent `a` is among the online agents.
pub open spec fn is_online(online: Seq<String>, a: Seq<char>) -> bool {
    exists|j: int| 0 <= j < online.len() && online[j]@ == a
}

/// The due events of the groups whose agent is online (`want_online`) or
/// offline (otherwise), in order.
pub open spec fn due_events(groups: Seq<(String, Vec<QueuedEvent>)>, online: Seq<String>, want_online: bool) -> Seq<
    QueuedEvent,
>
    decreases groups.len(),
{
    if groups.len() == 0 {
        Seq::empty()
    } else {
        due_events(groups.drop_last(), online, want_online) + if is_online(online, groups.last().0@)
            == want_online {
            groups.last().1@
        } else {
            Seq::empty()
        }
    }
}

/// Two handed-out events that show the same event.
pub open spec fn same_event(a: QueuedEvent, b: QueuedEvent) -> bool {
    &&& a.id == b.id
    &&& a.agent_id@ == b.agent_id@
    &&& a.event_type@ == b.event_type@
    &&& a.payload@ == b.payload@
    &&& a.event_seq == b.event_seq
    &&& a.created_at == b.created_at
    &&& a.retry_count == b.retry_count
    &&& a.next_retry_at == b.next_retry_at
    &&& a.is_dead_letter == b.is_dead_letter
}

fn copy_event(e: &QueuedEvent) -> (r: QueuedEvent)
    ensures
        same_event(r, *e),
{
    QueuedEvent {
        id: e.id,
        agent_id: e.agent_id.clone(),
        event_type: e.event_type.clone(),
        payload: e.payload.clone(),
        event_seq: e.event_seq,
        created_at: e.created_at,
        retry_count: e.retry_count,
        next_retry_at: e.next_retry_at,
        is_dead_letter: e.is_dead_letter,
    }
}

/// What a retry round does: the events to redeliver (their agents are
/// online; each delivery counts as an attempt), and the events whose timer
/// is reset without counting an attempt (their agents are offline).
pub struct RetryPlan {
    pub redeliver: Vec<QueuedEvent>,
    pub reset: Vec<i64>,
}

/// The plan for the due retries `groups`, by agent, given the agents online.
pub fn plan_retries(groups: &Vec<(String, Vec<QueuedEvent>)>, online: &Vec<String>) -> (r: RetryPlan)
    ensures
        r.redeliver@.len() == due_events(groups@, online@, true).len(),
        forall|i: int|
            0 <= i < r.redeliver@.len() ==> same_event(#[trigger] r.redeliver@[i], due_events(groups@, online@, true)[i]),
        r.reset@ == due_events(groups@, online@, false).map_values(|e: QueuedEvent| e.id),
{
    let mut redeliver: Vec<QueuedEvent> = Vec::new();
    let mut reset: Vec<i64> = Vec::new();
    let mut g: usize = 0;
    while g < groups.len()
        invariant
            0 <= g <= groups@.len(),
            redeliver@.len() == due_events(groups@.take(g as int), online@, true).len(),
            forall|i: int|
                0 <= i < redeliver@.len() ==> same_event(
                    #[trigger] redeliver@[i],
                    due_events(groups@.take(g as int), online@, true)[i],
                ),
            reset@ == due_events(groups@.take(g as int), online@, false).map_values(|e: QueuedEvent| e.id),
        decreases groups@.len() - g,
    {
        let agent = &groups[g].0;
        let events = &groups[g].1;
        let mut up = false;
        let mut j: usize = 0;
        while j < online.len()
            invariant
                0 <= j <= online@.len(),
                g < groups@.len(),
                agent == &groups@[g as int].0,
                up == exists|q: int| 0 <= q < j && online@[q]@ == agent@,
            decreases online@.len() - j,
        {
            if str_eq(online[j].as_str(), agent.as_str()) {
                up = true;
            }
            j = j + 1;
        }
        proof {
            assert(groups@.take(g + 1).drop_last() =~= groups@.take(g as int));
            assert(groups@.take(g + 1).last() == groups@[g as int]);
        }
        let ghost before_r = redeliver@;
        let ghost before_s = reset@;
        let ghost evs = events@;
        let mut k: usize = 0;
        while k < events.len()
            invariant
                0 <= k <= events@.len(),
                evs == events@,
                up ==> redeliver@.len() == before_r.len() + k,
                up ==> forall|i: int| 0 <= i < before_r.len() ==> redeliver@[i] == before_r[i],
                up ==> forall|i: int| 0 <= i < k ==> same_event(#[trigger] redeliver@[before_r.len() + i], evs[i]),
                up ==> reset@ == before_s,
                !up ==> redeliver@ == before_r,
                !up ==> reset@ == before_s + evs.take(k as int).map_values(|e: QueuedEvent| e.id),
            decreases events@.len() - k,
        {
            if up {
                redeliver.push(copy_event(&events[k]));
            } else {
                reset.push(events[k].id);
                proof {
                    assert(evs.take(k + 1).map_values(|e: QueuedEvent| e.id) =~= evs.take(k as int).map_values(
                        |e: QueuedEvent| e.id,
                    ).push(evs[k as int].id));
                }
            }
            k = k + 1;
        }
        proof {
            let gs = groups@.take(g + 1);
            assert(evs.take(evs.len() as int) =~= evs);
            if up {
                assert(is_online(online@, gs.last().0@));
                assert(due_events(gs, online@, false) =~= due_events(groups@.take(g as int), online@, false));
                assert forall|i: int| 0 <= i < redeliver@.len() implies same_event(
                    #[trigger] redeliver@[i],
                    due_events(gs, online@, true)[i],
                ) by {
                    if i < before_r.len() {
                        assert(redeliver@[i] == before_r[i]);
                    } else {
                        assert(same_event(redeliver@[before_r.len() + (i - before_r.len())], evs[i - before_r.len()]));
                    }
                }
            } else {
                assert(!is_online(online@, gs.last().0@));
                assert(due_events(gs, online@, true) =~= due_events(groups@.take(g as int), online@, true));
                assert(due_events(gs, online@, false).map_values(|e: QueuedEvent| e.id) =~= before_s
                    + evs.map_values(|e: QueuedEvent| e.id));
            }
        }
        g = g + 1;
    }
    proof {
        assert(groups@.take(groups@.len() as int) =~= groups@);
    }
    RetryPlan { redeliver, reset }
}

/// How many retry rounds pass between two housekeeping rounds.
pub const HOUSEKEEPING_EVERY: u64 = 6;

/// Days after which delivered events are cleaned up.
pub const DELIVERED_RETENTION_DAYS: i64 = 7;

/// Days after which dead letters are cleaned up.
pub const DEAD_LETTER_RETENTION_DAYS: i64 = 30;

/// Whether round `cycle` also does housekeeping: every sixth round, the
/// first included.
pub fn housekeeping_due(cycle: u64) -> (r: bool)
    ensures
        r == (cycle % HOUSEKEEPING_EVERY == 0),
{
    cycle % HOUSEKEEPING_EVERY == 0
}

} // verus!
