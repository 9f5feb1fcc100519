//! How an event reaches an agent: it is always queued first; then it is
//! handed to the agent's live connections, or, when the agent has none, the
//! agent is woken through its callback URL. And how a wake-up call is
//! retried.

use vstd::prelude::*;
use crate::agents::registry::{agent_with_id, has_agent, AgentRegistry};
use crate::api::event_queue::{enqueued, max_seq, next_seq_for, EventQueue};
use crate::api::session::{of_agent, ConnRecord, ConnectionTable};
use crate::api::ws::{inject_event_seq, with_field};
use crate::error::GaggleError;
use crate::seqs::keep;
use crate::sys::{now_millis, MAX_CLOCK_MILLIS};
use crate::text::signed_decimal;

verus! {

/// Where a queued event goes next.
#[derive(Debug)]
pub enum Delivery {
    /// Send `message` (the payload with its `event_seq`) on each of these
    /// connections of the agent.
    Connections { conn_ids: Vec<u64>, message: String },
    /// The agent is not connected: wake it by calling `callback_url`.
    Wake { callback_url: String },
    /// The agent is neither connected nor reachable: the event waits in the
    /// queue.
    Held,
}

/// The ids of the live connections of `agent`, in the order they opened.
pub open spec fn conn_ids_of(cs: Seq<ConnRecord>, agent: Seq<char>) -> Seq<u64> {
    keep(cs, of_agent(agent)).map_values(|c: ConnRecord| c.conn_id)
}

/// The callback URL of agent `agent`, if it is registered and has one.
pub open spec fn callback_of(registry: &AgentRegistry, agent: Seq<char>) -> Option<Seq<char>> {
    if has_agent(registry.agents(), agent) {
        agent_with_id(registry.agents(), agent).callback_url
    } else {
        None
    }
}

/// Queues an event of `event_type` with `payload` for `agent_id` at `now`
/// and says where it goes next: to every live connection of the agent, with
/// the event's number added to the payload; else, when the agent has a
/// callback URL, to a wake-up call; else nowhere yet. The queue refuses the
/// event (DatabaseError, nothing changed) only when its numbers are used up.
pub fn push_event_at(
    queue: &mut EventQueue,
    conns: &ConnectionTable,
    registry: &AgentRegistry,
    agent_id: &str,
    event_type: &str,
    payload: &str,
    now: i64,
) -> (r: Result<(i64, Delivery), GaggleError>)
    requires
        old(queue).wf(),
        registry.wf(),
        0 <= now <= MAX_CLOCK_MILLIS,
    ensures
        final(queue).wf(),
        r is Ok <==> (old(queue).next_id() < i64::MAX && max_seq(old(queue).rows(), agent_id@) < i64::MAX),
        r is Err ==> r->Err_0 is DatabaseError && final(queue).rows() == old(queue).rows(),
        r is Ok ==> {
            let seq = r->Ok_0.0;
            let d = r->Ok_0.1;
            let ids = conn_ids_of(conns.conns(), agent_id@);
            &&& seq == next_seq_for(old(queue).rows(), agent_id@)
            &&& final(queue).rows() == enqueued(
                old(queue).rows(),
                old(queue).next_id(),
                agent_id@,
                event_type@,
                payload@,
                now,
            )
            &&& ids.len() > 0 ==> d is Connections && d->conn_ids@ == ids && (with_field(
                payload@,
                "event_seq"@,
                signed_decimal(seq as int),
            ) matches Some(t) ==> d->message@ == t)
            &&& ids.len() == 0 && callback_of(registry, agent_id@) is Some ==> d is Wake && d->callback_url@
                == callback_of(registry, agent_id@)->Some_0
            &&& ids.len() == 0 && callback_of(registry, agent_id@) is None ==> d is Held
        },
{
    let seq = queue.enqueue_at(agent_id, event_type, payload, now)?;
    let ids = conns.conn_ids(agent_id);
    if ids.len() > 0 {
        let message = inject_event_seq(payload, seq);
        return Ok((seq, Delivery::Connections { conn_ids: ids, message }));
    }
    match registry.get_by_id(agent_id) {
        Ok(Some(agent)) => match agent.callback_url {
            Some(url) => Ok((seq, Delivery::Wake { callback_url: url })),
            None => Ok((seq, Delivery::Held)),
        },
        _ => Ok((seq, Delivery::Held)),
    }
}

/// Queues an event now; see `push_event_at`.
pub fn push_event(
    queue: &mut EventQueue,
    conns: &ConnectionTable,
    registry: &AgentRegistry,
    agent_id: &str,
    event_type: &str,
    payload: &str,
) -> (r: Result<(i64, Delivery), GaggleError>)
    requires
        old(queue).wf(),
        registry.wf(),
    ensures
        final(queue).wf(),
        r is Ok <==> (old(queue).next_id() < i64::MAX && max_seq(old(queue).rows(), agent_id@) < i64::MAX),
        r is Err ==> r->Err_0 is DatabaseError && final(queue).rows() == old(queue).rows(),
        r is Ok ==> exists|now: i64|
            0 <= now <= MAX_CLOCK_MILLIS && final(queue).rows() == #[trigger] enqueued(
                old(queue).rows(),
                old(queue).next_id(),
                agent_id@,
                event_type@,
                payload@,
                now,
            ),
{
    let now = now_millis();
    push_event_at(queue, conns, registry, agent_id, event_type, payload, now)
}

/// How many times a wake-up call is attempted.
pub const WEBHOOK_ATTEMPTS: u32 = 3;

/// How a wake-up call attempt went.
#[derive(Debug, Clone, Copy, PartialEq, Eq, Structural)]
pub enum WebhookOutcome {
    /// The callback answered with a success status.
    Delivered,
    /// The call failed or the callback answered otherwise.
    Failed,
}

/// What to do after an attempt of a wake-up call.
#[derive(Debug, Clone, Copy, PartialEq, Eq, Structural)]
pub enum WebhookStep {
    /// The agent was reached.
    Done,
    /// Wait this many milliseconds, then try again.
    RetryAfter(u64),
    /// Every attempt failed.
    GiveUp,
}

/// What follows attempt `attempt` (counting from 0) of a wake-up call:
/// done when it was delivered; after a failure, another try half a second
/// longer after each attempt (500 ms, then 1000 ms) until
/// `WEBHOOK_ATTEMPTS` attempts have failed.
pub fn webhook_next(attempt: u32, outcome: WebhookOutcome) -> (r: WebhookStep)
    ensures
        outcome == WebhookOutcome::Delivered ==> r == WebhookStep::Done,
        outcome == WebhookOutcome::Failed && attempt + 1 < WEBHOOK_ATTEMPTS ==> r == WebhookStep::RetryAfter(
            (500 * (attempt + 1)) as u64,
        ),
        outcome == WebhookOutcome::Failed && attempt + 1 >= WEBHOOK_ATTEMPTS ==> r == WebhookStep::GiveUp,
{
    match outcome {
        WebhookOutcome::Delivered => WebhookStep::Done,
        WebhookOutcome::Failed => if attempt < WEBHOOK_ATTEMPTS - 1 {
            WebhookStep::RetryAfter(500 * (attempt as u64 + 1))
        } else {
            WebhookStep::GiveUp
        },
    }
}

} // verus!
