//! The decisions of the WebSocket protocol over the queue, the need board
//! and the connection table: what each request from a connected agent does
//! and what it is answered. The transport parses requests into `WsRequest`,
//! performs the answer, and writes it out.

use vstd::prelude::*;
use crate::agents::types::Agent;
use crate::api::event_queue::{
    ack_rows, acked_pred, pending_batch, queued_list, EventQueue, QueuedEvent,
};
use crate::api::session::{is_connected, ConnectionTable};
use crate::api::ws::{check_online, resume_reply, MAX_ONLINE_CHECK};
use crate::discovery::needs::{
    has_need, is_page_of, listed_status, need_pos, needs_found, needs_listed, searches_text, NeedBoard,
};
use crate::discovery::query::{page_number, page_size_of};
use crate::discovery::needs::{need_view, published, NeedRecord};
use crate::discovery::profiles::{profiles_are, providers_for_need, ProfileRecord, ProviderDirectory};
use crate::discovery::types::{Need, NeedSearchQuery, NeedStatus, PaginatedResult, PublishNeedRequest};
use crate::sys::{is_uuid_hyphenated, MAX_CLOCK_MILLIS};
use crate::text::views;
use crate::error::GaggleError;
use crate::seqs::count;

verus! {

/// What the protocol works on.
pub struct WsCore {
    pub queue: EventQueue,
    pub needs: NeedBoard,
    pub conns: ConnectionTable,
    pub profiles: ProviderDirectory,
}

impl WsCore {
    pub open spec fn wf(&self) -> bool {
        &&& self.queue.wf()
        &&& self.needs.wf()
        &&& self.profiles.wf()
    }
}

/// A request from a connected agent.
#[derive(Debug)]
pub enum WsRequest {
    /// A liveness probe, answered with the server's time.
    Ping { request_id: Option<String>, timestamp: Option<i64> },
    /// Acknowledges every event numbered up to `event_seq`.
    EventAck { event_seq: i64 },
    /// Asks for the events after `last_event_seq` (0 when not given) again.
    Resume { last_event_seq: Option<i64> },
    /// Asks which of `agent_ids` are connected.
    CheckOnline { request_id: Option<String>, agent_ids: Vec<String> },
    /// Lists or searches needs; `fts_matches` are the needs that the
    /// full-text index matched for the search's text conditions.
    ListNeeds { request_id: Option<String>, query: NeedSearchQuery, fts_matches: Vec<String> },
    /// Cancels one of the agent's needs.
    CancelNeed { request_id: Option<String>, need_id: String },
    /// Publishes a need; `fts_matches` are the providers that the full-text
    /// index matched for its category and skills.
    PublishNeed { request_id: Option<String>, request: PublishNeedRequest, fts_matches: Vec<String> },
}

/// What a request is answered, and what the transport does with it.
#[derive(Debug)]
pub enum WsReply {
    /// Send a pong to every connection of the agent.
    Pong { request_id: Option<String>, timestamp: Option<i64>, server_time: i64 },
    /// Nothing to send.
    Silent,
    /// Send each event again, then the count replayed and the last number.
    Replay { events: Vec<QueuedEvent>, replayed_count: usize, last_event_seq: i64 },
    /// Send the online statuses to every connection of the agent.
    OnlineStatus { request_id: Option<String>, statuses: Vec<(String, bool)> },
    /// Send the page of needs to every connection of the agent.
    NeedsList { request_id: Option<String>, page: PaginatedResult<Need> },
    /// Push a `need_cancelled` event to the agent, and acknowledge the request
    /// when it has an id.
    NeedCancelled { request_id: Option<String>, need_id: String },
    /// Push a `need_published` event with `need` to the agent and a
    /// `need_matched` event to each of `providers`, and acknowledge the
    /// request when it has an id.
    NeedPublished { request_id: Option<String>, need: Need, providers: Vec<String> },
    /// Answer the request with this error.
    Failed(GaggleError),
}

/// A need with its count of matched providers set.
pub open spec fn with_matched(n: NeedRecord, count: i32) -> NeedRecord {
    NeedRecord { matched_provider_count: count, ..n }
}

/// The providers of profiles, in order.
pub open spec fn provider_ids(ps: Seq<ProfileRecord>) -> Seq<Seq<char>> {
    ps.map_values(|p: ProfileRecord| p.agent_id)
}

/// A number of matched providers as the need records it (at most `i32::MAX`).
pub open spec fn match_count(n: nat) -> i32 {
    if n <= i32::MAX {
        n as i32
    } else {
        i32::MAX
    }
}

/// The view of an optional string.
pub open spec fn opt_id(o: Option<String>) -> Option<Seq<char>> {
    match o {
        Some(s) => Some(s@),
        None => None,
    }
}

/// Whether `req` is a need search whose paging fits the counters.
pub open spec fn paging_fits(core: &WsCore, req: &WsRequest) -> bool {
    match req {
        WsRequest::ListNeeds { query, .. } => {
            &&& core.needs.needs().len() <= u32::MAX
            &&& (page_number(query.page) - 1) * page_size_of(query.page_size) <= u32::MAX
        },
        _ => true,
    }
}

/// Handles one request of agent `agent` at `now` (milliseconds since the
/// Unix epoch).
///
/// - `Ping` changes nothing and is answered with a pong carrying `now`.
/// - `EventAck(n)` marks every undelivered event of the agent numbered at
///   most `n` delivered at `now`, and is not answered.
/// - `Resume(last)` changes nothing and replays the agent's pending batch
///   after `last` (0 when not given), with its size and last number.
/// - `CheckOnline(ids)` changes nothing; more than `MAX_ONLINE_CHECK` ids is a
///   ValidationError, else each id is answered with whether it is connected.
/// - `ListNeeds(q)` changes nothing and answers the page that a need search
///   with no status asked for gives (open needs).
/// - `CancelNeed(id)` cancels the need for its creator: a missing need is
///   NotFound, another agent's Forbidden, and either changes nothing.
/// - `PublishNeed(req)` publishes the need for the agent now, with a random
///   id (a clash is a DatabaseError that changes nothing, and cannot happen
///   while no stored need id has the UUID shape), finds the
///   providers that can serve it, records how many there are, and answers
///   the need with that count and the providers to notify.
pub fn ws_step(core: &mut WsCore, agent: &Agent, req: WsRequest, now: i64) -> (r: WsReply)
    requires
        old(core).wf(),
        paging_fits(old(core), &req),
    ensures
        final(core).wf(),
        final(core).conns.conns() == old(core).conns.conns(),
        !(req is EventAck) ==> final(core).queue.rows() == old(core).queue.rows(),
        !(req is CancelNeed) && !(req is PublishNeed) ==> final(core).needs.needs() == old(core).needs.needs(),
        final(core).profiles.profiles() == old(core).profiles.profiles(),
        match req {
            WsRequest::Ping { request_id, timestamp } => r matches WsReply::Pong { request_id: q, timestamp: t, server_time }
                && opt_id(q) == opt_id(request_id) && t == timestamp && server_time == now,
            WsRequest::EventAck { event_seq } => r is Silent && final(core).queue.rows() == ack_rows(
                old(core).queue.rows(),
                agent.id@,
                event_seq,
                now,
            ),
            WsRequest::Resume { last_event_seq } => {
                let after = match last_event_seq {
                    Some(s) => s,
                    None => 0,
                };
                let batch = pending_batch(old(core).queue.rows(), agent.id@, after);
                r matches WsReply::Replay { events, replayed_count, last_event_seq: last }
                    && queued_list(events@, batch) && replayed_count == batch.len() && last == if batch.len()
                    > 0 {
                    batch.last().event_seq
                } else {
                    after
                }
            },
            WsRequest::CheckOnline { request_id, agent_ids } => if agent_ids@.len() > MAX_ONLINE_CHECK {
                r matches WsReply::Failed(e) && e is ValidationError
            } else {
                r matches WsReply::OnlineStatus { request_id: q, statuses } && opt_id(q) == opt_id(request_id)
                    && statuses@.len() == agent_ids@.len() && forall|i: int|
                    0 <= i < agent_ids@.len() ==> (#[trigger] statuses@[i]).0@ == agent_ids@[i]@ && statuses@[i].1
                        == is_connected(old(core).conns.conns(), agent_ids@[i]@)
            },
            WsRequest::ListNeeds { request_id, query, fts_matches } => r matches WsReply::NeedsList {
                request_id: q,
                page,
            } && opt_id(q) == opt_id(request_id) && if searches_text(query) {
                is_page_of(page, needs_found(old(core).needs.needs(), fts_matches@), query.page, query.page_size)
            } else {
                is_page_of(page, needs_listed(old(core).needs.needs(), "open"@), query.page, query.page_size)
            },
            WsRequest::CancelNeed { request_id, need_id } => {
                let ns = old(core).needs.needs();
                &&& !has_need(ns, need_id@) ==> r is Failed && r->Failed_0 is NotFound && final(core).needs.needs()
                    == ns
                &&& has_need(ns, need_id@) && ns[need_pos(ns, need_id@)].creator_id != agent.id@ ==> r is Failed
                    && r->Failed_0 is Forbidden && final(core).needs.needs() == ns
                &&& has_need(ns, need_id@) && ns[need_pos(ns, need_id@)].creator_id == agent.id@ ==> r is NeedCancelled
                    && opt_id(r->NeedCancelled_request_id) == opt_id(request_id) && r->NeedCancelled_need_id@
                    == need_id@ && final(core).needs.needs()[need_pos(ns, need_id@)].status == NeedStatus::Cancelled
                    && final(core).needs.needs().len() == ns.len()
            },
            WsRequest::PublishNeed { request_id, request, fts_matches } => {
                let found = providers_for_need(
                    old(core).profiles.profiles(),
                    request.category@,
                    fts_matches@,
                    request.budget_min_bits,
                    request.budget_max_bits,
                );
                &&& r is Failed || r is NeedPublished
                &&& (forall|k: int|
                    0 <= k < old(core).needs.needs().len() ==> !is_uuid_hyphenated(
                        #[trigger] old(core).needs.needs()[k].id,
                    )) ==> r is NeedPublished
                &&& r is Failed ==> r->Failed_0 is DatabaseError && final(core).needs.needs() == old(core).needs.needs()
                &&& r is NeedPublished ==> {
                    &&& opt_id(r->NeedPublished_request_id) == opt_id(request_id)
                    &&& views(r->NeedPublished_providers@) == provider_ids(found)
                    &&& exists|now: i64|
                        {
                            &&& 0 <= now <= MAX_CLOCK_MILLIS
                            &&& need_view(r->NeedPublished_need) == #[trigger] with_matched(
                                published(agent.id@, request, r->NeedPublished_need.id@, now),
                                match_count(found.len()),
                            )
                            &&& final(core).needs.needs() == old(core).needs.needs().push(
                                with_matched(
                                    published(agent.id@, request, r->NeedPublished_need.id@, now),
                                    match_count(found.len()),
                                ),
                            )
                        }
                }
            },
        },
{
    match req {
        WsRequest::Ping { request_id, timestamp } => WsReply::Pong { request_id, timestamp, server_time: now },
        WsRequest::EventAck { event_seq } => {
            let _ = core.queue.mark_delivered_up_to_at(agent.id.as_str(), event_seq, now);
            WsReply::Silent
        },
        WsRequest::Resume { last_event_seq } => {
            let after = match last_event_seq {
                Some(s) => s,
                None => 0,
            };
            let events = match core.queue.get_pending(agent.id.as_str(), after) {
                Ok(v) => v,
                Err(_) => Vec::new(),
            };
            let (replayed_count, last) = resume_reply(&events, after);
            proof {
                let batch = pending_batch(core.queue.rows(), agent.id@, after);
                if batch.len() > 0 {
                    assert(crate::api::event_queue::queued_is(events@[events@.len() - 1], batch[batch.len() - 1]));
                }
            }
            WsReply::Replay { events, replayed_count, last_event_seq: last }
        },
        WsRequest::CheckOnline { request_id, agent_ids } => {
            let online = core.conns.online_agents();
            match check_online(&agent_ids, &online) {
                Ok(statuses) => {
                    proof {
                        assert forall|i: int| 0 <= i < agent_ids@.len() implies statuses@[i].1 == is_connected(
                            core.conns.conns(),
                            agent_ids@[i]@,
                        ) by {
                            let a = agent_ids@[i]@;
                            if is_connected(core.conns.conns(), a) {
                                assert(crate::text::listed(online@, a));
                            }
                        }
                    }
                    WsReply::OnlineStatus { request_id, statuses }
                },
                Err(e) => WsReply::Failed(e),
            }
        },
        WsRequest::ListNeeds { request_id, query, fts_matches } => {
            let q = NeedSearchQuery {
                category: query.category,
                skills: query.skills,
                query: query.query,
                status: None,
                page: query.page,
                page_size: query.page_size,
            };
            proof {
                reveal_strlit("open");
            }
            match core.needs.search_needs(&q, &fts_matches) {
                Ok(page) => WsReply::NeedsList { request_id, page },
                Err(e) => WsReply::Failed(e),
            }
        },
        WsRequest::CancelNeed { request_id, need_id } => {
            match core.needs.cancel_need_for(agent.id.as_str(), need_id.as_str()) {
                Ok(()) => WsReply::NeedCancelled { request_id, need_id },
                Err(e) => WsReply::Failed(e),
            }
        },
        WsRequest::PublishNeed { request_id, request, fts_matches } => {
            let ghost old_ns = core.needs.needs();
            let ghost found = providers_for_need(
                core.profiles.profiles(),
                request.category@,
                fts_matches@,
                request.budget_min_bits,
                request.budget_max_bits,
            );
            let ghost req_copy = request;
            let mut need = match core.needs.publish_need(agent.id.as_str(), request) {
                Ok(n) => n,
                Err(e) => {
                    return WsReply::Failed(e);
                },
            };
            let matched = match core.profiles.find_matching_providers(&need, &fts_matches) {
                Ok(v) => v,
                Err(e) => {
                    return WsReply::Failed(e);
                },
            };
            let ghost now = choose|now: i64|
                0 <= now <= MAX_CLOCK_MILLIS && need_view(need) == #[trigger] published(
                    agent.id@,
                    req_copy,
                    need.id@,
                    now,
                ) && core.needs.needs() == old_ns.push(published(agent.id@, req_copy, need.id@, now));
            let count: i32 = if matched.len() <= 2147483647usize {
                matched.len() as i32
            } else {
                2147483647i32
            };
            let mut providers: Vec<String> = Vec::new();
            let mut i: usize = 0;
            while i < matched.len()
                invariant
                    0 <= i <= matched@.len(),
                    profiles_are(matched@, found),
                    views(providers@) == provider_ids(found).take(i as int),
                decreases matched@.len() - i,
            {
                let ghost before = providers@;
                providers.push(matched[i].agent_id.clone());
                proof {
                    assert(provider_ids(found).take(i + 1) =~= provider_ids(found).take(i as int).push(
                        found[i as int].agent_id,
                    ));
                    assert(views(providers@) =~= views(before).push(matched@[i as int].agent_id@));
                }
                i = i + 1;
            }
            proof {
                assert(provider_ids(found).take(matched@.len() as int) =~= provider_ids(found));
            }
            let ghost x = published(agent.id@, req_copy, need.id@, now);
            let ghost pushed = core.needs.needs();
            if count > 0 {
                proof {
                    assert(pushed[pushed.len() - 1].id == need.id@);
                    let q = need_pos(pushed, need.id@);
                    if q != pushed.len() - 1 {
                        assert(pushed[q].id != pushed[pushed.len() - 1].id);
                    }
                }
                let _ = core.needs.update_matched_count(need.id.as_str(), count);
                proof {
                    assert(core.needs.needs() =~= old_ns.push(with_matched(x, count)));
                }
            } else {
                proof {
                    assert(with_matched(x, count) == x);
                }
            }
            need.matched_provider_count = count;
            proof {
                assert(matched@.len() == found.len());
                assert(count == match_count(found.len()));
                assert(need_view(need) == with_matched(published(agent.id@, req_copy, need.id@, now), count));
                assert(core.needs.needs() == old_ns.push(with_matched(x, count)));
            }
            WsReply::NeedPublished { request_id, need, providers }
        },
    }
}

} // verus!
