//! The WebSocket protocol's payloads, the limits on what a client may send,
//! and the cache that answers a retried request with its first response.

use vstd::prelude::*;
use vstd::string::*;
use dashmap::DashMap;
use std::collections::HashMap;
use crate::agents::registry::{agent_view, agent_with_key, has_key, AgentRegistry};
use crate::agents::types::Agent;
use crate::api::event_queue::QueuedEvent;
use crate::discovery::types::Need;
use crate::error::GaggleError;
use crate::sys::MonotonicClock;
use crate::text::{decimal, push_decimal, signed_decimal, str_eq};

verus! {

/// The largest message content accepted, in bytes.
pub const MAX_CONTENT_LEN: usize = 32768;

/// The longest idempotency key accepted, in bytes.
pub const MAX_IDEMPOTENCY_KEY_LEN: usize = 128;

/// How long a cached response answers a retry, in seconds.
pub const IDEMPOTENCY_TTL_SECS: u64 = 300;

/// The same, in milliseconds.
pub const IDEMPOTENCY_TTL_MILLIS: u64 = 300000;

/// An error reported to a client.
#[derive(Debug)]
pub struct ErrorPayload {
    pub code: String,
    pub message: String,
}

/// The error code for a request that is too large.
pub open spec fn too_large_code() -> Seq<char> {
    "PAYLOAD_TOO_LARGE"@
}

/// The message for an idempotency key that is too long.
pub open spec fn key_too_long_message() -> Seq<char> {
    "idempotency_key exceeds "@ + decimal(MAX_IDEMPOTENCY_KEY_LEN as nat) + " bytes"@
}

/// The message for content of `len` bytes, more than is accepted.
pub open spec fn content_too_large_message(len: nat) -> Seq<char> {
    "message content exceeds "@ + decimal(MAX_CONTENT_LEN as nat) + " bytes (got "@ + decimal(len)
        + ")"@
}

/// Refuses an idempotency key longer than `MAX_IDEMPOTENCY_KEY_LEN` bytes
/// (its length as `str::len` gives it).
pub fn check_idempotency_key(key: &str) -> (r: Result<(), ErrorPayload>)
    ensures
        r is Err <==> key.len() > MAX_IDEMPOTENCY_KEY_LEN,
        r matches Err(e) ==> e.code@ == too_large_code() && e.message@ == key_too_long_message(),
{
    if key.len() > MAX_IDEMPOTENCY_KEY_LEN {
        let mut message = String::from_str("idempotency_key exceeds ");
        push_decimal(&mut message, MAX_IDEMPOTENCY_KEY_LEN as u64);
        message.append(" bytes");
        Err(ErrorPayload { code: String::from_str("PAYLOAD_TOO_LARGE"), message })
    } else {
        Ok(())
    }
}

/// Refuses message content longer than `MAX_CONTENT_LEN` bytes (its length
/// as `str::len` gives it).
pub fn check_content_size(content: &str) -> (r: Result<(), ErrorPayload>)
    ensures
        r is Err <==> content.len() > MAX_CONTENT_LEN,
        r matches Err(e) ==> e.code@ == too_large_code() && e.message@ == content_too_large_message(
            content.len() as nat,
        ),
{
    let len = content.len();
    if len > MAX_CONTENT_LEN {
        let mut message = String::from_str("message content exceeds ");
        push_decimal(&mut message, MAX_CONTENT_LEN as u64);
        message.append(" bytes (got ");
        push_decimal(&mut message, len as u64);
        message.append(")");
        proof {
            assert(message@ =~= content_too_large_message(len as nat));
        }
        Err(ErrorPayload { code: String::from_str("PAYLOAD_TOO_LARGE"), message })
    } else {
        Ok(())
    }
}

/// The message for an agent that already has `max` connections.
pub open spec fn too_many_connections_message(max: nat) -> Seq<char> {
    "Max "@ + decimal(max) + " concurrent connections per agent"@
}

/// Refuses a new connection for an agent that already has `current` of at
/// most `max` connections.
pub fn check_connection_limit(current: usize, max: usize) -> (r: Result<(), ErrorPayload>)
    ensures
        r is Err <==> current >= max,
        r matches Err(e) ==> e.code@ == "TOO_MANY_CONNECTIONS"@ && e.message@
            == too_many_connections_message(max as nat),
{
    if current >= max {
        let mut message = String::from_str("Max ");
        push_decimal(&mut message, max as u64);
        message.append(" concurrent connections per agent");
        Err(ErrorPayload { code: String::from_str("TOO_MANY_CONNECTIONS"), message })
    } else {
        Ok(())
    }
}

#[verifier::external_type_specification]
#[verifier::external_body]
#[verifier::reject_recursive_types(K)]
#[verifier::reject_recursive_types(V)]
#[verifier::reject_recursive_types(S)]
pub struct ExDashMap<K, V, S>(DashMap<K, V, S>);

/// The map behind an idempotency cache: response and time stored, by key.
pub type ResponseMap = DashMap<String, (String, u64)>;

/// What a cache map holds: for each key, the response and when it was stored.
pub uninterp spec fn cache_contents(m: ResponseMap) -> Map<Seq<char>, (Seq<char>, u64)>;

/// `DashMap::new`: an empty map.
#[verifier::external_body]
fn cache_map_new() -> (m: ResponseMap)
    ensures
        cache_contents(m) == no_responses(),
{
    DashMap::new()
}

/// `DashMap::get`, with the entry copied out: the entry under `key`, if any.
#[verifier::external_body]
fn cache_map_get(m: &ResponseMap, key: &str) -> (r: Option<(String, u64)>)
    ensures
        r is Some <==> cache_contents(*m).contains_key(key@),
        r matches Some(e) ==> (e.0@, e.1) == cache_contents(*m)[key@],
{
    match m.get(key) {
        Some(entry) => Some((entry.value().0.clone(), entry.value().1)),
        None => None,
    }
}

/// `DashMap::remove`: drops the entry under `key`, if any.
#[verifier::external_body]
fn cache_map_remove(m: &mut ResponseMap, key: &str)
    ensures
        cache_contents(*final(m)) == cache_contents(*old(m)).remove(key@),
{
    m.remove(key);
}

/// `DashMap::insert`: puts `value` under `key`, replacing what was there.
#[verifier::external_body]
fn cache_map_insert(m: &mut ResponseMap, key: String, value: (String, u64))
    ensures
        cache_contents(*final(m)) == cache_contents(*old(m)).insert(key@, (value.0@, value.1)),
{
    m.insert(key, value);
}

/// `DashMap::len`: the number of entries.
#[verifier::external_body]
fn cache_map_len(m: &ResponseMap) -> (n: usize)
    ensures
        n == cache_contents(*m).dom().len(),
{
    m.len()
}

/// `DashMap::retain`, keeping the entries still fresh at `now`.
#[verifier::external_body]
fn cache_map_retain_fresh(m: &mut ResponseMap, now: u64)
    ensures
        cache_contents(*final(m)) == fresh_entries(cache_contents(*old(m)), now),
{
    m.retain(|_, v| entry_is_fresh(now, v.1));
}

/// A cache with nothing in it.
pub open spec fn no_responses() -> Map<Seq<char>, (Seq<char>, u64)> {
    Map::empty()
}

/// Milliseconds from `stored` to `now`; a reading before `stored` counts as none.
pub open spec fn age_ms(now: u64, stored: u64) -> int {
    if now >= stored {
        now - stored
    } else {
        0
    }
}

/// Whether a response stored at `stored` still answers retries at `now`.
pub open spec fn is_fresh(now: u64, stored: u64) -> bool {
    age_ms(now, stored) < IDEMPOTENCY_TTL_MILLIS
}

/// Whether a response stored at `stored` still answers retries at `now`.
pub fn entry_is_fresh(now: u64, stored: u64) -> (r: bool)
    ensures
        r == is_fresh(now, stored),
{
    let age: u64 = if now >= stored { now - stored } else { 0 };
    age < IDEMPOTENCY_TTL_MILLIS
}

/// The entries of `m` still fresh at `now`.
pub open spec fn fresh_entries(m: Map<Seq<char>, (Seq<char>, u64)>, now: u64) -> Map<
    Seq<char>,
    (Seq<char>, u64),
> {
    Map::new(|k: Seq<char>| m.contains_key(k) && is_fresh(now, m[k].1), |k: Seq<char>| m[k])
}

/// The response cached under `key` that still answers at `now`, if any.
pub open spec fn cached_response(m: Map<Seq<char>, (Seq<char>, u64)>, key: Seq<char>, now: u64) -> Option<
    Seq<char>,
> {
    if m.contains_key(key) && is_fresh(now, m[key].1) {
        Some(m[key].0)
    } else {
        None
    }
}

/// The cache after looking `key` up at `now`: an entry that no longer
/// answers is dropped.
pub open spec fn after_lookup(m: Map<Seq<char>, (Seq<char>, u64)>, key: Seq<char>, now: u64) -> Map<
    Seq<char>,
    (Seq<char>, u64),
> {
    if cached_response(m, key, now) is Some {
        m
    } else {
        m.remove(key)
    }
}

/// The cache after storing `response` under `key` at `now`: when the number
/// of entries is a multiple of 100, the stale ones are dropped first.
pub open spec fn after_store(
    m: Map<Seq<char>, (Seq<char>, u64)>,
    key: Seq<char>,
    response: Seq<char>,
    now: u64,
) -> Map<Seq<char>, (Seq<char>, u64)> {
    let kept = if m.dom().len() % 100 == 0 {
        fresh_entries(m, now)
    } else {
        m
    };
    kept.insert(key, (response, now))
}

/// Responses to requests that carried an idempotency key, by key, so that a
/// retried request gets the first response again for `IDEMPOTENCY_TTL_SECS`.
pub struct IdempotencyCache {
    clock: MonotonicClock,
    entries: ResponseMap,
}

impl IdempotencyCache {
    /// The cached entries: response and time stored (milliseconds of the
    /// cache's clock), by key.
    pub closed spec fn entries(&self) -> Map<Seq<char>, (Seq<char>, u64)> {
        cache_contents(self.entries)
    }

    /// An empty cache, whose clock starts now.
    pub fn new() -> (c: IdempotencyCache)
        ensures
            c.entries() == no_responses(),
    {
        IdempotencyCache { clock: MonotonicClock::new(), entries: cache_map_new() }
    }

    /// The response stored under `key` if it still answers at `now`;
    /// an entry that no longer answers is dropped.
    pub fn check_idempotency_at(&mut self, key: &str, now: u64) -> (r: Option<String>)
        ensures
            match cached_response(old(self).entries(), key@, now) {
                Some(resp) => r matches Some(s) && s@ == resp,
                None => r is None,
            },
            final(self).entries() == after_lookup(old(self).entries(), key@, now),
    {
        if let Some(entry) = cache_map_get(&self.entries, key) {
            if entry_is_fresh(now, entry.1) {
                return Some(entry.0);
            }
        }
        cache_map_remove(&mut self.entries, key);
        None
    }

    /// Looks `key` up now; see `check_idempotency_at`.
    pub fn check_idempotency(&mut self, key: &str) -> (r: Option<String>)
        ensures
            exists|now: u64| {
                &&& match #[trigger] cached_response(old(self).entries(), key@, now) {
                    Some(resp) => r matches Some(s) && s@ == resp,
                    None => r is None,
                }
                &&& final(self).entries() == after_lookup(old(self).entries(), key@, now)
            },
    {
        let now = self.clock.millis();
        self.check_idempotency_at(key, now)
    }

    /// Stores `response` under `key` at `now`; see `after_store`.
    pub fn store_idempotency_at(&mut self, key: String, response: String, now: u64)
        ensures
            final(self).entries() == after_store(old(self).entries(), key@, response@, now),
    {
        let n = cache_map_len(&self.entries);
        if n % 100 == 0 {
            cache_map_retain_fresh(&mut self.entries, now);
        }
        cache_map_insert(&mut self.entries, key, (response, now));
    }

    /// Stores `response` under `key` now; see `store_idempotency_at`.
    pub fn store_idempotency(&mut self, key: String, response: String)
        ensures
            exists|now: u64|
                final(self).entries() == #[trigger] after_store(old(self).entries(), key@, response@, now),
    {
        let now = self.clock.millis();
        self.store_idempotency_at(key, response, now);
    }
}

/// A retried request made within the time-to-live of its first response is
/// answered with that response; once the time has passed it is not, and the
/// stale entry is gone.
pub proof fn law_retry_gets_first_response(
    m: Map<Seq<char>, (Seq<char>, u64)>,
    key: Seq<char>,
    response: Seq<char>,
    stored: u64,
    later: u64,
)
    requires
        stored <= later,
    ensures
        later - stored < IDEMPOTENCY_TTL_MILLIS ==> cached_response(after_store(m, key, response, stored), key, later)
            == Some(response),
        later - stored >= IDEMPOTENCY_TTL_MILLIS ==> {
            &&& cached_response(after_store(m, key, response, stored), key, later) is None
            &&& !after_lookup(after_store(m, key, response, stored), key, later).contains_key(key)
        },
{
}

/// Looking a key up changes nothing else in the cache, and storing under a
/// key never changes the response cached under another key.
pub proof fn law_cache_keys_independent(
    m: Map<Seq<char>, (Seq<char>, u64)>,
    key: Seq<char>,
    other: Seq<char>,
    response: Seq<char>,
    now: u64,
)
    requires
        key != other,
    ensures
        after_lookup(m, key, now).contains_key(other) == m.contains_key(other),
        m.contains_key(other) ==> after_lookup(m, key, now)[other] == m[other],
        cached_response(after_store(m, key, response, now), other, now) == cached_response(m, other, now),
{
}

/// One operation on a response cache, with the time it happens.
pub enum CacheOp {
    Lookup { key: Seq<char>, at: u64 },
    Store { key: Seq<char>, response: Seq<char>, at: u64 },
}

/// The time of an operation.
pub open spec fn op_time(o: CacheOp) -> u64 {
    match o {
        CacheOp::Lookup { at, .. } => at,
        CacheOp::Store { at, .. } => at,
    }
}

/// Whether an operation stores under `key`.
pub open spec fn stores_under(o: CacheOp, key: Seq<char>) -> bool {
    match o {
        CacheOp::Lookup { .. } => false,
        CacheOp::Store { key: k, .. } => k == key,
    }
}

/// The cache after each of `ops`, in turn.
pub open spec fn cache_run(m: Map<Seq<char>, (Seq<char>, u64)>, ops: Seq<CacheOp>) -> Map<
    Seq<char>,
    (Seq<char>, u64),
>
    decreases ops.len(),
{
    if ops.len() == 0 {
        m
    } else {
        let before = cache_run(m, ops.drop_last());
        match ops.last() {
            CacheOp::Lookup { key, at } => after_lookup(before, key, at),
            CacheOp::Store { key, response, at } => after_store(before, key, response, at),
        }
    }
}

proof fn lemma_entry_survives(
    m: Map<Seq<char>, (Seq<char>, u64)>,
    key: Seq<char>,
    response: Seq<char>,
    stored: u64,
    ops: Seq<CacheOp>,
    later: u64,
)
    requires
        m.contains_key(key) && m[key] == (response, stored),
        forall|i: int| 0 <= i < ops.len() ==> stored <= op_time(#[trigger] ops[i]) <= later,
        forall|i: int| 0 <= i < ops.len() ==> !stores_under(#[trigger] ops[i], key),
    ensures
        cache_run(m, ops).contains_key(key) ==> cache_run(m, ops)[key] == (response, stored),
        later - stored < IDEMPOTENCY_TTL_MILLIS ==> cache_run(m, ops).contains_key(key),
    decreases ops.len(),
{
    if ops.len() > 0 {
        let prev = ops.drop_last();
        assert forall|i: int| 0 <= i < prev.len() implies stored <= op_time(#[trigger] prev[i]) <= later by {
            assert(prev[i] == ops[i]);
        }
        assert forall|i: int| 0 <= i < prev.len() implies !stores_under(#[trigger] prev[i], key) by {
            assert(prev[i] == ops[i]);
        }
        lemma_entry_survives(m, key, response, stored, prev, later);
        let o = ops[ops.len() - 1];
        assert(stored <= op_time(o) <= later);
        assert(!stores_under(o, key));
    }
}

/// A retried request is answered with its first response for as long as
/// that response is fresh, whatever other requests are looked up or stored
/// in between: after `response` is stored under `key` at `stored`, and any
/// run of lookups and of stores under other keys up to `later`, a lookup of
/// `key` at `later` answers `response` while `later - stored` is within
/// `IDEMPOTENCY_TTL_MILLIS`, and after that answers nothing and drops it.
pub proof fn law_first_response_survives_other_requests(
    m: Map<Seq<char>, (Seq<char>, u64)>,
    key: Seq<char>,
    response: Seq<char>,
    stored: u64,
    ops: Seq<CacheOp>,
    later: u64,
)
    requires
        stored <= later,
        forall|i: int| 0 <= i < ops.len() ==> stored <= op_time(#[trigger] ops[i]) <= later,
        forall|i: int| 0 <= i < ops.len() ==> !stores_under(#[trigger] ops[i], key),
    ensures
        later - stored < IDEMPOTENCY_TTL_MILLIS ==> cached_response(
            cache_run(after_store(m, key, response, stored), ops),
            key,
            later,
        ) == Some(response),
        later - stored >= IDEMPOTENCY_TTL_MILLIS ==> {
            &&& cached_response(cache_run(after_store(m, key, response, stored), ops), key, later) is None
            &&& !after_lookup(cache_run(after_store(m, key, response, stored), ops), key, later).contains_key(key)
        },
{
    lemma_entry_survives(after_store(m, key, response, stored), key, response, stored, ops, later);
}

/// Asks to join a space.
pub struct JoinSpacePayload {
    pub space_id: String,
}

/// Asks for the open needs, filtered and paged.
pub struct ListNeedsPayload {
    pub category: Option<String>,
    pub skills: Option<String>,
    pub query: Option<String>,
    pub page: Option<u32>,
    pub page_size: Option<u32>,
}

/// Turns a need into a request for proposals.
pub struct NeedToRfpPayload {
    pub need_id: String,
    pub provider_ids: Vec<String>,
    pub allowed_rounds: Option<u32>,
    pub deadline: Option<i64>,
    pub share_best_terms: Option<bool>,
}

/// A negotiation moved to its next round.
pub struct RoundAdvancedPayload {
    pub new_round: u32,
    pub round_status: String,
}

/// A contract was created.
pub struct ContractCreatedPayload {
    pub contract_id: String,
    pub buyer_id: String,
    pub seller_id: String,
    pub milestone_count: usize,
}

/// A milestone's deliverable was submitted.
pub struct MilestoneSubmittedPayload {
    pub milestone_id: String,
    pub milestone_title: String,
    pub deliverable_url: String,
    pub submitted_at: i64,
}

/// A milestone was accepted or rejected.
pub struct MilestoneAcceptedPayload {
    pub milestone_id: String,
    pub milestone_title: String,
    pub accepted: bool,
    pub accepted_at: i64,
}

/// Asks for a space's messages after a time.
pub struct GetMessagesPayload {
    pub space_id: String,
    pub after: Option<i64>,
    pub limit: Option<u32>,
}

/// Asks which of some agents are online.
pub struct CheckOnlinePayload {
    pub agent_ids: Vec<String>,
}

/// Asks for a space's proposals.
pub struct GetProposalsPayload {
    pub space_id: String,
}

/// Asks for a space's status, version and members.
pub struct GetSpaceInfoPayload {
    pub space_id: String,
}

/// Asks to leave a space.
pub struct LeaveSpacePayload {
    pub space_id: String,
}

/// An agent joined a space.
pub struct SpaceJoinedPayload {
    pub space_id: String,
    pub agent_id: String,
    pub assigned_role: Option<String>,
}

/// A space was closed.
pub struct SpaceClosedPayload {
    pub conclusion: String,
}

/// A proposal was accepted, rejected or countered.
pub struct ProposalUpdatePayload {
    pub proposal_id: String,
    pub status: String,
    pub action: String,
}

/// A space changed status.
pub struct SpaceStatusChangedPayload {
    pub space_id: String,
    pub old_status: String,
    pub new_status: String,
    pub trigger: Option<String>,
    pub agent_id: Option<String>,
}

/// One space in a listing.
pub struct SpaceSummary {
    pub id: String,
    pub name: String,
    pub status: String,
    pub space_type: String,
    pub agent_count: usize,
    pub creator_id: String,
    pub created_at: i64,
    pub updated_at: i64,
    pub buyer_id: Option<String>,
    pub seller_id: Option<String>,
}

/// A listing of spaces.
pub struct SpacesListPayload {
    pub spaces: Vec<SpaceSummary>,
}

/// Which of the asked-about agents are online.
pub struct OnlineStatusPayload {
    pub statuses: HashMap<String, bool>,
}

/// An agent left a space.
pub struct SpaceLeftPayload {
    pub space_id: String,
    pub agent_id: String,
    pub remaining_agents: Vec<String>,
    pub space_status: String,
}

/// The query of a WebSocket connection request.
pub struct WsAuthQuery {
    pub token: Option<String>,
}

/// Why a WebSocket connection request is refused: the HTTP status and text.
#[derive(Debug)]
pub struct WsRejection {
    pub status: u16,
    pub message: String,
}

/// The view of an optional string.
pub open spec fn token_view(o: Option<String>) -> Option<Seq<char>> {
    match o {
        Some(s) => Some(s@),
        None => None,
    }
}

/// Decides a WebSocket connection request for agent `agent_id`: without a
/// token it is refused with 401; with a key no agent holds, 401; with
/// another agent's key, 403.
pub fn authorize_ws(registry: &AgentRegistry, query: &WsAuthQuery, agent_id: &str) -> (r: Result<
    Agent,
    WsRejection,
>)
    requires
        registry.wf(),
    ensures
        match token_view(query.token) {
            None => r is Err && r->Err_0.status == 401 && r->Err_0.message@ == "API key token is required"@,
            Some(t) => if t.len() == 0 {
                r is Err && r->Err_0.status == 401 && r->Err_0.message@ == "API key token is required"@
            } else if !has_key(registry.agents(), t) {
                r is Err && r->Err_0.status == 401 && r->Err_0.message@ == "Invalid API key"@
            } else if agent_with_key(registry.agents(), t).id != agent_id@ {
                r is Err && r->Err_0.status == 403 && r->Err_0.message@ == "Token does not match agent_id"@
            } else {
                r is Ok && agent_view(r->Ok_0) == agent_with_key(registry.agents(), t)
            },
        },
{
    let token = match &query.token {
        Some(t) => {
            if t.as_str().unicode_len() == 0 {
                return Err(WsRejection { status: 401, message: String::from_str("API key token is required") });
            }
            t
        },
        None => {
            return Err(WsRejection { status: 401, message: String::from_str("API key token is required") });
        },
    };
    let agent = match registry.get_by_api_key(token.as_str()) {
        Ok(Some(a)) => a,
        _ => {
            return Err(WsRejection { status: 401, message: String::from_str("Invalid API key") });
        },
    };
    if !str_eq(agent.id.as_str(), agent_id) {
        return Err(WsRejection { status: 403, message: String::from_str("Token does not match agent_id") });
    }
    Ok(agent)
}

#[verifier::external_type_specification]
#[verifier::external_body]
pub struct ExJsonValue(serde_json::Value);

/// Whether `serde_json::from_str` reads `text` as a JSON value.
pub uninterp spec fn json_is_valid(text: Seq<char>) -> bool;

/// The fields of a JSON value, when it is an object: each key with the
/// JSON text (as `serde_json::to_string` writes it) of its value.
pub uninterp spec fn json_fields(v: serde_json::Value) -> Option<Map<Seq<char>, Seq<char>>>;

/// The fields (see `json_fields`) of the value that `serde_json::from_str`
/// reads from `text`.
pub uninterp spec fn json_text_fields(text: Seq<char>) -> Option<Map<Seq<char>, Seq<char>>>;

/// The text that `serde_json::to_string` writes for an object with
/// `fields`. (Objects are ordered maps here, so the text depends on the
/// fields alone.)
pub uninterp spec fn json_object_text(fields: Map<Seq<char>, Seq<char>>) -> Seq<char>;

/// `serde_json::from_str::<serde_json::Value>`: the value `text` holds, if
/// it is JSON.
///
/// Trusted: whether it succeeds and what the value's fields are are named,
/// not stated.
#[verifier::external_body]
fn json_parse(text: &str) -> (r: Option<serde_json::Value>)
    ensures
        r is Some <==> json_is_valid(text@),
        r matches Some(v) ==> json_fields(v) == json_text_fields(text@),
{
    serde_json::from_str::<serde_json::Value>(text).ok()
}

/// `serde_json::Map::insert` on the object `v` holds, if it holds one: sets
/// field `key` to the integer `n` (converted with `Number::from`). Answers
/// whether `v` was an object.
///
/// Trusted: an integer's JSON text is its decimal digits, with a minus sign
/// when it is negative, as serde_json's writer (`itoa`) writes it; a value
/// that is not an object is left as it is.
#[verifier::external_body]
fn json_set_signed(v: &mut serde_json::Value, key: &str, n: i64) -> (r: bool)
    ensures
        r == json_fields(*old(v)) is Some,
        match json_fields(*old(v)) {
            Some(m) => json_fields(*final(v)) == Some(m.insert(key@, signed_decimal(n as int))),
            None => *final(v) == *old(v),
        },
{
    match v.as_object_mut() {
        Some(obj) => {
            obj.insert(key.to_string(), serde_json::Value::Number(serde_json::Number::from(n)));
            true
        },
        None => false,
    }
}

/// `serde_json::Map::insert` on the object `v` holds, if it holds one: sets
/// field `key` to the unsigned integer `n` (converted with `Number::from`).
/// Answers whether `v` was an object.
///
/// Trusted: an unsigned integer's JSON text is its decimal digits, as
/// serde_json's writer (`itoa`) writes it; a value that is not an object is
/// left as it is.
#[verifier::external_body]
fn json_set_unsigned(v: &mut serde_json::Value, key: &str, n: u64) -> (r: bool)
    ensures
        r == json_fields(*old(v)) is Some,
        match json_fields(*old(v)) {
            Some(m) => json_fields(*final(v)) == Some(m.insert(key@, decimal(n as nat))),
            None => *final(v) == *old(v),
        },
{
    match v.as_object_mut() {
        Some(obj) => {
            obj.insert(key.to_string(), serde_json::Value::Number(serde_json::Number::from(n)));
            true
        },
        None => false,
    }
}

/// `serde_json::to_string`: the JSON text of `v`, if it can be written.
///
/// Trusted: an object is written (writing to a string cannot fail, and an
/// object's keys are strings) as `json_object_text` of its fields; of
/// another value nothing is claimed.
#[verifier::external_body]
fn json_text(v: &serde_json::Value) -> (r: Option<String>)
    ensures
        json_fields(*v) matches Some(m) ==> r is Some && r->Some_0@ == json_object_text(m),
{
    serde_json::to_string(v).ok()
}

/// The JSON text of `payload` with the top-level integer field `key` set to
/// `n`'s text, as the field injection writes it: for an object, the object
/// with that field added or replaced; text that is not JSON as it is.
pub open spec fn with_field(payload: Seq<char>, key: Seq<char>, n_text: Seq<char>) -> Option<Seq<char>> {
    if !json_is_valid(payload) {
        Some(payload)
    } else {
        match json_text_fields(payload) {
            Some(m) => Some(json_object_text(m.insert(key, n_text))),
            None => None,
        }
    }
}

/// Adds the top-level field `event_seq` to a JSON object; text that is not
/// JSON is returned as it is. A JSON value that is not an object is written
/// back unchanged (that text is not stated).
pub fn inject_event_seq(payload: &str, event_seq: i64) -> (r: String)
    ensures
        with_field(payload@, "event_seq"@, signed_decimal(event_seq as int)) matches Some(t) ==> r@ == t,
{
    match json_parse(payload) {
        Some(mut v) => {
            json_set_signed(&mut v, "event_seq", event_seq);
            match json_text(&v) {
                Some(t) => t,
                None => String::from_str(payload),
            }
        },
        None => String::from_str(payload),
    }
}

/// Adds the top-level field `space_version` to a JSON object; text that is
/// not JSON is returned as it is. A JSON value that is not an object is
/// written back unchanged (that text is not stated).
pub fn inject_space_version(payload: &str, version: u64) -> (r: String)
    ensures
        with_field(payload@, "space_version"@, decimal(version as nat)) matches Some(t) ==> r@ == t,
{
    match json_parse(payload) {
        Some(mut v) => {
            json_set_unsigned(&mut v, "space_version", version);
            match json_text(&v) {
                Some(t) => t,
                None => String::from_str(payload),
            }
        },
        None => String::from_str(payload),
    }
}

/// A need was published, and how many providers it matched.
#[derive(Debug)]
pub struct NeedPublishedPayload {
    pub need: Need,
    pub matched_provider_count: i32,
}

/// A need matched the receiving provider.
#[derive(Debug)]
pub struct NeedMatchedPayload {
    pub need: Need,
}

/// One page of open needs.
#[derive(Debug)]
pub struct NeedsListPayload {
    pub needs: Vec<Need>,
    pub total: u32,
    pub page: u32,
    pub page_size: u32,
}

/// The most agents one online check may ask about.
pub const MAX_ONLINE_CHECK: usize = 100;

/// Answers an online check: for each asked-about agent, in order, whether
/// it is among `online`. Asking about more than `MAX_ONLINE_CHECK` agents
/// is a ValidationError.
pub fn check_online(agent_ids: &Vec<String>, online: &Vec<String>) -> (r: Result<Vec<(String, bool)>, GaggleError>)
    ensures
        agent_ids@.len() > MAX_ONLINE_CHECK ==> r is Err && r->Err_0 is ValidationError,
        agent_ids@.len() <= MAX_ONLINE_CHECK ==> r is Ok && r->Ok_0@.len() == agent_ids@.len() && forall|i: int|
            0 <= i < agent_ids@.len() ==> (#[trigger] r->Ok_0@[i]).0@ == agent_ids@[i]@ && r->Ok_0@[i].1 == exists|j: int|
                0 <= j < online@.len() && online@[j]@ == agent_ids@[i]@,
{
    if agent_ids.len() > MAX_ONLINE_CHECK {
        return Err(GaggleError::ValidationError(String::from_str("agent_ids length cannot exceed 100")));
    }
    let mut out: Vec<(String, bool)> = Vec::new();
    let mut i: usize = 0;
    while i < agent_ids.len()
        invariant
            0 <= i <= agent_ids@.len(),
            out@.len() == i,
            forall|k: int|
                0 <= k < i ==> (#[trigger] out@[k]).0@ == agent_ids@[k]@ && out@[k].1 == exists|j: int|
                    0 <= j < online@.len() && online@[j]@ == agent_ids@[k]@,
        decreases agent_ids@.len() - i,
    {
        let mut found = false;
        let mut j: usize = 0;
        while j < online.len()
            invariant
                0 <= j <= online@.len(),
                i < agent_ids@.len(),
                found == exists|q: int| 0 <= q < j && online@[q]@ == agent_ids@[i as int]@,
            decreases online@.len() - j,
        {
            if str_eq(online[j].as_str(), agent_ids[i].as_str()) {
                found = true;
            }
            j = j + 1;
        }
        out.push((agent_ids[i].clone(), found));
        i = i + 1;
    }
    Ok(out)
}

/// The answer to a resume: how many events were replayed, and the number
/// of the last one (or the number the client resumed from, when none were).
pub fn resume_reply(replayed: &Vec<QueuedEvent>, after_seq: i64) -> (r: (usize, i64))
    ensures
        r.0 == replayed@.len(),
        r.1 == if replayed@.len() > 0 {
            replayed@.last().event_seq
        } else {
            after_seq
        },
{
    let n = replayed.len();
    if n > 0 {
        (n, replayed[n - 1].event_seq)
    } else {
        (0, after_seq)
    }
}

} // verus!
