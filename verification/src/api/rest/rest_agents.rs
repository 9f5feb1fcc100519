//! The agent endpoints' rules: how many registrations an address may make
//! per hour, how many agents a user may own, and what others may see of an
//! agent.

use vstd::prelude::*;
use vstd::string::*;
use dashmap::DashMap;
use crate::agents::registry::{agent_with_id, has_agent, AgentRegistry};
use crate::agents::types::{Agent, AgentType};
use crate::error::GaggleError;
use crate::sys::{now_millis, MAX_CLOCK_MILLIS};
use crate::text::{decimal, first_field, first_field_of, opt_string_view, push_decimal, trim, trimmed};

verus! {

/// Registrations one address may make per window.
pub const IP_REG_LIMIT: u32 = 5;

/// The registration window, in seconds.
pub const IP_REG_WINDOW_SECS: u64 = 3600;

/// The registration window, in milliseconds.
pub const IP_REG_WINDOW_MILLIS: i64 = 3600000;

/// The map behind the registration limiter: count and window start, by address.
pub type RegCounterMap = DashMap<String, (u32, i64)>;

/// What a registration counter map holds.
pub uninterp spec fn reg_counters(m: RegCounterMap) -> Map<Seq<char>, (u32, i64)>;

/// No counters at all.
pub open spec fn no_counters() -> Map<Seq<char>, (u32, i64)> {
    Map::empty()
}

/// `DashMap::new`: an empty map.
#[verifier::external_body]
fn counters_new() -> (m: RegCounterMap)
    ensures
        reg_counters(m) == no_counters(),
{
    DashMap::new()
}

/// `DashMap::entry` with `and_modify` and `or_insert_with`: counts one
/// registration from `ip` at `now`, with `next_counter` for an address
/// already counted and `first_counter` for a new one.
#[verifier::external_body]
fn counters_bump(m: &mut RegCounterMap, ip: &str, now: i64)
    ensures
        reg_counters(*final(m)) == counted(reg_counters(*old(m)), ip@, now),
{
    m.entry(ip.to_string()).and_modify(|e| *e = next_counter(*e, now)).or_insert_with(|| first_counter(now));
}

/// `DashMap::get`, with the entry copied out.
#[verifier::external_body]
fn counters_get(m: &RegCounterMap, ip: &str) -> (r: Option<(u32, i64)>)
    ensures
        r is Some <==> reg_counters(*m).contains_key(ip@),
        r matches Some(e) ==> e == reg_counters(*m)[ip@],
{
    match m.get(ip) {
        Some(entry) => Some(*entry.value()),
        None => None,
    }
}

/// A counter after one more registration at `now`: a window older than the
/// limit starts over; otherwise the count goes up (and stays at its largest
/// value once there).
pub open spec fn counter_after(c: (u32, i64), now: i64) -> (u32, i64) {
    if now - c.1 > IP_REG_WINDOW_MILLIS {
        (1u32, now)
    } else if c.0 < u32::MAX {
        ((c.0 + 1) as u32, c.1)
    } else {
        c
    }
}

/// A counter after one more registration at `now`; see `counter_after`.
pub fn next_counter(c: (u32, i64), now: i64) -> (r: (u32, i64))
    ensures
        r == counter_after(c, now),
{
    if (now as i128) - (c.1 as i128) > IP_REG_WINDOW_MILLIS as i128 {
        (1, now)
    } else if c.0 < u32::MAX {
        (c.0 + 1, c.1)
    } else {
        c
    }
}

/// The counter of an address's first registration, at `now`.
pub fn first_counter(now: i64) -> (r: (u32, i64))
    ensures
        r == (1u32, now),
{
    (1, now)
}

/// The counters after one registration from `ip` at `now`.
pub open spec fn counted(m: Map<Seq<char>, (u32, i64)>, ip: Seq<char>, now: i64) -> Map<Seq<char>, (u32, i64)> {
    m.insert(
        ip,
        if m.contains_key(ip) {
            counter_after(m[ip], now)
        } else {
            (1u32, now)
        },
    )
}

/// Whether a counter refuses at `now`: its window is open and it has gone
/// past the limit.
pub open spec fn counter_refuses(c: (u32, i64), now: i64) -> bool {
    now - c.1 <= IP_REG_WINDOW_MILLIS && c.0 > IP_REG_LIMIT
}

/// The message of a refused registration.
pub open spec fn reg_limit_message() -> Seq<char> {
    "Registration rate limit exceeded for this IP (max "@ + decimal(IP_REG_LIMIT as nat) + "/hour)"@
}

/// Per-address registration counting.
pub struct IpRegistrationLimiter {
    counters: RegCounterMap,
}

impl IpRegistrationLimiter {
    /// The counters: count and window start (milliseconds since the Unix
    /// epoch), by address.
    pub closed spec fn counters(&self) -> Map<Seq<char>, (u32, i64)> {
        reg_counters(self.counters)
    }

    /// A limiter that has counted nothing.
    pub fn new() -> (l: IpRegistrationLimiter)
        ensures
            l.counters() == no_counters(),
    {
        IpRegistrationLimiter { counters: counters_new() }
    }

    /// Counts one registration from `ip` at `now` and refuses it, as a
    /// ValidationError, when the address has gone past `IP_REG_LIMIT`
    /// registrations in its current window.
    pub fn check_ip_reg_limit_at(&mut self, ip: &str, now: i64) -> (r: Result<(), GaggleError>)
        ensures
            final(self).counters() == counted(old(self).counters(), ip@, now),
            r is Err <==> counter_refuses(final(self).counters()[ip@], now),
            r is Err ==> r->Err_0 is ValidationError && r->Err_0->ValidationError_0@ == reg_limit_message(),
    {
        counters_bump(&mut self.counters, ip, now);
        match counters_get(&self.counters, ip) {
            Some(c) => {
                let open = (now as i128) - (c.1 as i128) <= IP_REG_WINDOW_MILLIS as i128;
                if open && c.0 > IP_REG_LIMIT {
                    let mut m = String::from_str("Registration rate limit exceeded for this IP (max ");
                    push_decimal(&mut m, IP_REG_LIMIT as u64);
                    m.append("/hour)");
                    return Err(GaggleError::ValidationError(m));
                }
                Ok(())
            },
            None => Ok(()),
        }
    }

    /// Counts one registration from `ip` now; see `check_ip_reg_limit_at`.
    pub fn check_ip_reg_limit(&mut self, ip: &str) -> (r: Result<(), GaggleError>)
        ensures
            exists|now: i64|
                0 <= now <= MAX_CLOCK_MILLIS && final(self).counters() == #[trigger] counted(old(self).counters(), ip@, now) && (r is Err <==> counter_refuses(final(self).counters()[ip@], now)),
    {
        let now = now_millis();
        self.check_ip_reg_limit_at(ip, now)
    }
}

/// Within one window an address is refused every registration after its
/// first `IP_REG_LIMIT`: a counter opened at `start` refuses at `now` in its
/// window exactly when more than the limit have been counted.
pub proof fn law_registration_window(count: u32, start: i64, now: i64)
    requires
        start <= now,
        now - start <= IP_REG_WINDOW_MILLIS,
    ensures
        counter_after((count, start), now).1 == start,
        count < u32::MAX ==> counter_after((count, start), now).0 == count + 1,
        counter_refuses(counter_after((count, start), now), now) <==> (count >= IP_REG_LIMIT),
        !counter_refuses((1u32, now), now),
{
}

/// The address a registration comes from: the first entry of
/// `X-Forwarded-For`, trimmed, or `unknown` without that header.
pub open spec fn registration_ip(forwarded_for: Option<Seq<char>>) -> Seq<char> {
    match forwarded_for {
        Some(f) => trimmed(first_field(f, ',')),
        None => "unknown"@,
    }
}

/// The view of an optional string slice.
pub open spec fn header_text(h: Option<&str>) -> Option<Seq<char>> {
    match h {
        Some(s) => Some(s@),
        None => None,
    }
}

/// The address a registration comes from; see `registration_ip`.
pub fn registration_client_ip(forwarded_for: Option<&str>) -> (r: String)
    ensures
        r@ == registration_ip(header_text(forwarded_for)),
{
    match forwarded_for {
        Some(f) => {
            let first = first_field_of(f, ',');
            trim(first.as_str())
        },
        None => String::from_str("unknown"),
    }
}

/// Refuses another agent for a user who owns `count` of at most `max`.
pub fn check_agent_limit(count: usize, max: usize) -> (r: Result<(), GaggleError>)
    ensures
        r is Err <==> count >= max,
        r is Err ==> r->Err_0 is Forbidden && r->Err_0->Forbidden_0@ == "Agent limit reached (max "@ + decimal(
            max as nat,
        ) + ")"@,
{
    if count >= max {
        let mut m = String::from_str("Agent limit reached (max ");
        push_decimal(&mut m, max as u64);
        m.append(")");
        Err(GaggleError::Forbidden(m))
    } else {
        Ok(())
    }
}

/// What anyone may see of an agent: not its key, secret digest, callback
/// or owner. `metadata` is JSON text.
pub struct AgentPublic {
    pub id: String,
    pub agent_type: AgentType,
    pub name: String,
    pub metadata: String,
    pub public_key: Option<String>,
    pub created_at: i64,
    pub disabled_at: Option<i64>,
    pub organization: Option<String>,
    pub online: bool,
}

impl AgentPublic {
    /// The public view of `agent`.
    pub fn from_agent(agent: &Agent, online: bool) -> (r: AgentPublic)
        ensures
            r.id@ == agent.id@,
            r.agent_type == agent.agent_type,
            r.name@ == agent.name@,
            r.metadata@ == agent.metadata@,
            opt_string_view(r.public_key) == opt_string_view(agent.public_key),
            r.created_at == agent.created_at,
            r.disabled_at == agent.disabled_at,
            opt_string_view(r.organization) == opt_string_view(agent.organization),
            r.online == online,
    {
        AgentPublic {
            id: agent.id.clone(),
            agent_type: agent.agent_type,
            name: agent.name.clone(),
            metadata: agent.metadata.clone(),
            public_key: crate::text::clone_opt_string(&agent.public_key),
            created_at: agent.created_at,
            disabled_at: agent.disabled_at,
            organization: crate::text::clone_opt_string(&agent.organization),
            online,
        }
    }
}

/// The public view of agent `agent_id`: a missing or disabled agent is NotFound.
pub fn get_agent_public(registry: &AgentRegistry, agent_id: &str, online: bool) -> (r: Result<
    AgentPublic,
    GaggleError,
>)
    requires
        registry.wf(),
    ensures
        !has_agent(registry.agents(), agent_id@) || agent_with_id(registry.agents(), agent_id@).disabled_at
            is Some ==> r is Err && r->Err_0 is NotFound,
        has_agent(registry.agents(), agent_id@) && agent_with_id(registry.agents(), agent_id@).disabled_at
            is None ==> r is Ok && r->Ok_0.id@ == agent_id@ && r->Ok_0.name@ == agent_with_id(
            registry.agents(),
            agent_id@,
        ).name && r->Ok_0.online == online,
{
    let agent = match registry.get_by_id(agent_id) {
        Ok(Some(a)) => a,
        _ => {
            let mut m = String::from_str("Agent not found: ");
            m.append(agent_id);
            return Err(GaggleError::NotFound(m));
        },
    };
    if agent.disabled_at.is_some() {
        let mut m = String::from_str("Agent not found: ");
        m.append(agent_id);
        return Err(GaggleError::NotFound(m));
    }
    proof {
        let ags = registry.agents();
        let q = choose|q: int| 0 <= q < ags.len() && ags[q].id == agent_id@;
        assert(agent_with_id(ags, agent_id@).id == agent_id@);
    }
    Ok(AgentPublic::from_agent(&agent, online))
}

/// What is known of one live connection of an agent: when it opened and
/// when it last answered a ping (Unix seconds).
#[derive(Debug, Clone, Copy)]
pub struct ConnectionStamp {
    pub connected_since: i64,
    pub last_ping: i64,
}

/// An agent's presence: whether it is connected, over how many
/// connections, since when its first connection opened, and its latest ping.
#[derive(Debug)]
pub struct AgentStatus {
    pub online: bool,
    pub connection_count: usize,
    pub connected_since: Option<i64>,
    pub last_ping: Option<i64>,
}

/// Whether `m` is the latest ping among `conns`.
pub open spec fn is_latest_ping(conns: Seq<ConnectionStamp>, m: i64) -> bool {
    &&& exists|i: int| 0 <= i < conns.len() && conns[i].last_ping == m
    &&& forall|i: int| 0 <= i < conns.len() ==> (#[trigger] conns[i]).last_ping <= m
}

/// The presence of an agent with live connections `conns`, in the order
/// they opened: offline when there are none.
pub fn agent_status(conns: &Vec<ConnectionStamp>) -> (r: AgentStatus)
    ensures
        r.online == (conns@.len() > 0),
        r.connection_count == conns@.len(),
        conns@.len() == 0 ==> r.connected_since is None && r.last_ping is None,
        conns@.len() > 0 ==> r.connected_since == Some(conns@[0].connected_since),
        conns@.len() > 0 ==> r.last_ping is Some && is_latest_ping(conns@, r.last_ping->0),
{
    if conns.len() == 0 {
        return AgentStatus { online: false, connection_count: 0, connected_since: None, last_ping: None };
    }
    let mut latest: i64 = conns[0].last_ping;
    let mut i: usize = 1;
    while i < conns.len()
        invariant
            1 <= i <= conns@.len(),
            exists|k: int| 0 <= k < i && conns@[k].last_ping == latest,
            forall|k: int| 0 <= k < i ==> (#[trigger] conns@[k]).last_ping <= latest,
        decreases conns@.len() - i,
    {
        if conns[i].last_ping > latest {
            latest = conns[i].last_ping;
        }
        i = i + 1;
    }
    AgentStatus {
        online: true,
        connection_count: conns.len(),
        connected_since: Some(conns[0].connected_since),
        last_ping: Some(latest),
    }
}

} // verus!
