//! Authentication of requests: bearer tokens, agent keys (`gag_`) and user
//! keys (`usr_`), and who may act on an agent.

use vstd::prelude::*;
use vstd::string::*;
use crate::agents::registry::{agent_view, agent_with_id, agent_with_key, has_agent, has_key, AgentRecord, AgentRegistry};
use crate::agents::types::Agent;
use crate::error::GaggleError;
use crate::text::{is_prefix, starts_with, str_eq};

verus! {

/// The token of an `Authorization` header: what follows `Bearer `.
pub open spec fn bearer_token(header: Option<Seq<char>>) -> Option<Seq<char>> {
    match header {
        Some(h) => if is_prefix("Bearer "@, h) {
            Some(h.skip(7))
        } else {
            None
        },
        None => None,
    }
}

/// The view of an optional string slice.
pub open spec fn header_view(h: Option<&str>) -> Option<Seq<char>> {
    match h {
        Some(s) => Some(s@),
        None => None,
    }
}

fn bearer_prefix() -> (r: &'static str)
    ensures
        r@ == "Bearer "@,
        r@.len() == 7,
{
    proof {
        reveal_strlit("Bearer ");
    }
    "Bearer "
}

/// The bearer token of a request, from its `Authorization` header when that
/// is readable text; Unauthorized when there is none.
pub fn extract_bearer(authorization: Option<&str>) -> (r: Result<String, GaggleError>)
    ensures
        match bearer_token(header_view(authorization)) {
            Some(t) => r matches Ok(s) && s@ == t,
            None => r is Err && r->Err_0 is Unauthorized,
        },
{
    if let Some(h) = authorization {
        let p = bearer_prefix();
        if starts_with(h, p) {
            let n = h.unicode_len();
            return Ok(String::from_str(h.substring_char(7, n)));
        }
    }
    Err(GaggleError::Unauthorized(String::from_str("Missing or invalid Authorization header")))
}

/// An agent key.
pub open spec fn is_agent_key(t: Seq<char>) -> bool {
    is_prefix("gag_"@, t)
}

/// A user key.
pub open spec fn is_user_key(t: Seq<char>) -> bool {
    is_prefix("usr_"@, t)
}

fn agent_key_prefix() -> (r: &'static str)
    ensures
        r@ == "gag_"@,
{
    "gag_"
}

fn user_key_prefix() -> (r: &'static str)
    ensures
        r@ == "usr_"@,
{
    "usr_"
}

/// The agent a request acts as: its bearer token must be an agent key that
/// an agent holds. A missing token, a token that is not an agent key and an
/// unknown key are each Unauthorized.
pub fn extract_agent(registry: &AgentRegistry, authorization: Option<&str>) -> (r: Result<Agent, GaggleError>)
    requires
        registry.wf(),
    ensures
        match bearer_token(header_view(authorization)) {
            Some(t) => if is_agent_key(t) && has_key(registry.agents(), t) {
                r is Ok && agent_view(r->Ok_0) == agent_with_key(registry.agents(), t)
            } else {
                r is Err && r->Err_0 is Unauthorized
            },
            None => r is Err && r->Err_0 is Unauthorized,
        },
{
    let key = extract_bearer(authorization)?;
    if !starts_with(key.as_str(), agent_key_prefix()) {
        return Err(GaggleError::Unauthorized(String::from_str("Agent API key required (gag_*)")));
    }
    match registry.get_by_api_key(key.as_str()) {
        Ok(Some(a)) => Ok(a),
        _ => Err(GaggleError::Unauthorized(String::from_str("Invalid agent API key"))),
    }
}

/// Accepts a request that carries a valid agent or user key, and answers
/// the key. Whether a user key is valid is looked up outside the registry
/// and handed in as `user_key_valid`.
pub fn extract_any_auth(registry: &AgentRegistry, authorization: Option<&str>, user_key_valid: bool) -> (r:
    Result<String, GaggleError>)
    requires
        registry.wf(),
    ensures
        match bearer_token(header_view(authorization)) {
            Some(t) => if is_agent_key(t) {
                if has_key(registry.agents(), t) {
                    r matches Ok(k) && k@ == t
                } else {
                    r is Err && r->Err_0 is Unauthorized
                }
            } else if is_user_key(t) {
                if user_key_valid {
                    r matches Ok(k) && k@ == t
                } else {
                    r is Err && r->Err_0 is Unauthorized
                }
            } else {
                r is Err && r->Err_0 is Unauthorized
            },
            None => r is Err && r->Err_0 is Unauthorized,
        },
{
    let token = extract_bearer(authorization)?;
    if starts_with(token.as_str(), agent_key_prefix()) {
        match registry.get_by_api_key(token.as_str()) {
            Ok(Some(_)) => Ok(token),
            _ => Err(GaggleError::Unauthorized(String::from_str("Invalid agent API key"))),
        }
    } else if starts_with(token.as_str(), user_key_prefix()) {
        if user_key_valid {
            Ok(token)
        } else {
            Err(GaggleError::Unauthorized(String::from_str("Invalid user API key")))
        }
    } else {
        Err(GaggleError::Unauthorized(String::from_str("Invalid token format")))
    }
}

/// Who may act on agent `a` with token `t`: the agent itself with its own
/// key, or its owner with a user key; `key_user` is the user who holds `t`
/// when `t` is a valid user key.
pub open spec fn ownership_verdict(a: AgentRecord, t: Seq<char>, key_user: Option<Seq<char>>) -> Option<
    bool,
> {
    if is_agent_key(t) {
        Some(a.api_key == t)
    } else if is_user_key(t) {
        match key_user {
            Some(u) => Some(a.user_id == Some(u)),
            None => None,
        }
    } else {
        None
    }
}

/// The agent `agent_id`, when the request may act on it. No token is
/// Unauthorized; a missing agent is NotFound; a disabled one a
/// ValidationError; an agent key other than the agent's own, or a user key
/// of a user who does not own it, is Forbidden; an unknown user key or a
/// token of neither kind is Unauthorized. `key_user` is the user who holds
/// the token when it is a valid user key, looked up outside the registry.
pub fn verify_agent_ownership(
    registry: &AgentRegistry,
    authorization: Option<&str>,
    agent_id: &str,
    key_user: Option<&str>,
) -> (r: Result<Agent, GaggleError>)
    requires
        registry.wf(),
    ensures
        match bearer_token(header_view(authorization)) {
            None => r is Err && r->Err_0 is Unauthorized,
            Some(t) => if !has_agent(registry.agents(), agent_id@) {
                r is Err && r->Err_0 is NotFound
            } else if agent_with_id(registry.agents(), agent_id@).disabled_at is Some {
                r is Err && r->Err_0 is ValidationError
            } else {
                match ownership_verdict(agent_with_id(registry.agents(), agent_id@), t, header_view(key_user)) {
                    Some(true) => r is Ok && agent_view(r->Ok_0) == agent_with_id(registry.agents(), agent_id@),
                    Some(false) => r is Err && r->Err_0 is Forbidden,
                    None => r is Err && r->Err_0 is Unauthorized,
                }
            },
        },
{
    let token = extract_bearer(authorization)?;
    let agent = match registry.get_by_id(agent_id) {
        Ok(Some(a)) => a,
        _ => {
            let mut m = String::from_str("Agent not found: ");
            m.append(agent_id);
            return Err(GaggleError::NotFound(m));
        },
    };
    if agent.disabled_at.is_some() {
        return Err(GaggleError::ValidationError(String::from_str("Agent is disabled")));
    }
    if starts_with(token.as_str(), agent_key_prefix()) {
        if !str_eq(agent.api_key.as_str(), token.as_str()) {
            return Err(GaggleError::Forbidden(String::from_str("Not your agent")));
        }
    } else if starts_with(token.as_str(), user_key_prefix()) {
        let user = match key_user {
            Some(u) => u,
            None => {
                return Err(GaggleError::Unauthorized(String::from_str("Invalid user API key")));
            },
        };
        let owned = match &agent.user_id {
            Some(uid) => str_eq(uid.as_str(), user),
            None => false,
        };
        if !owned {
            return Err(GaggleError::Forbidden(String::from_str("Not your agent")));
        }
    } else {
        return Err(GaggleError::Unauthorized(String::from_str("User or Agent API key required")));
    }
    Ok(agent)
}

/// `s` without the copies of `p` it starts with.
pub open spec fn strip_prefixes(s: Seq<char>, p: Seq<char>) -> Seq<char>
    decreases s.len(),
{
    if p.len() > 0 && is_prefix(p, s) {
        strip_prefixes(s.skip(p.len() as int), p)
    } else {
        s
    }
}

/// The key the authentication middleware reads: a header that starts with
/// `Bearer `, without every leading copy of `Bearer `.
pub open spec fn middleware_key(header: Option<Seq<char>>) -> Option<Seq<char>> {
    match header {
        Some(h) => if is_prefix("Bearer "@, h) {
            Some(strip_prefixes(h, "Bearer "@))
        } else {
            None
        },
        None => None,
    }
}

/// The agent the authentication middleware admits: a missing or malformed
/// header, or a key no agent holds, is Unauthorized.
pub fn api_key_auth(registry: &AgentRegistry, authorization: Option<&str>) -> (r: Result<Agent, GaggleError>)
    requires
        registry.wf(),
    ensures
        match middleware_key(header_view(authorization)) {
            Some(k) => if has_key(registry.agents(), k) {
                r is Ok && agent_view(r->Ok_0) == agent_with_key(registry.agents(), k)
            } else {
                r is Err && r->Err_0 is Unauthorized
            },
            None => r is Err && r->Err_0 is Unauthorized,
        },
{
    let h = match authorization {
        Some(h) => h,
        None => {
            return Err(GaggleError::Unauthorized(String::from_str("Missing or invalid Authorization header")));
        },
    };
    let p = bearer_prefix();
    if !starts_with(h, p) {
        return Err(GaggleError::Unauthorized(String::from_str("Missing or invalid Authorization header")));
    }
    let n = h.unicode_len();
    let mut i: usize = 0;
    proof {
        assert(h@.skip(0) =~= h@);
    }
    while n - i >= 7 && starts_with(h.substring_char(i, n), p)
        invariant
            n == h@.len(),
            i <= n,
            p@ == "Bearer "@,
            p@.len() == 7,
            strip_prefixes(h@, p@) == strip_prefixes(h@.skip(i as int), p@),
        decreases n - i,
    {
        proof {
            assert(h@.subrange(i as int, n as int) =~= h@.skip(i as int));
            assert(h@.skip(i as int).skip(7) =~= h@.skip(i + 7));
        }
        i = i + 7;
    }
    proof {
        assert(h@.subrange(i as int, n as int) =~= h@.skip(i as int));
        if n - i < 7 {
            assert(!is_prefix(p@, h@.skip(i as int)));
        }
    }
    let key = h.substring_char(i, n);
    match registry.get_by_api_key(key) {
        Ok(Some(a)) => Ok(a),
        _ => Err(GaggleError::Unauthorized(String::from_str("Invalid API key"))),
    }
}

} // verus!
