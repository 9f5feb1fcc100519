//! The health report.

use vstd::prelude::*;
use vstd::string::*;
use crate::sys::MAX_CLOCK_SECONDS;

verus! {

/// The answer of the health endpoint.
pub struct HealthResponse {
    pub status: String,
    pub uptime_seconds: i64,
    pub spaces_count: usize,
    pub agents_count: usize,
    pub online_agents: usize,
}

/// The health report at `now` (seconds) for a server started at
/// `started_at`; a server whose start was not recorded counts from `now`.
pub fn health_report(
    started_at: Option<i64>,
    now: i64,
    spaces_count: usize,
    agents_count: usize,
    online_agents: usize,
) -> (r: HealthResponse)
    requires
        0 <= now <= MAX_CLOCK_SECONDS,
        started_at matches Some(s) ==> 0 <= s <= MAX_CLOCK_SECONDS,
    ensures
        r.status@ == "ok"@,
        r.uptime_seconds == now - match started_at {
            Some(s) => s,
            None => now,
        },
        r.spaces_count == spaces_count,
        r.agents_count == agents_count,
        r.online_agents == online_agents,
{
    let start = match started_at {
        Some(s) => s,
        None => now,
    };
    HealthResponse {
        status: String::from_str("ok"),
        uptime_seconds: now - start,
        spaces_count,
        agents_count,
        online_agents,
    }
}

} // verus!
