//! The life of WebSocket connections: the table of live connections by
//! agent, and the decisions of one connection's loop — which messages pass
//! the per-connection rate limit, when a quiet peer is probed with a ping,
//! and when it is dropped.

use vstd::prelude::*;
use vstd::string::*;
use crate::api::rest::rest_agents::ConnectionStamp;
use crate::api::ws::{check_connection_limit, too_many_connections_message, ErrorPayload};
use crate::seqs::{count, keep, lemma_keep_len, lemma_keep_take_step, lemma_take_full};
use crate::text::{listed, str_eq};

verus! {

/// How many connections an agent may hold at once, unless configured.
pub const DEFAULT_MAX_CONNS_PER_AGENT: usize = 5;

/// How many messages a connection may send per window, unless configured.
pub const DEFAULT_WS_RATE_MAX: u32 = 30;

/// The message rate window, in milliseconds.
pub const WS_RATE_WINDOW_MILLIS: u64 = 1000;

/// How long a connection may stay quiet before it is probed, in milliseconds.
pub const PING_AFTER_MILLIS: u64 = 60000;

/// How long a connection may stay quiet in all, in milliseconds.
pub const HEARTBEAT_TIMEOUT_MILLIS: u64 = 90000;

/// One live connection of an agent.
#[derive(Debug)]
pub struct Connection {
    pub agent_id: String,
    pub conn_id: u64,
    pub connected_since: i64,
    pub last_ping: i64,
}

/// The view of a live connection.
pub struct ConnRecord {
    pub agent_id: Seq<char>,
    pub conn_id: u64,
    pub connected_since: i64,
    pub last_ping: i64,
}

/// The view of a connection.
pub open spec fn conn_view(c: Connection) -> ConnRecord {
    ConnRecord {
        agent_id: c.agent_id@,
        conn_id: c.conn_id,
        connected_since: c.connected_since,
        last_ping: c.last_ping,
    }
}

/// The connections of `agent`.
pub open spec fn of_agent(agent: Seq<char>) -> spec_fn(ConnRecord) -> bool {
    |c: ConnRecord| c.agent_id == agent
}

/// Every connection but `conn_id` of `agent`.
pub open spec fn not_conn(agent: Seq<char>, conn_id: u64) -> spec_fn(ConnRecord) -> bool {
    |c: ConnRecord| !(c.agent_id == agent && c.conn_id == conn_id)
}

/// A connection of `agent` after a ping at `now` on connection `conn_id`.
pub open spec fn pinged(c: ConnRecord, agent: Seq<char>, conn_id: u64, now: i64) -> ConnRecord {
    if c.agent_id == agent && c.conn_id == conn_id {
        ConnRecord { last_ping: now, ..c }
    } else {
        c
    }
}

/// Whether `agent` has a live connection.
pub open spec fn is_connected(cs: Seq<ConnRecord>, agent: Seq<char>) -> bool {
    exists|k: int| 0 <= k < cs.len() && cs[k].agent_id == agent
}

/// The stamps of connections, in order.
pub open spec fn stamps_of(cs: Seq<ConnRecord>) -> Seq<(i64, i64)> {
    cs.map_values(|c: ConnRecord| (c.connected_since, c.last_ping))
}

/// The table of live connections, in the order they opened.
pub struct ConnectionTable {
    conns: Vec<Connection>,
}

impl ConnectionTable {
    /// The live connections, in the order they opened.
    pub closed spec fn conns(&self) -> Seq<ConnRecord> {
        self.conns@.map_values(|c: Connection| conn_view(c))
    }

    /// An empty table.
    pub fn new() -> (t: ConnectionTable)
        ensures
            t.conns() == Seq::<ConnRecord>::empty(),
    {
        let t = ConnectionTable { conns: Vec::new() };
        proof {
            assert(t.conns() =~= Seq::<ConnRecord>::empty());
        }
        t
    }

    /// How many live connections `agent_id` has.
    pub fn count_for(&self, agent_id: &str) -> (n: usize)
        ensures
            n == count(self.conns(), of_agent(agent_id@)),
    {
        let ghost cs = self.conns();
        let ghost p = of_agent(agent_id@);
        let mut n: usize = 0;
        let mut i: usize = 0;
        while i < self.conns.len()
            invariant
                0 <= i <= self.conns@.len(),
                cs == self.conns(),
                cs.len() == self.conns@.len(),
                p == of_agent(agent_id@),
                n == keep(cs.take(i as int), p).len(),
            decreases self.conns@.len() - i,
        {
            proof {
                assert(cs[i as int] == conn_view(self.conns@[i as int]));
                lemma_keep_take_step(cs, i as int, p);
                lemma_keep_len(cs.take(i as int), p);
            }
            if str_eq(self.conns[i].agent_id.as_str(), agent_id) {
                n = n + 1;
            }
            i = i + 1;
        }
        proof {
            lemma_take_full(cs);
        }
        n
    }

    /// Opens connection `conn_id` of `agent_id` at `now` (milliseconds),
    /// unless the agent already holds `max` connections: that is refused with
    /// TOO_MANY_CONNECTIONS and changes nothing.
    pub fn connect(&mut self, agent_id: &str, conn_id: u64, now: i64, max: usize) -> (r: Result<(), ErrorPayload>)
        ensures
            r is Err <==> count(old(self).conns(), of_agent(agent_id@)) >= max,
            r matches Err(e) ==> e.code@ == "TOO_MANY_CONNECTIONS"@ && e.message@
                == too_many_connections_message(max as nat),
            r is Err ==> final(self).conns() == old(self).conns(),
            r is Ok ==> final(self).conns() == old(self).conns().push(
                ConnRecord { agent_id: agent_id@, conn_id, connected_since: now, last_ping: now },
            ),
    {
        let current = self.count_for(agent_id);
        match check_connection_limit(current, max) {
            Err(e) => Err(e),
            Ok(()) => {
                let ghost before = self.conns();
                let c = Connection { agent_id: String::from_str(agent_id), conn_id, connected_since: now, last_ping: now };
                self.conns.push(c);
                proof {
                    assert(self.conns() =~= before.push(
                        ConnRecord { agent_id: agent_id@, conn_id, connected_since: now, last_ping: now },
                    ));
                }
                Ok(())
            },
        }
    }

    /// Records a ping at `now` on connection `conn_id` of `agent_id`.
    pub fn record_ping(&mut self, agent_id: &str, conn_id: u64, now: i64)
        ensures
            final(self).conns() == old(self).conns().map_values(|c: ConnRecord| pinged(c, agent_id@, conn_id, now)),
    {
        let ghost before = self.conns();
        let mut i: usize = 0;
        while i < self.conns.len()
            invariant
                0 <= i <= self.conns@.len(),
                self.conns@.len() == before.len(),
                forall|k: int|
                    0 <= k < i ==> conn_view(#[trigger] self.conns@[k]) == pinged(before[k], agent_id@, conn_id, now),
                forall|k: int| i <= k < before.len() ==> conn_view(#[trigger] self.conns@[k]) == before[k],
            decreases self.conns@.len() - i,
        {
            if self.conns[i].conn_id == conn_id && str_eq(self.conns[i].agent_id.as_str(), agent_id) {
                let c = Connection {
                    agent_id: self.conns[i].agent_id.clone(),
                    conn_id,
                    connected_since: self.conns[i].connected_since,
                    last_ping: now,
                };
                self.conns.set(i, c);
            }
            i = i + 1;
        }
        proof {
            assert(self.conns() =~= before.map_values(|c: ConnRecord| pinged(c, agent_id@, conn_id, now)));
        }
    }

    /// Closes connection `conn_id` of `agent_id`; the agent's other
    /// connections stay.
    pub fn disconnect(&mut self, agent_id: &str, conn_id: u64)
        ensures
            final(self).conns() == keep(old(self).conns(), not_conn(agent_id@, conn_id)),
    {
        let ghost before = self.conns();
        let ghost p = not_conn(agent_id@, conn_id);
        let mut kept: Vec<Connection> = Vec::new();
        let mut i: usize = 0;
        while i < self.conns.len()
            invariant
                0 <= i <= self.conns@.len(),
                before == self.conns(),
                before.len() == self.conns@.len(),
                p == not_conn(agent_id@, conn_id),
                kept@.map_values(|c: Connection| conn_view(c)) == keep(before.take(i as int), p),
            decreases self.conns@.len() - i,
        {
            proof {
                assert(before[i as int] == conn_view(self.conns@[i as int]));
                lemma_keep_take_step(before, i as int, p);
            }
            let c = &self.conns[i];
            if !(c.conn_id == conn_id && str_eq(c.agent_id.as_str(), agent_id)) {
                let ghost old_kept = kept@;
                kept.push(
                    Connection {
                        agent_id: c.agent_id.clone(),
                        conn_id: c.conn_id,
                        connected_since: c.connected_since,
                        last_ping: c.last_ping,
                    },
                );
                proof {
                    assert(kept@.map_values(|c: Connection| conn_view(c)) =~= old_kept.map_values(
                        |c: Connection| conn_view(c),
                    ).push(before[i as int]));
                }
            }
            i = i + 1;
        }
        proof {
            lemma_take_full(before);
        }
        self.conns = kept;
    }

    /// The agents with a live connection, each once, in the order of their
    /// first connection.
    pub fn online_agents(&self) -> (r: Vec<String>)
        ensures
            forall|a: Seq<char>| is_connected(self.conns(), a) ==> #[trigger] listed(r@, a),
            forall|i: int| 0 <= i < r@.len() ==> is_connected(self.conns(), #[trigger] r@[i]@),
            forall|i: int, j: int| 0 <= i < j < r@.len() ==> (#[trigger] r@[i])@ != (#[trigger] r@[j])@,
    {
        let ghost cs = self.conns();
        let mut out: Vec<String> = Vec::new();
        let mut i: usize = 0;
        while i < self.conns.len()
            invariant
                0 <= i <= self.conns@.len(),
                cs == self.conns(),
                cs.len() == self.conns@.len(),
                forall|k: int| 0 <= k < i ==> listed(out@, #[trigger] cs[k].agent_id),
                forall|q: int| 0 <= q < out@.len() ==> exists|k: int| 0 <= k < i && cs[k].agent_id == (#[trigger] out@[q])@,
                forall|q: int, w: int| 0 <= q < w < out@.len() ==> (#[trigger] out@[q])@ != (#[trigger] out@[w])@,
            decreases self.conns@.len() - i,
        {
            proof {
                assert(cs[i as int] == conn_view(self.conns@[i as int]));
            }
            let a = &self.conns[i].agent_id;
            let mut seen = false;
            let mut j: usize = 0;
            while j < out.len()
                invariant
                    0 <= j <= out@.len(),
                    seen == exists|q: int| 0 <= q < j && out@[q]@ == a@,
                decreases out@.len() - j,
            {
                if str_eq(out[j].as_str(), a.as_str()) {
                    seen = true;
                }
                j = j + 1;
            }
            let ghost before = out@;
            if !seen {
                out.push(a.clone());
                proof {
                    assert(out@[before.len() as int]@ == cs[i as int].agent_id);
                    assert forall|k: int| 0 <= k <= i implies listed(out@, #[trigger] cs[k].agent_id) by {
                        if k < i {
                            let q = choose|q: int| 0 <= q < before.len() && before[q]@ == cs[k].agent_id;
                            assert(out@[q] == before[q]);
                        } else {
                            assert(out@[before.len() as int]@ == cs[k].agent_id);
                        }
                    }
                    assert forall|q: int| 0 <= q < out@.len() implies exists|k: int|
                        0 <= k < i + 1 && cs[k].agent_id == (#[trigger] out@[q])@ by {
                        if q < before.len() {
                            assert(out@[q] == before[q]);
                        } else {
                            assert(cs[i as int].agent_id == out@[q]@);
                        }
                    }
                    assert forall|q: int, w: int| 0 <= q < w < out@.len() implies (#[trigger] out@[q])@
                        != (#[trigger] out@[w])@ by {
                        if w < before.len() {
                            assert(out@[q] == before[q] && out@[w] == before[w]);
                        } else {
                            assert(out@[q] == before[q]);
                        }
                    }
                }
            } else {
                proof {
                    assert(listed(out@, cs[i as int].agent_id));
                }
            }
            i = i + 1;
        }
        proof {
            assert forall|a: Seq<char>| is_connected(cs, a) implies #[trigger] listed(out@, a) by {
                let k = choose|k: int| 0 <= k < cs.len() && cs[k].agent_id == a;
                assert(listed(out@, cs[k].agent_id));
            }
        }
        out
    }

    /// The ids of the live connections of `agent_id`, in the order they opened.
    pub fn conn_ids(&self, agent_id: &str) -> (r: Vec<u64>)
        ensures
            r@ == keep(self.conns(), of_agent(agent_id@)).map_values(|c: ConnRecord| c.conn_id),
    {
        let ghost cs = self.conns();
        let ghost p = of_agent(agent_id@);
        let mut out: Vec<u64> = Vec::new();
        let mut i: usize = 0;
        while i < self.conns.len()
            invariant
                0 <= i <= self.conns@.len(),
                cs == self.conns(),
                cs.len() == self.conns@.len(),
                p == of_agent(agent_id@),
                out@ == keep(cs.take(i as int), p).map_values(|c: ConnRecord| c.conn_id),
            decreases self.conns@.len() - i,
        {
            proof {
                assert(cs[i as int] == conn_view(self.conns@[i as int]));
                lemma_keep_take_step(cs, i as int, p);
            }
            if str_eq(self.conns[i].agent_id.as_str(), agent_id) {
                out.push(self.conns[i].conn_id);
                proof {
                    let k = keep(cs.take(i as int), p);
                    assert(k.push(cs[i as int]).map_values(|c: ConnRecord| c.conn_id) =~= k.map_values(
                        |c: ConnRecord| c.conn_id,
                    ).push(cs[i as int].conn_id));
                }
            }
            i = i + 1;
        }
        proof {
            lemma_take_full(cs);
        }
        out
    }

    /// The stamps of the live connections of `agent_id`, in the order they
    /// opened.
    pub fn stamps(&self, agent_id: &str) -> (r: Vec<ConnectionStamp>)
        ensures
            r@.map_values(|s: ConnectionStamp| (s.connected_since, s.last_ping)) == stamps_of(
                keep(self.conns(), of_agent(agent_id@)),
            ),
    {
        let ghost cs = self.conns();
        let ghost p = of_agent(agent_id@);
        let mut out: Vec<ConnectionStamp> = Vec::new();
        let mut i: usize = 0;
        while i < self.conns.len()
            invariant
                0 <= i <= self.conns@.len(),
                cs == self.conns(),
                cs.len() == self.conns@.len(),
                p == of_agent(agent_id@),
                out@.map_values(|s: ConnectionStamp| (s.connected_since, s.last_ping)) == stamps_of(
                    keep(cs.take(i as int), p),
                ),
            decreases self.conns@.len() - i,
        {
            proof {
                assert(cs[i as int] == conn_view(self.conns@[i as int]));
                lemma_keep_take_step(cs, i as int, p);
            }
            let c = &self.conns[i];
            if str_eq(c.agent_id.as_str(), agent_id) {
                let ghost before = out@;
                out.push(ConnectionStamp { connected_since: c.connected_since, last_ping: c.last_ping });
                proof {
                    let k = keep(cs.take(i as int), p);
                    assert(stamps_of(k.push(cs[i as int])) =~= stamps_of(k).push(
                        (cs[i as int].connected_since, cs[i as int].last_ping),
                    ));
                    assert(out@.map_values(|s: ConnectionStamp| (s.connected_since, s.last_ping)) =~= before.map_values(
                        |s: ConnectionStamp| (s.connected_since, s.last_ping),
                    ).push((c.connected_since, c.last_ping)));
                }
            }
            i = i + 1;
        }
        proof {
            lemma_take_full(cs);
        }
        out
    }
}

/// What one connection's loop keeps: when the peer was last heard from,
/// whether a probe is outstanding, and the message count of the current
/// rate window with the time it opened (milliseconds of a monotonic clock).
#[derive(Debug, Clone, Copy)]
pub struct Session {
    pub last_activity: u64,
    pub ping_sent: bool,
    pub msg_count: u32,
    pub window_start: u64,
}

/// What happens on a connection.
#[derive(Debug, Clone, Copy)]
pub enum SessionEvent {
    /// The peer sent a text message.
    Text,
    /// The peer sent a ping.
    Ping,
    /// The connection has been quiet for as long as `quiet_wait` said.
    Quiet,
}

/// What the loop does next.
#[derive(Debug, Clone, Copy, PartialEq, Eq, Structural)]
pub enum SessionAction {
    /// Handle the message.
    Dispatch,
    /// Answer the message with RATE_LIMITED, without handling it.
    RateLimited,
    /// Probe the peer with a ping.
    SendPing,
    /// Report HEARTBEAT_TIMEOUT and close the connection.
    Close,
    /// Nothing.
    Nothing,
}

/// The time from `since` to `now`, or zero when `now` is earlier.
pub open spec fn elapsed(now: u64, since: u64) -> u64 {
    if now >= since {
        (now - since) as u64
    } else {
        0
    }
}

/// A connection that has just opened at `now`.
pub open spec fn session_started(now: u64) -> Session {
    Session { last_activity: now, ping_sent: false, msg_count: 0, window_start: now }
}

/// One step of a connection's loop, at `now`, letting `rate_max` messages
/// through per window. A text message counts in the current window (a new
/// one when the old one is over) and passes while the count is at most
/// `rate_max`; a message or ping from the peer clears an outstanding probe.
/// When the connection has been quiet, a peer quiet for `PING_AFTER_MILLIS`
/// with no probe outstanding is probed, and otherwise dropped.
pub open spec fn session_next(s: Session, ev: SessionEvent, now: u64, rate_max: u32) -> (Session, SessionAction) {
    match ev {
        SessionEvent::Text => {
            let fresh = elapsed(now, s.window_start) >= WS_RATE_WINDOW_MILLIS;
            let before = if fresh { 0u32 } else { s.msg_count };
            let n: u32 = if before < u32::MAX { (before + 1) as u32 } else { before };
            let t = Session {
                last_activity: now,
                ping_sent: false,
                msg_count: n,
                window_start: if fresh { now } else { s.window_start },
            };
            (t, if n > rate_max { SessionAction::RateLimited } else { SessionAction::Dispatch })
        },
        SessionEvent::Ping => (Session { last_activity: now, ping_sent: false, ..s }, SessionAction::Nothing),
        SessionEvent::Quiet => {
            if elapsed(now, s.last_activity) >= PING_AFTER_MILLIS && !s.ping_sent {
                (Session { ping_sent: true, ..s }, SessionAction::SendPing)
            } else {
                (s, SessionAction::Close)
            }
        },
    }
}

/// A connection that opens at `now`.
pub fn session_start(now: u64) -> (s: Session)
    ensures
        s == session_started(now),
{
    Session { last_activity: now, ping_sent: false, msg_count: 0, window_start: now }
}

/// One step of a connection's loop; see `session_next`.
pub fn session_step(s: Session, ev: SessionEvent, now: u64, rate_max: u32) -> (r: (Session, SessionAction))
    ensures
        r == session_next(s, ev, now, rate_max),
{
    match ev {
        SessionEvent::Text => {
            let fresh = now >= s.window_start && now - s.window_start >= WS_RATE_WINDOW_MILLIS;
            let before = if fresh { 0u32 } else { s.msg_count };
            let n: u32 = if before < u32::MAX { before + 1 } else { before };
            let t = Session {
                last_activity: now,
                ping_sent: false,
                msg_count: n,
                window_start: if fresh { now } else { s.window_start },
            };
            (t, if n > rate_max { SessionAction::RateLimited } else { SessionAction::Dispatch })
        },
        SessionEvent::Ping => (
            Session { last_activity: now, ping_sent: false, msg_count: s.msg_count, window_start: s.window_start },
            SessionAction::Nothing,
        ),
        SessionEvent::Quiet => {
            let idle = if now >= s.last_activity { now - s.last_activity } else { 0 };
            if idle >= PING_AFTER_MILLIS && !s.ping_sent {
                (
                    Session {
                        last_activity: s.last_activity,
                        ping_sent: true,
                        msg_count: s.msg_count,
                        window_start: s.window_start,
                    },
                    SessionAction::SendPing,
                )
            } else {
                (s, SessionAction::Close)
            }
        },
    }
}

/// How long the loop waits at `now`, with nothing happening, before the
/// connection counts as quiet: what is left of `HEARTBEAT_TIMEOUT_MILLIS`
/// since the peer was last heard from.
pub fn quiet_wait(s: &Session, now: u64) -> (w: u64)
    ensures
        w == if elapsed(now, s.last_activity) >= HEARTBEAT_TIMEOUT_MILLIS {
            0
        } else {
            HEARTBEAT_TIMEOUT_MILLIS - elapsed(now, s.last_activity)
        },
{
    let idle = if now >= s.last_activity { now - s.last_activity } else { 0 };
    if idle >= HEARTBEAT_TIMEOUT_MILLIS {
        0
    } else {
        HEARTBEAT_TIMEOUT_MILLIS - idle
    }
}

/// The state and the actions after text messages at each of `times`, in turn.
pub open spec fn run_texts(s: Session, times: Seq<u64>, rate_max: u32) -> (Session, Seq<SessionAction>)
    decreases times.len(),
{
    if times.len() == 0 {
        (s, Seq::empty())
    } else {
        let before = run_texts(s, times.drop_last(), rate_max);
        let step = session_next(before.0, SessionEvent::Text, times.last(), rate_max);
        (step.0, before.1.push(step.1))
    }
}

/// The rate window that a burst starting at `t0` counts in: a new one when
/// the session's window is over by then, else the session's.
pub open spec fn burst_window(s: Session, t0: u64) -> u64 {
    if elapsed(t0, s.window_start) >= WS_RATE_WINDOW_MILLIS {
        t0
    } else {
        s.window_start
    }
}

proof fn lemma_burst_counts(s: Session, times: Seq<u64>, rate_max: u32)
    requires
        times.len() > 0,
        times.len() < u32::MAX,
        elapsed(times[0], s.window_start) >= WS_RATE_WINDOW_MILLIS || (s.msg_count == 0 && times[0]
            >= s.window_start),
        forall|i: int, j: int| 0 <= i <= j < times.len() ==> times[i] <= times[j],
        forall|i: int| 0 <= i < times.len() ==> #[trigger] times[i] - burst_window(s, times[0]) < WS_RATE_WINDOW_MILLIS,
    ensures
        run_texts(s, times, rate_max).0.window_start == burst_window(s, times[0]),
        run_texts(s, times, rate_max).0.msg_count == times.len(),
        run_texts(s, times, rate_max).1.len() == times.len(),
        forall|i: int|
            0 <= i < times.len() ==> (#[trigger] run_texts(s, times, rate_max).1[i] == SessionAction::Dispatch
                <==> i < rate_max),
        forall|i: int|
            0 <= i < times.len() ==> (run_texts(s, times, rate_max).1[i] == SessionAction::Dispatch
                || run_texts(s, times, rate_max).1[i] == SessionAction::RateLimited),
    decreases times.len(),
{
    let w = burst_window(s, times[0]);
    let prev = times.drop_last();
    let now = times.last();
    if times.len() > 1 {
        assert forall|i: int, j: int| 0 <= i <= j < prev.len() implies prev[i] <= prev[j] by {
            assert(prev[i] == times[i] && prev[j] == times[j]);
        }
        assert forall|i: int| 0 <= i < prev.len() implies #[trigger] prev[i] - burst_window(s, prev[0])
            < WS_RATE_WINDOW_MILLIS by {
            assert(prev[i] == times[i]);
        }
        lemma_burst_counts(s, prev, rate_max);
        assert(times[0] <= now);
        assert(times[0] >= w);
    }
    let rs = run_texts(s, times, rate_max).1;
    let before = run_texts(s, prev, rate_max);
    assert forall|i: int| 0 <= i < times.len() - 1 implies rs[i] == before.1[i] by {}
}

/// A connection lets through exactly the first `rate_max` messages of a
/// rate window and answers the rest RATE_LIMITED: for a burst of messages
/// that all fall within the window that the first of them counts in (a new
/// window, or the opening one of a fresh connection), the `i`-th message is
/// handled exactly when `i < rate_max`.
pub proof fn law_rate_window(s: Session, times: Seq<u64>, rate_max: u32)
    requires
        times.len() > 0,
        times.len() < u32::MAX,
        elapsed(times[0], s.window_start) >= WS_RATE_WINDOW_MILLIS || (s.msg_count == 0 && times[0]
            >= s.window_start),
        forall|i: int, j: int| 0 <= i <= j < times.len() ==> times[i] <= times[j],
        forall|i: int| 0 <= i < times.len() ==> #[trigger] times[i] - burst_window(s, times[0]) < WS_RATE_WINDOW_MILLIS,
    ensures
        run_texts(s, times, rate_max).1.len() == times.len(),
        forall|i: int|
            0 <= i < times.len() ==> (#[trigger] run_texts(s, times, rate_max).1[i] == SessionAction::Dispatch
                <==> i < rate_max),
        forall|i: int|
            0 <= i < times.len() ==> (run_texts(s, times, rate_max).1[i] == SessionAction::Dispatch
                || run_texts(s, times, rate_max).1[i] == SessionAction::RateLimited),
{
    lemma_burst_counts(s, times, rate_max);
}

/// A quiet peer is probed at most once: after a probe, when the connection
/// counts as quiet again with nothing heard in between, it is closed.
pub proof fn law_unanswered_probe_closes(s: Session, t1: u64, t2: u64, rate_max: u32)
    ensures
        session_next(s, SessionEvent::Quiet, t1, rate_max).1 == SessionAction::SendPing ==> session_next(
            session_next(s, SessionEvent::Quiet, t1, rate_max).0,
            SessionEvent::Quiet,
            t2,
            rate_max,
        ).1 == SessionAction::Close,
{
}

/// Hearing from the peer clears an outstanding probe: a peer that sent a
/// message or a ping at `now` and has been quiet since for at least
/// `PING_AFTER_MILLIS` is probed again rather than dropped.
pub proof fn law_activity_renews_probe(s: Session, ev: SessionEvent, now: u64, t: u64, rate_max: u32)
    requires
        !(ev is Quiet),
        t >= now + PING_AFTER_MILLIS,
    ensures
        session_next(session_next(s, ev, now, rate_max).0, SessionEvent::Quiet, t, rate_max).1
            == SessionAction::SendPing,
{
}

/// The connections of an agent never exceed the limit: opening one more for
/// an agent that has fewer than `max` succeeds and brings it at most to
/// `max`, and one that has `max` or more is refused.
pub proof fn law_connection_limit(cs: Seq<ConnRecord>, agent: Seq<char>, conn_id: u64, now: i64, max: usize)
    ensures
        count(cs, of_agent(agent)) < max ==> count(
            cs.push(ConnRecord { agent_id: agent, conn_id, connected_since: now, last_ping: now }),
            of_agent(agent),
        ) <= max,
{
    crate::seqs::lemma_count_push(
        cs,
        ConnRecord { agent_id: agent, conn_id, connected_since: now, last_ping: now },
        of_agent(agent),
    );
}

/// Closing a connection keeps the agent's other connections and every other
/// agent's, in order, and leaves none with that id for that agent.
pub proof fn law_disconnect_removes_only_that_connection(cs: Seq<ConnRecord>, agent: Seq<char>, conn_id: u64)
    ensures
        forall|i: int|
            0 <= i < keep(cs, not_conn(agent, conn_id)).len() ==> !(#[trigger] keep(cs, not_conn(agent, conn_id))[i].agent_id
                == agent && keep(cs, not_conn(agent, conn_id))[i].conn_id == conn_id),
        forall|a: Seq<char>|
            a != agent ==> #[trigger] keep(keep(cs, not_conn(agent, conn_id)), of_agent(a)) == keep(cs, of_agent(a)),
{
    crate::seqs::lemma_keep_origin(cs, not_conn(agent, conn_id));
    assert forall|a: Seq<char>| a != agent implies #[trigger] keep(keep(cs, not_conn(agent, conn_id)), of_agent(a))
        == keep(cs, of_agent(a)) by {
        lemma_keep_keep_other(cs, agent, conn_id, a);
    }
}

proof fn lemma_keep_keep_other(cs: Seq<ConnRecord>, agent: Seq<char>, conn_id: u64, a: Seq<char>)
    requires
        a != agent,
    ensures
        keep(keep(cs, not_conn(agent, conn_id)), of_agent(a)) == keep(cs, of_agent(a)),
    decreases cs.len(),
{
    if cs.len() > 0 {
        lemma_keep_keep_other(cs.drop_last(), agent, conn_id, a);
        let x = cs.last();
        let k = keep(cs.drop_last(), not_conn(agent, conn_id));
        if not_conn(agent, conn_id)(x) {
            crate::seqs::lemma_keep_push(k, x, of_agent(a));
        }
    }
}

} // verus!
