//! Properties of the rate limiter over a run of requests.

use vstd::prelude::*;
use crate::api::middleware::{
    distinct_ips, elapsed_ms, has_window, open_windows, rate_step, still_open, window_pos,
    RateWindow,
};
use crate::seqs::{keep, lemma_keep_contains, lemma_keep_ordered, lemma_keep_origin, ordered_by};

verus! {

/// The windows and answers after requests from `ip` at each of `times`, in turn.
pub open spec fn run(
    ws: Seq<RateWindow>,
    ip: Seq<char>,
    max_requests: u32,
    window_seconds: u64,
    times: Seq<u64>,
) -> (Seq<RateWindow>, Seq<Result<(), u64>>)
    decreases times.len(),
{
    if times.len() == 0 {
        (ws, Seq::empty())
    } else {
        let before = run(ws, ip, max_requests, window_seconds, times.drop_last());
        let step = rate_step(before.0, ip, max_requests, window_seconds, times.last());
        (step.0, before.1.push(step.1))
    }
}

/// A request step keeps every address to at most one window.
pub proof fn lemma_rate_step_distinct(
    ws: Seq<RateWindow>,
    ip: Seq<char>,
    max_requests: u32,
    window_seconds: u64,
    now: u64,
)
    requires
        distinct_ips(ws),
    ensures
        distinct_ips(rate_step(ws, ip, max_requests, window_seconds, now).0),
{
    let live = open_windows(ws, now, window_seconds);
    lemma_keep_ordered(ws, still_open(now, window_seconds), |a: RateWindow, b: RateWindow| a.ip != b.ip);
    let nw = rate_step(ws, ip, max_requests, window_seconds, now).0;
    if has_window(live, ip) {
        assert forall|a: int, b: int| 0 <= a < b < nw.len() implies (#[trigger] nw[a]).ip != (#[trigger] nw[b]).ip by {
            assert(nw[a].ip == live[a].ip && nw[b].ip == live[b].ip);
        }
    } else {
        assert forall|a: int, b: int| 0 <= a < b < nw.len() implies (#[trigger] nw[a]).ip != (#[trigger] nw[b]).ip by {
            if b < live.len() {
                assert(nw[a] == live[a] && nw[b] == live[b]);
            } else {
                assert(nw[a] == live[a]);
            }
        }
    }
}

/// The state of a burst after `n` requests: the address has one window,
/// opened at `t0`, that has let through `min(n, max_requests)` requests.
spec fn burst_state(ws: Seq<RateWindow>, ip: Seq<char>, max_requests: u32, t0: u64, n: int) -> bool {
    &&& distinct_ips(ws)
    &&& has_window(ws, ip)
    &&& ws[window_pos(ws, ip)].start == t0
    &&& ws[window_pos(ws, ip)].count == if n < max_requests { n } else { max_requests as int }
}

proof fn lemma_burst(
    ws: Seq<RateWindow>,
    ip: Seq<char>,
    max_requests: u32,
    window_seconds: u64,
    times: Seq<u64>,
)
    requires
        distinct_ips(ws),
        window_seconds > 0,
        times.len() > 0,
        !has_window(open_windows(ws, times[0], window_seconds), ip),
        forall|i: int, j: int| 0 <= i <= j < times.len() ==> times[i] <= times[j],
        forall|i: int| 0 <= i < times.len() ==> #[trigger] times[i] - times[0] < window_seconds * 1000,
    ensures
        burst_state(run(ws, ip, max_requests, window_seconds, times).0, ip, max_requests, times[0], times.len() as int),
        run(ws, ip, max_requests, window_seconds, times).1.len() == times.len(),
        forall|i: int|
            0 <= i < times.len() ==> (#[trigger] run(ws, ip, max_requests, window_seconds, times).1[i] is Ok
                <==> i < max_requests),
    decreases times.len(),
{
    let t0 = times[0];
    let prev = times.drop_last();
    let before = run(ws, ip, max_requests, window_seconds, prev);
    let now = times.last();
    let live = open_windows(before.0, now, window_seconds);
    if times.len() == 1 {
        assert(prev.len() == 0);
        assert(before.0 == ws);
        assert(now == t0);
        let nw = rate_step(ws, ip, max_requests, window_seconds, now).0;
        lemma_rate_step_distinct(ws, ip, max_requests, window_seconds, now);
        assert(nw[nw.len() - 1].ip == ip);
        let k = window_pos(nw, ip);
        if k != nw.len() - 1 {
            assert(nw[k].ip != nw[nw.len() - 1].ip);
        }
    } else {
        assert forall|i: int, j: int| 0 <= i <= j < prev.len() implies prev[i] <= prev[j] by {
            assert(prev[i] == times[i] && prev[j] == times[j]);
        }
        assert forall|i: int| 0 <= i < prev.len() implies #[trigger] prev[i] - prev[0] < window_seconds * 1000 by {
            assert(prev[i] == times[i]);
        }
        assert(prev[0] == t0);
        lemma_burst(ws, ip, max_requests, window_seconds, prev);
        let n = prev.len() as int;
        let ws1 = before.0;
        let q = window_pos(ws1, ip);
        let x = ws1[q];
        assert(times[n] == now);
        assert(now >= t0);
        assert(elapsed_ms(now, x.start) < window_seconds * 1000);
        let p = still_open(now, window_seconds);
        lemma_keep_contains(ws1, p, q);
        let kk = choose|kk: int| 0 <= kk < keep(ws1, p).len() && keep(ws1, p)[kk] == ws1[q];
        assert(live[kk].ip == ip);
        lemma_keep_ordered(ws1, p, |a: RateWindow, b: RateWindow| a.ip != b.ip);
        let k = window_pos(live, ip);
        if k != kk {
            if k < kk {
                assert(live[k].ip != live[kk].ip);
            } else {
                assert(live[kk].ip != live[k].ip);
            }
        }
        lemma_rate_step_distinct(ws1, ip, max_requests, window_seconds, now);
        let nw = rate_step(ws1, ip, max_requests, window_seconds, now).0;
        assert(nw[kk].ip == ip);
        let k2 = window_pos(nw, ip);
        if k2 != kk {
            if k2 < kk {
                assert(nw[k2].ip != nw[kk].ip);
            } else {
                assert(nw[kk].ip != nw[k2].ip);
            }
        }
        let rs = run(ws, ip, max_requests, window_seconds, times).1;
        assert forall|i: int| 0 <= i < times.len() implies (#[trigger] rs[i] is Ok <==> i < max_requests) by {
            if i < n {
                assert(rs[i] == before.1[i]);
            }
        }
    }
}

/// Within one window an address is let through exactly its first
/// `max_requests` requests and refused the rest: for a burst of requests
/// from an address with no open window, all made before the window opened
/// by the first of them closes, the `i`-th request passes exactly when
/// `i < max_requests`.
pub proof fn law_at_most_max_requests_per_window(
    ws: Seq<RateWindow>,
    ip: Seq<char>,
    max_requests: u32,
    window_seconds: u64,
    times: Seq<u64>,
)
    requires
        distinct_ips(ws),
        window_seconds > 0,
        times.len() > 0,
        !has_window(open_windows(ws, times[0], window_seconds), ip),
        forall|i: int, j: int| 0 <= i <= j < times.len() ==> times[i] <= times[j],
        forall|i: int| 0 <= i < times.len() ==> #[trigger] times[i] - times[0] < window_seconds * 1000,
    ensures
        run(ws, ip, max_requests, window_seconds, times).1.len() == times.len(),
        forall|i: int|
            0 <= i < times.len() ==> (#[trigger] run(ws, ip, max_requests, window_seconds, times).1[i] is Ok
                <==> i < max_requests),
{
    lemma_burst(ws, ip, max_requests, window_seconds, times);
}

/// A request that comes once an address's window has closed passes and
/// opens a fresh window (when the limit lets any request through).
pub proof fn law_closed_window_resets(
    ws: Seq<RateWindow>,
    ip: Seq<char>,
    max_requests: u32,
    window_seconds: u64,
    now: u64,
)
    requires
        distinct_ips(ws),
        max_requests > 0,
        forall|k: int| 0 <= k < ws.len() && (#[trigger] ws[k]).ip == ip ==> elapsed_ms(now, ws[k].start)
            >= window_seconds * 1000,
    ensures
        rate_step(ws, ip, max_requests, window_seconds, now).1 is Ok,
        ({
            let nw = rate_step(ws, ip, max_requests, window_seconds, now).0;
            &&& has_window(nw, ip)
            &&& nw[window_pos(nw, ip)].start == now
            &&& nw[window_pos(nw, ip)].count == 1
        }),
{
    let p = still_open(now, window_seconds);
    let live = open_windows(ws, now, window_seconds);
    lemma_keep_origin(ws, p);
    if has_window(live, ip) {
        let k = window_pos(live, ip);
        let i = choose|i: int| 0 <= i < ws.len() && #[trigger] live[k] == ws[i] && p(ws[i]);
        assert(ws[i].ip == ip);
    }
    lemma_rate_step_distinct(ws, ip, max_requests, window_seconds, now);
    let nw = rate_step(ws, ip, max_requests, window_seconds, now).0;
    assert(nw[nw.len() - 1].ip == ip);
    let k2 = window_pos(nw, ip);
    if k2 != nw.len() - 1 {
        assert(nw[k2].ip != nw[nw.len() - 1].ip);
    }
}

/// The window of `ip` that is open at `now`, if there is one.
pub open spec fn own_window(ws: Seq<RateWindow>, ip: Seq<char>, now: u64, window_seconds: u64) -> Option<
    RateWindow,
> {
    let live = open_windows(ws, now, window_seconds);
    if has_window(live, ip) {
        Some(live[window_pos(live, ip)])
    } else {
        None
    }
}

/// The window of `ip`, as it stands after its own request at `now`, seen
/// at `later`: the request counts in its open window when it passes (or
/// opens one), and the window shows while it is still open.
pub open spec fn own_window_after(
    w: Option<RateWindow>,
    ip: Seq<char>,
    max_requests: u32,
    window_seconds: u64,
    now: u64,
    later: u64,
) -> Option<RateWindow> {
    let y = match w {
        Some(x) => if x.count < max_requests {
            RateWindow { count: (x.count + 1) as u32, ..x }
        } else {
            x
        },
        None => RateWindow {
            ip,
            start: now,
            count: if window_seconds == 0 || max_requests > 0 { 1u32 } else { 0u32 },
        },
    };
    if still_open(later, window_seconds)(y) {
        Some(y)
    } else {
        None
    }
}

proof fn lemma_open_earlier(w: RateWindow, t1: u64, t2: u64, window_seconds: u64)
    requires
        t1 <= t2,
        still_open(t2, window_seconds)(w),
    ensures
        still_open(t1, window_seconds)(w),
{
}

/// The open window of `ip` is the window of `ip` that is open, if any.
proof fn lemma_own_window(ws: Seq<RateWindow>, ip: Seq<char>, now: u64, window_seconds: u64)
    requires
        distinct_ips(ws),
    ensures
        own_window(ws, ip, now, window_seconds) is Some <==> exists|k: int|
            0 <= k < ws.len() && ws[k].ip == ip && still_open(now, window_seconds)(#[trigger] ws[k]),
        forall|k: int|
            0 <= k < ws.len() && ws[k].ip == ip && still_open(now, window_seconds)(#[trigger] ws[k]) ==> own_window(
                ws,
                ip,
                now,
                window_seconds,
            ) == Some(ws[k]),
{
    let p = still_open(now, window_seconds);
    let live = open_windows(ws, now, window_seconds);
    lemma_keep_ordered(ws, p, |a: RateWindow, b: RateWindow| a.ip != b.ip);
    lemma_keep_origin(ws, p);
    assert forall|k: int| 0 <= k < ws.len() && ws[k].ip == ip && p(#[trigger] ws[k]) implies own_window(
        ws,
        ip,
        now,
        window_seconds,
    ) == Some(ws[k]) by {
        lemma_keep_contains(ws, p, k);
        let kk = choose|kk: int| 0 <= kk < live.len() && live[kk] == ws[k];
        assert(live[kk].ip == ip);
        let q = window_pos(live, ip);
        if q != kk {
            if q < kk {
                assert(live[q].ip != live[kk].ip);
            } else {
                assert(live[kk].ip != live[q].ip);
            }
        }
    }
    if has_window(live, ip) {
        let q = window_pos(live, ip);
        let i = choose|i: int| 0 <= i < ws.len() && #[trigger] live[q] == ws[i] && p(ws[i]);
        assert(ws[i].ip == ip && p(ws[i]));
    }
}

/// After a request from `other`, the windows of every other address are
/// exactly those of its windows that were still open.
proof fn lemma_other_step_entries(
    ws: Seq<RateWindow>,
    ip: Seq<char>,
    other: Seq<char>,
    max_requests: u32,
    window_seconds: u64,
    now: u64,
)
    requires
        distinct_ips(ws),
        ip != other,
    ensures
        forall|k: int|
            0 <= k < rate_step(ws, other, max_requests, window_seconds, now).0.len() && (#[trigger] rate_step(
                ws,
                other,
                max_requests,
                window_seconds,
                now,
            ).0[k]).ip == ip ==> exists|i: int|
                0 <= i < ws.len() && ws[i] == rate_step(ws, other, max_requests, window_seconds, now).0[k]
                    && still_open(now, window_seconds)(ws[i]),
        forall|i: int|
            0 <= i < ws.len() && ws[i].ip == ip && still_open(now, window_seconds)(#[trigger] ws[i]) ==> exists|k: int|
                0 <= k < rate_step(ws, other, max_requests, window_seconds, now).0.len() && rate_step(
                    ws,
                    other,
                    max_requests,
                    window_seconds,
                    now,
                ).0[k] == ws[i],
{
    let p = still_open(now, window_seconds);
    let live = open_windows(ws, now, window_seconds);
    let nw = rate_step(ws, other, max_requests, window_seconds, now).0;
    lemma_keep_origin(ws, p);
    assert forall|k: int| 0 <= k < nw.len() && (#[trigger] nw[k]).ip == ip implies exists|i: int|
        0 <= i < ws.len() && ws[i] == nw[k] && p(ws[i]) by {
        if has_window(live, other) {
            let q = window_pos(live, other);
            if k == q {
                assert(nw[k].ip == other);
            } else {
                assert(nw[k] == live[k]);
            }
        } else {
            if k == live.len() {
                assert(nw[k].ip == other);
            } else {
                assert(nw[k] == live[k]);
            }
        }
        let i = choose|i: int| 0 <= i < ws.len() && #[trigger] live[k] == ws[i] && p(ws[i]);
    }
    assert forall|i: int| 0 <= i < ws.len() && ws[i].ip == ip && p(#[trigger] ws[i]) implies exists|k: int|
        0 <= k < nw.len() && nw[k] == ws[i] by {
        lemma_keep_contains(ws, p, i);
        let kk = choose|kk: int| 0 <= kk < live.len() && live[kk] == ws[i];
        if has_window(live, other) {
            let q = window_pos(live, other);
            assert(kk != q);
            assert(nw[kk] == live[kk]);
        } else {
            assert(nw[kk] == live[kk]);
        }
    }
}

/// The window of `ip` after its own request is `own_window_after` of the one
/// it had.
proof fn lemma_own_step_window(
    ws: Seq<RateWindow>,
    ip: Seq<char>,
    max_requests: u32,
    window_seconds: u64,
    now: u64,
    later: u64,
)
    requires
        distinct_ips(ws),
    ensures
        own_window(rate_step(ws, ip, max_requests, window_seconds, now).0, ip, later, window_seconds)
            == own_window_after(own_window(ws, ip, now, window_seconds), ip, max_requests, window_seconds, now, later),
{
    let p = still_open(now, window_seconds);
    let live = open_windows(ws, now, window_seconds);
    let nw = rate_step(ws, ip, max_requests, window_seconds, now).0;
    lemma_keep_ordered(ws, p, |a: RateWindow, b: RateWindow| a.ip != b.ip);
    lemma_rate_step_distinct(ws, ip, max_requests, window_seconds, now);
    lemma_own_window(nw, ip, later, window_seconds);
    let target = own_window_after(own_window(ws, ip, now, window_seconds), ip, max_requests, window_seconds, now, later);
    let pos = if has_window(live, ip) { window_pos(live, ip) } else { live.len() as int };
    assert(nw[pos].ip == ip);
    assert forall|k: int| 0 <= k < nw.len() && nw[k].ip == ip implies k == pos by {
        if k != pos {
            if has_window(live, ip) {
                assert(nw[k] == live[k]);
                if k < pos {
                    assert(live[k].ip != live[pos].ip);
                } else {
                    assert(live[pos].ip != live[k].ip);
                }
            } else {
                assert(nw[k] == live[k]);
                assert(!(live[k].ip == ip));
            }
        }
    }
    if still_open(later, window_seconds)(nw[pos]) {
        assert(own_window(nw, ip, later, window_seconds) == Some(nw[pos]));
    } else {
        if own_window(nw, ip, later, window_seconds) is Some {
            let k = choose|k: int| 0 <= k < nw.len() && nw[k].ip == ip && still_open(later, window_seconds)(#[trigger] nw[k]);
        }
    }
}

/// Requests from other addresses do not change how an address is answered:
/// after a request from `other` at `now`, the window of `ip` that is open at
/// any `later` time is the one it would have had, so its next answer is the
/// one it would have had, and so is its window afterwards.
pub proof fn law_other_addresses_do_not_interfere(
    ws: Seq<RateWindow>,
    ip: Seq<char>,
    other: Seq<char>,
    other_max: u32,
    max_requests: u32,
    window_seconds: u64,
    now: u64,
    later: u64,
)
    requires
        distinct_ips(ws),
        ip != other,
        now <= later,
    ensures
        own_window(rate_step(ws, other, other_max, window_seconds, now).0, ip, later, window_seconds) == own_window(
            ws,
            ip,
            later,
            window_seconds,
        ),
        rate_step(rate_step(ws, other, other_max, window_seconds, now).0, ip, max_requests, window_seconds, later).1
            == rate_step(ws, ip, max_requests, window_seconds, later).1,
        forall|t: u64|
            #![trigger own_window(rate_step(ws, ip, max_requests, window_seconds, later).0, ip, t, window_seconds)]
            own_window(
                rate_step(rate_step(ws, other, other_max, window_seconds, now).0, ip, max_requests, window_seconds, later).0,
                ip,
                t,
                window_seconds,
            ) == own_window(rate_step(ws, ip, max_requests, window_seconds, later).0, ip, t, window_seconds),
{
    let ws1 = rate_step(ws, other, other_max, window_seconds, now).0;
    lemma_rate_step_distinct(ws, other, other_max, window_seconds, now);
    lemma_other_step_entries(ws, ip, other, other_max, window_seconds, now);
    lemma_own_window(ws, ip, later, window_seconds);
    lemma_own_window(ws1, ip, later, window_seconds);
    if own_window(ws, ip, later, window_seconds) is Some {
        let i = choose|i: int| 0 <= i < ws.len() && ws[i].ip == ip && still_open(later, window_seconds)(#[trigger] ws[i]);
        lemma_open_earlier(ws[i], now, later, window_seconds);
        let k = choose|k: int| 0 <= k < ws1.len() && ws1[k] == ws[i];
        assert(still_open(later, window_seconds)(ws1[k]));
    }
    if own_window(ws1, ip, later, window_seconds) is Some {
        let k = choose|k: int| 0 <= k < ws1.len() && ws1[k].ip == ip && still_open(later, window_seconds)(#[trigger] ws1[k]);
        let i = choose|i: int| 0 <= i < ws.len() && ws[i] == ws1[k] && still_open(now, window_seconds)(ws[i]);
        assert(still_open(later, window_seconds)(ws[i]));
    }
    assert forall|t: u64|
        #![trigger own_window(rate_step(ws, ip, max_requests, window_seconds, later).0, ip, t, window_seconds)]
        own_window(rate_step(ws1, ip, max_requests, window_seconds, later).0, ip, t, window_seconds) == own_window(
            rate_step(ws, ip, max_requests, window_seconds, later).0,
            ip,
            t,
            window_seconds,
        ) by {
        lemma_own_step_window(ws1, ip, max_requests, window_seconds, later, t);
        lemma_own_step_window(ws, ip, max_requests, window_seconds, later, t);
    }
}

/// A refused address stays refused until its window closes: after a
/// refusal at `now`, another request from it at `later`, while the window
/// it had is still open, is refused too. Each refusal tells the seconds
/// left in the window, between 1 and `window_seconds`.
pub proof fn law_refused_until_window_closes(
    ws: Seq<RateWindow>,
    ip: Seq<char>,
    max_requests: u32,
    window_seconds: u64,
    now: u64,
    later: u64,
)
    requires
        distinct_ips(ws),
        window_seconds > 0,
        rate_step(ws, ip, max_requests, window_seconds, now).1 is Err,
        now <= later,
        own_window(rate_step(ws, ip, max_requests, window_seconds, now).0, ip, later, window_seconds) is Some,
    ensures
        rate_step(rate_step(ws, ip, max_requests, window_seconds, now).0, ip, max_requests, window_seconds, later).1
            is Err,
        1 <= rate_step(ws, ip, max_requests, window_seconds, now).1->Err_0 <= window_seconds,
        1 <= rate_step(
            rate_step(ws, ip, max_requests, window_seconds, now).0,
            ip,
            max_requests,
            window_seconds,
            later,
        ).1->Err_0 <= window_seconds,
{
    let ws1 = rate_step(ws, ip, max_requests, window_seconds, now).0;
    lemma_own_step_window(ws, ip, max_requests, window_seconds, now, later);
    let w = own_window(ws1, ip, later, window_seconds)->Some_0;
    assert(w.count >= max_requests);
    assert(elapsed_ms(later, w.start) < window_seconds * 1000);
    assert(elapsed_ms(later, w.start) / 1000 < window_seconds as int) by (nonlinear_arith)
        requires
            elapsed_ms(later, w.start) < window_seconds * 1000,
            elapsed_ms(later, w.start) >= 0,
    ;
    let live = open_windows(ws, now, window_seconds);
    if has_window(live, ip) {
        let x = live[window_pos(live, ip)];
        assert(x.count >= max_requests);
        lemma_keep_origin(ws, still_open(now, window_seconds));
        assert(elapsed_ms(now, x.start) / 1000 < window_seconds as int) by (nonlinear_arith)
            requires
                elapsed_ms(now, x.start) < window_seconds * 1000,
                elapsed_ms(now, x.start) >= 0,
        ;
    }
}

/// One request: its address, the limit it is counted against, and when it
/// came (milliseconds of the limiter's clock).
pub struct RateCall {
    pub ip: Seq<char>,
    pub max_requests: u32,
    pub at: u64,
}

/// The windows and answers after each of `calls`, in turn.
pub open spec fn run_calls(ws: Seq<RateWindow>, calls: Seq<RateCall>, window_seconds: u64) -> (
    Seq<RateWindow>,
    Seq<Result<(), u64>>,
)
    decreases calls.len(),
{
    if calls.len() == 0 {
        (ws, Seq::empty())
    } else {
        let before = run_calls(ws, calls.drop_last(), window_seconds);
        let c = calls.last();
        let step = rate_step(before.0, c.ip, c.max_requests, window_seconds, c.at);
        (step.0, before.1.push(step.1))
    }
}

/// The answers to the requests of `ip` among `calls`, in order.
pub open spec fn answers_for(ws: Seq<RateWindow>, calls: Seq<RateCall>, ip: Seq<char>, window_seconds: u64) -> Seq<
    Result<(), u64>,
>
    decreases calls.len(),
{
    if calls.len() == 0 {
        Seq::empty()
    } else {
        let prev = answers_for(ws, calls.drop_last(), ip, window_seconds);
        if calls.last().ip == ip {
            prev.push(run_calls(ws, calls, window_seconds).1.last())
        } else {
            prev
        }
    }
}

/// The times of the requests of `ip` among `calls`, in order.
pub open spec fn times_for(calls: Seq<RateCall>, ip: Seq<char>) -> Seq<u64>
    decreases calls.len(),
{
    if calls.len() == 0 {
        Seq::empty()
    } else {
        let prev = times_for(calls.drop_last(), ip);
        if calls.last().ip == ip {
            prev.push(calls.last().at)
        } else {
            prev
        }
    }
}

proof fn lemma_answer_by_own_window(
    x: Seq<RateWindow>,
    y: Seq<RateWindow>,
    ip: Seq<char>,
    max_requests: u32,
    window_seconds: u64,
    now: u64,
)
    requires
        own_window(x, ip, now, window_seconds) == own_window(y, ip, now, window_seconds),
    ensures
        rate_step(x, ip, max_requests, window_seconds, now).1 == rate_step(y, ip, max_requests, window_seconds, now).1,
{
}

proof fn lemma_run_distinct(ws: Seq<RateWindow>, ip: Seq<char>, max_requests: u32, window_seconds: u64, times: Seq<u64>)
    requires
        distinct_ips(ws),
    ensures
        distinct_ips(run(ws, ip, max_requests, window_seconds, times).0),
    decreases times.len(),
{
    if times.len() > 0 {
        lemma_run_distinct(ws, ip, max_requests, window_seconds, times.drop_last());
        lemma_rate_step_distinct(
            run(ws, ip, max_requests, window_seconds, times.drop_last()).0,
            ip,
            max_requests,
            window_seconds,
            times.last(),
        );
    }
}

proof fn lemma_interleaving(
    ws: Seq<RateWindow>,
    calls: Seq<RateCall>,
    ip: Seq<char>,
    max_requests: u32,
    window_seconds: u64,
)
    requires
        distinct_ips(ws),
        forall|i: int, j: int| 0 <= i <= j < calls.len() ==> (#[trigger] calls[i]).at <= (#[trigger] calls[j]).at,
        forall|i: int| 0 <= i < calls.len() && (#[trigger] calls[i]).ip == ip ==> calls[i].max_requests == max_requests,
    ensures
        distinct_ips(run_calls(ws, calls, window_seconds).0),
        answers_for(ws, calls, ip, window_seconds) == run(ws, ip, max_requests, window_seconds, times_for(calls, ip)).1,
        forall|t: u64|
            (forall|i: int| 0 <= i < calls.len() ==> (#[trigger] calls[i]).at <= t) ==> #[trigger] own_window(
                run_calls(ws, calls, window_seconds).0,
                ip,
                t,
                window_seconds,
            ) == own_window(run(ws, ip, max_requests, window_seconds, times_for(calls, ip)).0, ip, t, window_seconds),
    decreases calls.len(),
{
    if calls.len() > 0 {
        let prev = calls.drop_last();
        let c = calls.last();
        assert forall|i: int, j: int| 0 <= i <= j < prev.len() implies (#[trigger] prev[i]).at <= (
        #[trigger] prev[j]).at by {
            assert(prev[i] == calls[i] && prev[j] == calls[j]);
        }
        assert forall|i: int| 0 <= i < prev.len() && (#[trigger] prev[i]).ip == ip implies prev[i].max_requests
            == max_requests by {
            assert(prev[i] == calls[i]);
        }
        lemma_interleaving(ws, prev, ip, max_requests, window_seconds);
        let a = run_calls(ws, prev, window_seconds).0;
        let tp = times_for(prev, ip);
        let b = run(ws, ip, max_requests, window_seconds, tp).0;
        lemma_run_distinct(ws, ip, max_requests, window_seconds, tp);
        lemma_rate_step_distinct(a, c.ip, c.max_requests, window_seconds, c.at);
        assert forall|i: int| 0 <= i < prev.len() implies (#[trigger] prev[i]).at <= c.at by {
            assert(prev[i] == calls[i]);
            assert(calls[calls.len() - 1] == c);
        }
        assert(own_window(a, ip, c.at, window_seconds) == own_window(b, ip, c.at, window_seconds));
        if c.ip == ip {
            assert(c.max_requests == max_requests) by {
                assert(calls[calls.len() - 1] == c);
            }
            let tc = times_for(calls, ip);
            assert(tc == tp.push(c.at));
            assert(tc.drop_last() =~= tp);
            lemma_answer_by_own_window(a, b, ip, max_requests, window_seconds, c.at);
            assert forall|t: u64|
                (forall|i: int| 0 <= i < calls.len() ==> (#[trigger] calls[i]).at <= t) implies #[trigger] own_window(
                run_calls(ws, calls, window_seconds).0,
                ip,
                t,
                window_seconds,
            ) == own_window(run(ws, ip, max_requests, window_seconds, tc).0, ip, t, window_seconds) by {
                lemma_own_step_window(a, ip, max_requests, window_seconds, c.at, t);
                lemma_own_step_window(b, ip, max_requests, window_seconds, c.at, t);
            }
            assert(answers_for(ws, calls, ip, window_seconds) =~= run(ws, ip, max_requests, window_seconds, tc).1);
        } else {
            assert(times_for(calls, ip) == tp);
            assert forall|t: u64|
                (forall|i: int| 0 <= i < calls.len() ==> (#[trigger] calls[i]).at <= t) implies #[trigger] own_window(
                run_calls(ws, calls, window_seconds).0,
                ip,
                t,
                window_seconds,
            ) == own_window(b, ip, t, window_seconds) by {
                assert(calls[calls.len() - 1] == c);
                assert(c.at <= t);
                assert forall|i: int| 0 <= i < prev.len() implies (#[trigger] prev[i]).at <= t by {
                    assert(prev[i] == calls[i]);
                }
                law_other_addresses_do_not_interfere(a, ip, c.ip, c.max_requests, max_requests, window_seconds, c.at, t);
            }
        }
    }
}

/// Requests from other addresses, interleaved in any way, do not change how
/// an address is answered: over any run of requests in time order, the
/// answers to the requests of `ip` (all counted against `max_requests`) are
/// the answers its requests alone would get.
pub proof fn law_interleaved_requests(
    ws: Seq<RateWindow>,
    calls: Seq<RateCall>,
    ip: Seq<char>,
    max_requests: u32,
    window_seconds: u64,
)
    requires
        distinct_ips(ws),
        forall|i: int, j: int| 0 <= i <= j < calls.len() ==> (#[trigger] calls[i]).at <= (#[trigger] calls[j]).at,
        forall|i: int| 0 <= i < calls.len() && (#[trigger] calls[i]).ip == ip ==> calls[i].max_requests == max_requests,
    ensures
        answers_for(ws, calls, ip, window_seconds) == run(ws, ip, max_requests, window_seconds, times_for(calls, ip)).1,
{
    lemma_interleaving(ws, calls, ip, max_requests, window_seconds);
}

/// An address is let through exactly the first `max_requests` of its
/// requests in a window, whatever other addresses do in between: when its
/// requests all fall within the window opened by the first of them, its
/// `i`-th request passes exactly when `i < max_requests`.
pub proof fn law_window_admits_first_requests_among_others(
    ws: Seq<RateWindow>,
    calls: Seq<RateCall>,
    ip: Seq<char>,
    max_requests: u32,
    window_seconds: u64,
)
    requires
        distinct_ips(ws),
        window_seconds > 0,
        forall|i: int, j: int| 0 <= i <= j < calls.len() ==> (#[trigger] calls[i]).at <= (#[trigger] calls[j]).at,
        forall|i: int| 0 <= i < calls.len() && (#[trigger] calls[i]).ip == ip ==> calls[i].max_requests == max_requests,
        times_for(calls, ip).len() > 0,
        !has_window(open_windows(ws, times_for(calls, ip)[0], window_seconds), ip),
        forall|i: int|
            0 <= i < times_for(calls, ip).len() ==> #[trigger] times_for(calls, ip)[i] - times_for(calls, ip)[0]
                < window_seconds * 1000,
    ensures
        answers_for(ws, calls, ip, window_seconds).len() == times_for(calls, ip).len(),
        forall|i: int|
            0 <= i < times_for(calls, ip).len() ==> (#[trigger] answers_for(ws, calls, ip, window_seconds)[i] is Ok
                <==> i < max_requests),
{
    lemma_interleaving(ws, calls, ip, max_requests, window_seconds);
    lemma_times_for_sorted(calls, ip);
    law_at_most_max_requests_per_window(ws, ip, max_requests, window_seconds, times_for(calls, ip));
}

proof fn lemma_times_for_sorted(calls: Seq<RateCall>, ip: Seq<char>)
    requires
        forall|i: int, j: int| 0 <= i <= j < calls.len() ==> (#[trigger] calls[i]).at <= (#[trigger] calls[j]).at,
    ensures
        forall|i: int, j: int|
            0 <= i <= j < times_for(calls, ip).len() ==> times_for(calls, ip)[i] <= times_for(calls, ip)[j],
        forall|i: int| 0 <= i < times_for(calls, ip).len() ==> exists|k: int|
            0 <= k < calls.len() && calls[k].at == #[trigger] times_for(calls, ip)[i],
    decreases calls.len(),
{
    if calls.len() > 0 {
        let prev = calls.drop_last();
        assert forall|i: int, j: int| 0 <= i <= j < prev.len() implies (#[trigger] prev[i]).at <= (
        #[trigger] prev[j]).at by {
            assert(prev[i] == calls[i] && prev[j] == calls[j]);
        }
        lemma_times_for_sorted(prev, ip);
        let tp = times_for(prev, ip);
        let c = calls.last();
        assert forall|i: int| 0 <= i < tp.len() implies exists|k: int|
            0 <= k < calls.len() && calls[k].at == #[trigger] tp[i] by {
            let k = choose|k: int| 0 <= k < prev.len() && prev[k].at == tp[i];
            assert(calls[k] == prev[k]);
        }
        if c.ip == ip {
            let tc = tp.push(c.at);
            assert forall|i: int| 0 <= i < tp.len() implies tp[i] <= c.at by {
                let k = choose|k: int| 0 <= k < calls.len() && calls[k].at == tp[i];
                assert(calls[calls.len() - 1] == c);
            }
            assert forall|i: int| 0 <= i < tc.len() implies exists|k: int|
                0 <= k < calls.len() && calls[k].at == #[trigger] tc[i] by {
                if i < tp.len() {
                    assert(tc[i] == tp[i]);
                } else {
                    assert(calls[calls.len() - 1].at == tc[i]);
                }
            }
        }
    }
}

} // verus!
