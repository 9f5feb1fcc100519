//! Request rate limiting per client address, and how the client address is
//! read from a request.

use vstd::prelude::*;
use crate::sys::MonotonicClock;
use crate::seqs::{keep, lemma_keep_ordered, lemma_keep_take_step, lemma_take_full, ordered_by};
use vstd::string::*;
use crate::text::{first_field, first_field_of, str_eq, trim, trimmed};

verus! {

/// The rate window of one client address: when it opened (in milliseconds
/// of the limiter's clock) and how many requests it has let through.
pub struct RateWindow {
    pub ip: Seq<char>,
    pub start: u64,
    pub count: u32,
}

struct WindowRow {
    ip: String,
    start: u64,
    count: u32,
}

impl WindowRow {
    spec fn view(&self) -> RateWindow {
        RateWindow { ip: self.ip@, start: self.start, count: self.count }
    }
}

/// Milliseconds from `start` to `now`; a clock reading before `start`
/// counts as no time at all.
pub open spec fn elapsed_ms(now: u64, start: u64) -> int {
    if now >= start {
        now - start
    } else {
        0
    }
}

/// Whether a window is still open at `now`, for windows of `window_seconds`.
pub open spec fn still_open(now: u64, window_seconds: u64) -> spec_fn(RateWindow) -> bool {
    |w: RateWindow| elapsed_ms(now, w.start) < window_seconds * 1000
}

/// The windows that are still open at `now`.
pub open spec fn open_windows(ws: Seq<RateWindow>, now: u64, window_seconds: u64) -> Seq<RateWindow> {
    keep(ws, still_open(now, window_seconds))
}

/// Whether address `ip` has a window.
pub open spec fn has_window(ws: Seq<RateWindow>, ip: Seq<char>) -> bool {
    exists|k: int| 0 <= k < ws.len() && ws[k].ip == ip
}

/// The position of the window of `ip` (meaningful when it has one).
pub open spec fn window_pos(ws: Seq<RateWindow>, ip: Seq<char>) -> int {
    choose|k: int| 0 <= k < ws.len() && ws[k].ip == ip
}

/// No address has two windows.
pub open spec fn distinct_ips(ws: Seq<RateWindow>) -> bool {
    ordered_by(ws, |a: RateWindow, b: RateWindow| a.ip != b.ip)
}

/// One request from `ip` at `now`, with at most `max_requests` requests per
/// window of `window_seconds`: the windows afterwards and the answer, which
/// is `Err` with the seconds left until the window closes when the request
/// is refused.
///
/// Windows that have closed are dropped first. A request from an address
/// without an open window opens one. A request within an open window passes
/// while fewer than `max_requests` have passed in it.
pub open spec fn rate_step(
    ws: Seq<RateWindow>,
    ip: Seq<char>,
    max_requests: u32,
    window_seconds: u64,
    now: u64,
) -> (Seq<RateWindow>, Result<(), u64>) {
    let live = open_windows(ws, now, window_seconds);
    if has_window(live, ip) {
        let k = window_pos(live, ip);
        let x = live[k];
        if x.count < max_requests {
            (live.update(k, RateWindow { count: (x.count + 1) as u32, ..x }), Ok(()))
        } else {
            (live, Err((window_seconds - elapsed_ms(now, x.start) / 1000) as u64))
        }
    } else if window_seconds == 0 || max_requests > 0 {
        (live.push(RateWindow { ip, start: now, count: 1 }), Ok(()))
    } else {
        (live.push(RateWindow { ip, start: now, count: 0 }), Err(window_seconds))
    }
}

/// Per-address request counting over fixed windows that open at an
/// address's first request.
pub struct RateLimitState {
    clock: MonotonicClock,
    windows: Vec<WindowRow>,
}

impl RateLimitState {
    /// The open windows.
    pub closed spec fn windows(&self) -> Seq<RateWindow> {
        self.windows@.map_values(|w: WindowRow| w.view())
    }

    pub open spec fn wf(&self) -> bool {
        distinct_ips(self.windows())
    }

    /// A limiter with no windows, whose clock starts now.
    pub fn new() -> (s: RateLimitState)
        ensures
            s.wf(),
            s.windows() == Seq::<RateWindow>::empty(),
    {
        let s = RateLimitState { clock: MonotonicClock::new(), windows: Vec::new() };
        proof {
            assert(s.windows() =~= Seq::<RateWindow>::empty());
        }
        s
    }

    /// Counts one request from `ip` at `now` (milliseconds of the limiter's
    /// clock) against at most `max_requests` per `window_seconds`; see
    /// `rate_step`.
    pub fn check_and_update_at(&mut self, ip: &str, max_requests: u32, window_seconds: u64, now: u64) -> (r:
        Result<(), u64>)
        requires
            old(self).wf(),
        ensures
            final(self).wf(),
            (final(self).windows(), r) == rate_step(old(self).windows(), ip@, max_requests, window_seconds, now),
    {
        let ghost ws = self.windows();
        let ghost p = still_open(now, window_seconds);
        let limit: u128 = (window_seconds as u128) * 1000;
        let mut kept: Vec<WindowRow> = Vec::new();
        let mut i: usize = 0;
        while i < self.windows.len()
            invariant
                0 <= i <= self.windows@.len(),
                ws == self.windows(),
                ws.len() == self.windows@.len(),
                p == still_open(now, window_seconds),
                limit == window_seconds * 1000,
                kept@.map_values(|w: WindowRow| w.view()) == keep(ws.take(i as int), p),
            decreases self.windows@.len() - i,
        {
            proof {
                assert(ws[i as int] == self.windows@[i as int].view());
                lemma_keep_take_step(ws, i as int, p);
            }
            let w = &self.windows[i];
            let e: u64 = if now >= w.start { now - w.start } else { 0 };
            if (e as u128) < limit {
                let ghost before = kept@;
                kept.push(WindowRow { ip: w.ip.clone(), start: w.start, count: w.count });
                proof {
                    assert(kept@.map_values(|w: WindowRow| w.view()) =~= before.map_values(
                        |w: WindowRow| w.view(),
                    ).push(ws[i as int]));
                }
            }
            i = i + 1;
        }
        proof {
            lemma_take_full(ws);
            lemma_keep_ordered(ws, p, |a: RateWindow, b: RateWindow| a.ip != b.ip);
        }
        self.windows = kept;
        let ghost live = self.windows();
        assert(live == open_windows(ws, now, window_seconds));
        let mut j: usize = 0;
        while j < self.windows.len()
            invariant
                0 <= j <= self.windows@.len(),
                live == self.windows(),
                live.len() == self.windows@.len(),
                forall|k: int| 0 <= k < j ==> live[k].ip != ip@,
            ensures
                0 <= j <= self.windows@.len(),
                live == self.windows(),
                live.len() == self.windows@.len(),
                forall|k: int| 0 <= k < j ==> live[k].ip != ip@,
                j < self.windows@.len() ==> live[j as int].ip == ip@,
            decreases self.windows@.len() - j,
        {
            assert(live[j as int] == self.windows@[j as int].view());
            if str_eq(self.windows[j].ip.as_str(), ip) {
                break;
            }
            j = j + 1;
        }
        if j < self.windows.len() {
            proof {
                assert(live[j as int].ip == ip@);
                let k = window_pos(live, ip@);
                if k != j {
                    if k < j {
                        assert(live[k].ip != ip@);
                    } else {
                        assert(live[j as int].ip != live[k].ip);
                    }
                }
            }
            let start = self.windows[j].start;
            let c = self.windows[j].count;
            if c < max_requests {
                let row = WindowRow { ip: self.windows[j].ip.clone(), start, count: c + 1 };
                self.windows.set(j, row);
                proof {
                    let nw = self.windows();
                    assert(nw =~= live.update(j as int, RateWindow { count: (c + 1) as u32, ..live[j as int] }));
                    assert forall|a: int, b: int| 0 <= a < b < nw.len() implies (#[trigger] nw[a]).ip != (#[trigger] nw[b]).ip by {
                        assert(nw[a].ip == live[a].ip && nw[b].ip == live[b].ip);
                    }
                }
                Ok(())
            } else {
                let e: u64 = if now >= start { now - start } else { 0 };
                proof {
                    crate::seqs::lemma_keep_origin(ws, p);
                    let q = choose|q: int| 0 <= q < ws.len() && #[trigger] live[j as int] == ws[q] && p(ws[q]);
                    assert(p(live[j as int]));
                    assert(e == elapsed_ms(now, live[j as int].start));
                    assert(e < window_seconds * 1000);
                    assert(e / 1000 < window_seconds) by (nonlinear_arith)
                        requires e < window_seconds * 1000;
                }
                Err(window_seconds.saturating_sub(e / 1000))
            }
        } else {
            let first: u32 = if window_seconds == 0 || max_requests > 0 { 1 } else { 0 };
            self.windows.push(WindowRow { ip: String::from_str(ip), start: now, count: first });
            proof {
                let nw = self.windows();
                assert(nw =~= live.push(RateWindow { ip: ip@, start: now, count: first }));
                assert forall|a: int, b: int| 0 <= a < b < nw.len() implies (#[trigger] nw[a]).ip != (#[trigger] nw[b]).ip by {
                    if b < live.len() {
                        assert(nw[a] == live[a] && nw[b] == live[b]);
                    } else {
                        assert(nw[a] == live[a]);
                    }
                }
            }
            if first == 1 {
                Ok(())
            } else {
                Err(window_seconds)
            }
        }
    }

    /// Counts one request from `ip` now against at most `max_requests` per
    /// `window_seconds`: `Ok` when it may pass, otherwise `Err` with the
    /// seconds until the address's window closes.
    pub fn check_and_update(&mut self, ip: &str, max_requests: u32, window_seconds: u64) -> (r: Result<
        (),
        u64,
    >)
        requires
            old(self).wf(),
        ensures
            final(self).wf(),
            exists|now: u64|
                (final(self).windows(), r) == #[trigger] rate_step(
                    old(self).windows(),
                    ip@,
                    max_requests,
                    window_seconds,
                    now,
                ),
    {
        let now = self.clock.millis();
        self.check_and_update_at(ip, max_requests, window_seconds, now)
    }
}

/// The limits applied by the rate limiter.
#[derive(Clone, Copy)]
pub struct RateLimitConfig {
    pub max_requests: u32,
    pub window_seconds: u64,
}

/// The view of an optional string slice.
pub open spec fn opt_str(o: Option<&str>) -> Option<Seq<char>> {
    match o {
        Some(s) => Some(s@),
        None => None,
    }
}

/// The client address of a request: the `X-Real-IP` header as it stands;
/// else the first entry of `X-Forwarded-For`, trimmed; else the address of
/// the connection; else `unknown`.
pub open spec fn client_ip(
    real_ip: Option<Seq<char>>,
    forwarded_for: Option<Seq<char>>,
    remote_ip: Option<Seq<char>>,
) -> Seq<char> {
    match real_ip {
        Some(r) => r,
        None => match forwarded_for {
            Some(f) => trimmed(first_field(f, ',')),
            None => match remote_ip {
                Some(a) => a,
                None => "unknown"@,
            },
        },
    }
}

/// The client address of a request, from its `X-Real-IP` and
/// `X-Forwarded-For` headers (where they are readable text) and the
/// connection's address; see `client_ip`.
pub fn extract_client_ip(real_ip: Option<&str>, forwarded_for: Option<&str>, remote_ip: Option<&str>) -> (r:
    String)
    ensures
        r@ == client_ip(opt_str(real_ip), opt_str(forwarded_for), opt_str(remote_ip)),
{
    if let Some(r) = real_ip {
        return String::from_str(r);
    }
    if let Some(f) = forwarded_for {
        let first = first_field_of(f, ',');
        return trim(first.as_str());
    }
    match remote_ip {
        Some(a) => String::from_str(a),
        None => {
            let u = "unknown";
            proof {
                reveal_strlit("unknown");
            }
            String::from_str(u)
        },
    }
}

} // verus!
