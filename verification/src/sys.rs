//! The wall clock, as the stores read it, and random identifiers.

use vstd::prelude::*;
use std::time::Duration;
use std::time::Instant;
use vstd::string::*;
use crate::seqs::{keep, lemma_keep_take_step};
use crate::text::{remove_hyphens, without_hyphens};

verus! {

/// The latest millisecond timestamp the clock can report: chrono's UTC
/// date range ends in the year 262142, well below this bound.
pub const MAX_CLOCK_MILLIS: i64 = 10_000_000_000_000_000;

/// The latest second timestamp the clock can report.
pub const MAX_CLOCK_SECONDS: i64 = 10_000_000_000_000;

/// `chrono::Utc::now()` as milliseconds since the Unix epoch.
///
/// Trusted: the value depends on the machine's clock, so nothing is claimed
/// of it but the range that chrono's `Utc::now` can return at all (it panics
/// on a clock before the epoch, so it is never negative).
#[verifier::external_body]
pub(crate) fn now_millis() -> (t: i64)
    ensures
        0 <= t <= MAX_CLOCK_MILLIS,
{
    chrono::Utc::now().timestamp_millis()
}

/// The current time in whole seconds since the Unix epoch.
pub(crate) fn now_seconds() -> (t: i64)
    ensures
        0 <= t <= MAX_CLOCK_SECONDS,
{
    now_millis() / 1000
}

/// A lowercase hexadecimal digit.
pub open spec fn is_hex_digit(c: char) -> bool {
    ('0' <= c && c <= '9') || ('a' <= c && c <= 'f')
}

/// The text of a UUID in hyphenated form: 32 lowercase hex digits in groups
/// of 8, 4, 4, 4 and 12, separated by hyphens.
pub open spec fn is_uuid_hyphenated(s: Seq<char>) -> bool {
    &&& s.len() == 36
    &&& forall|i: int|
        0 <= i < 36 ==> if i == 8 || i == 13 || i == 18 || i == 23 {
            s[i] == '-'
        } else {
            is_hex_digit(s[i])
        }
}

/// A fresh random (version 4) UUID from `uuid::Uuid::new_v4`, in hyphenated form.
///
/// Trusted: the value is random, so only its shape is claimed, which is how
/// the uuid crate's `Display` formats every UUID.
#[verifier::external_body]
pub(crate) fn random_uuid() -> (r: String)
    ensures
        is_uuid_hyphenated(r@),
{
    uuid::Uuid::new_v4().to_string()
}

/// Whether `s` is `prefix` followed by 32 lowercase hex digits.
pub open spec fn credential_shaped(s: Seq<char>, prefix: Seq<char>) -> bool {
    &&& s.len() == prefix.len() + 32
    &&& s.subrange(0, prefix.len() as int) == prefix
    &&& forall|i: int| prefix.len() <= i < s.len() ==> is_hex_digit(#[trigger] s[i])
}

/// The number of the hyphens of a hyphenated UUID that come before position `i`.
spec fn hyphens_before(i: int) -> int {
    (if i > 8 { 1int } else { 0int }) + (if i > 13 { 1int } else { 0int }) + (if i > 18 { 1int } else { 0int })
        + (if i > 23 { 1int } else { 0int })
}

/// The characters of `s` before position `i` that are not hyphens.
spec fn unhyphened_prefix(s: Seq<char>, i: int) -> Seq<char> {
    keep(s.take(i), |c: char| c != '-')
}

proof fn lemma_uuid_prefix(s: Seq<char>, i: int)
    requires
        is_uuid_hyphenated(s),
        0 <= i <= 36,
    ensures
        unhyphened_prefix(s, i).len() == i - hyphens_before(i),
        forall|k: int| 0 <= k < unhyphened_prefix(s, i).len() ==> is_hex_digit(#[trigger] unhyphened_prefix(s, i)[k]),
    decreases i,
{
    let p = |c: char| c != '-';
    if i == 0 {
        assert(s.take(0) =~= Seq::<char>::empty());
    } else {
        lemma_uuid_prefix(s, i - 1);
        lemma_keep_take_step(s, i - 1, p);
        let k0 = keep(s.take(i - 1), p);
        if p(s[i - 1]) {
            assert(is_hex_digit(s[i - 1]));
            assert forall|k: int| 0 <= k < k0.push(s[i - 1]).len() implies is_hex_digit(#[trigger] k0.push(s[i - 1])[k]) by {
                if k < k0.len() {
                    assert(k0.push(s[i - 1])[k] == k0[k]);
                }
            }
        }
    }
}

/// A hyphenated UUID without its hyphens is 32 lowercase hex digits.
pub proof fn lemma_uuid_hex(s: Seq<char>)
    requires
        is_uuid_hyphenated(s),
    ensures
        without_hyphens(s).len() == 32,
        forall|k: int| 0 <= k < 32 ==> is_hex_digit(#[trigger] without_hyphens(s)[k]),
{
    lemma_uuid_prefix(s, 36);
    assert(s.take(36) =~= s);
    assert(unhyphened_prefix(s, 36) == without_hyphens(s));
}

/// `prefix` followed by 32 random lowercase hex digits: the digits of a
/// fresh random UUID.
pub(crate) fn random_credential(prefix: &str) -> (r: String)
    ensures
        credential_shaped(r@, prefix@),
{
    let u = random_uuid();
    let mut out = String::from_str(prefix);
    out.append(remove_hyphens(u.as_str()).as_str());
    proof {
        lemma_uuid_hex(u@);
        assert(out@.subrange(0, prefix@.len() as int) =~= prefix@);
        assert forall|i: int| prefix@.len() <= i < out@.len() implies is_hex_digit(#[trigger] out@[i]) by {
            assert(out@[i] == without_hyphens(u@)[i - prefix@.len()]);
        }
    }
    out
}

#[verifier::external_type_specification]
#[verifier::external_body]
pub struct ExInstant(Instant);

/// `std::time::Instant::now`: a reading of the monotonic clock.
///
/// Trusted, with nothing claimed of the reading.
#[verifier::external_body]
fn instant_now() -> Instant {
    Instant::now()
}

/// `std::time::Instant::elapsed`: the time since `origin`.
///
/// Trusted, with nothing claimed: the value depends on the clock.
#[verifier::external_body]
fn elapsed_since(origin: &Instant) -> Duration {
    origin.elapsed()
}

/// `std::time::Duration::as_millis`: the whole milliseconds in `d`.
///
/// Trusted, with nothing claimed: a `Duration` is opaque here.
#[verifier::external_body]
fn whole_millis(d: &Duration) -> u128 {
    d.as_millis()
}

/// A monotonic clock that counts milliseconds from the moment it was made.
pub struct MonotonicClock {
    origin: Instant,
}

impl MonotonicClock {
    /// A clock that starts now.
    pub fn new() -> MonotonicClock {
        MonotonicClock { origin: instant_now() }
    }

    /// Whole milliseconds since the clock was made, saturating at `u64::MAX`.
    pub fn millis(&self) -> u64 {
        let d = elapsed_since(&self.origin);
        let ms = whole_millis(&d);
        if ms > 18_446_744_073_709_551_615u128 {
            u64::MAX
        } else {
            ms as u64
        }
    }
}

} // verus!
