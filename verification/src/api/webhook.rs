//! Which callback addresses an agent may register: the check that keeps
//! wake-up calls away from loopback, private and metadata addresses.

use vstd::prelude::*;
use vstd::string::*;
use crate::text::{decimal, push_decimal, str_eq};

verus! {

/// Whether `url::Url::parse` accepts `raw`.
pub uninterp spec fn url_parse_ok(raw: Seq<char>) -> bool;

/// The text of the error with which `url::Url::parse` refuses `raw`.
pub uninterp spec fn url_parse_error(raw: Seq<char>) -> Seq<char>;

/// `Url::scheme` of the URL that `raw` parses to.
pub uninterp spec fn url_scheme(raw: Seq<char>) -> Seq<char>;

/// `Url::host_str` of the URL that `raw` parses to.
pub uninterp spec fn url_host_str(raw: Seq<char>) -> Option<Seq<char>>;

/// `Url::host` of the URL that `raw` parses to, when it is an IP address:
/// the four octets of an IPv4 address or the eight segments of an IPv6 one.
pub uninterp spec fn url_ip_host(raw: Seq<char>) -> Option<Seq<u16>>;

/// The parts of a parsed URL that the callback check reads.
pub struct UrlParts {
    pub scheme: String,
    pub host: Option<String>,
    pub ip: Option<Vec<u16>>,
}

/// The view of an optional string.
pub open spec fn opt_text(o: Option<String>) -> Option<Seq<char>> {
    match o {
        Some(s) => Some(s@),
        None => None,
    }
}

/// The view of an optional list of numbers.
pub open spec fn opt_numbers(o: Option<Vec<u16>>) -> Option<Seq<u16>> {
    match o {
        Some(v) => Some(v@),
        None => None,
    }
}

/// `reqwest::Url::parse` (the url crate's `Url::parse`), with the scheme,
/// the host text and the IP address of the host read off the result.
///
/// Trusted: the result is named, not stated. The claims beyond the names are
/// that an IPv4 host comes as four octets and an IPv6 host as eight segments,
/// which is how the wrapper copies `Ipv4Addr::octets` and `Ipv6Addr::segments`.
#[verifier::external_body]
fn parse_url(raw: &str) -> (r: Result<UrlParts, String>)
    ensures
        r is Ok <==> url_parse_ok(raw@),
        r matches Err(e) ==> e@ == url_parse_error(raw@),
        r matches Ok(p) ==> p.scheme@ == url_scheme(raw@) && opt_text(p.host) == url_host_str(raw@)
            && opt_numbers(p.ip) == url_ip_host(raw@),
        r matches Ok(p) ==> (p.ip matches Some(v) ==> (v@.len() == 4 && forall|i: int|
            0 <= i < 4 ==> v@[i] <= 255) || v@.len() == 8),
{
    match reqwest::Url::parse(raw) {
        Ok(u) => Ok(UrlParts {
            scheme: u.scheme().to_string(),
            host: u.host_str().map(|h| h.to_string()),
            ip: match u.host() {
                Some(url::Host::Ipv4(a)) => Some(a.octets().iter().map(|b| *b as u16).collect()),
                Some(url::Host::Ipv6(a)) => Some(a.segments().to_vec()),
                _ => None,
            },
        }),
        Err(e) => Err(e.to_string()),
    }
}

/// `s` without the copies of `c` it starts with.
pub open spec fn strip_leading(s: Seq<char>, c: char) -> Seq<char>
    decreases s.len(),
{
    if s.len() > 0 && s[0] == c {
        strip_leading(s.drop_first(), c)
    } else {
        s
    }
}

/// `s` without the copies of `c` it ends with.
pub open spec fn strip_trailing(s: Seq<char>, c: char) -> Seq<char>
    decreases s.len(),
{
    if s.len() > 0 && s.last() == c {
        strip_trailing(s.drop_last(), c)
    } else {
        s
    }
}

/// A host without the brackets around an IPv6 address.
pub open spec fn unbracketed(h: Seq<char>) -> Seq<char> {
    strip_trailing(strip_leading(h, '['), ']')
}

fn unbracket(h: &str) -> (r: String)
    ensures
        r@ == unbracketed(h@),
{
    let n = h.unicode_len();
    let mut lo: usize = 0;
    proof {
        assert(h@.skip(0) =~= h@);
    }
    while lo < n && h.get_char(lo) == '['
        invariant
            n == h@.len(),
            lo <= n,
            strip_leading(h@, '[') == strip_leading(h@.skip(lo as int), '['),
        decreases n - lo,
    {
        proof {
            assert(h@.skip(lo as int).drop_first() =~= h@.skip(lo + 1));
        }
        lo = lo + 1;
    }
    proof {
        if lo < n {
            assert(h@.skip(lo as int)[0] == h@[lo as int]);
        }
        assert(h@.skip(lo as int) =~= h@.subrange(lo as int, n as int));
    }
    let mut hi: usize = n;
    while hi > lo && h.get_char(hi - 1) == ']'
        invariant
            n == h@.len(),
            lo <= hi <= n,
            unbracketed(h@) == strip_trailing(h@.subrange(lo as int, hi as int), ']'),
        decreases hi - lo,
    {
        proof {
            assert(h@.subrange(lo as int, hi as int).last() == h@[hi - 1]);
            assert(h@.subrange(lo as int, hi as int).drop_last() =~= h@.subrange(lo as int, hi - 1));
        }
        hi = hi - 1;
    }
    proof {
        if hi > lo {
            assert(h@.subrange(lo as int, hi as int).last() == h@[hi - 1]);
        }
    }
    String::from_str(h.substring_char(lo, hi))
}

/// Hosts that are refused by name.
pub open spec fn is_blocked_host(h: Seq<char>) -> bool {
    ||| h == "localhost"@
    ||| h == "127.0.0.1"@
    ||| h == "0.0.0.0"@
    ||| h == "::1"@
    ||| h == "169.254.169.254"@
    ||| h == "metadata.google.internal"@
}

fn blocked_host(h: &str) -> (r: bool)
    ensures
        r == is_blocked_host(h@),
{
    str_eq(h, "localhost") || str_eq(h, "127.0.0.1") || str_eq(h, "0.0.0.0") || str_eq(h, "::1")
        || str_eq(h, "169.254.169.254") || str_eq(h, "metadata.google.internal")
}

/// The dotted-decimal text of an IPv4 address, as `Ipv4Addr` displays it.
pub open spec fn dotted(o: Seq<u16>) -> Seq<char> {
    decimal(o[0] as nat) + "."@ + decimal(o[1] as nat) + "."@ + decimal(o[2] as nat) + "."@
        + decimal(o[3] as nat)
}

/// The refusal message for a host refused as `why`.
pub open spec fn refusal(why: Seq<char>, what: Seq<char>) -> Seq<char> {
    "callback URL blocked: "@ + why + what
}

/// The verdict on a host address: loopback, private, link-local and
/// unspecified IPv4 addresses and the IPv6 loopback address are refused.
pub open spec fn ip_verdict(ip: Option<Seq<u16>>) -> Result<(), Seq<char>> {
    match ip {
        None => Ok(()),
        Some(o) => if o.len() == 4 {
            if o[0] == 127 {
                Err(refusal("loopback IP "@, dotted(o)))
            } else if o[0] == 10 {
                Err(refusal("private IP "@, dotted(o)))
            } else if o[0] == 172 && 16 <= o[1] && o[1] <= 31 {
                Err(refusal("private IP "@, dotted(o)))
            } else if o[0] == 192 && o[1] == 168 {
                Err(refusal("private IP "@, dotted(o)))
            } else if o[0] == 169 && o[1] == 254 {
                Err(refusal("link-local IP "@, dotted(o)))
            } else if o[0] == 0 && o[1] == 0 && o[2] == 0 && o[3] == 0 {
                Err(refusal("unspecified IP "@, dotted(o)))
            } else {
                Ok(())
            }
        } else if o =~= seq![0u16, 0, 0, 0, 0, 0, 0, 1] {
            Err(refusal("loopback IP "@, "::1"@))
        } else {
            Ok(())
        },
    }
}

/// The verdict on a callback URL: it must parse, be `http` or `https`,
/// have a host, and the host must be neither a refused name nor a refused
/// address.
pub open spec fn callback_verdict(raw: Seq<char>) -> Result<(), Seq<char>> {
    if !url_parse_ok(raw) {
        Err("invalid URL: "@ + url_parse_error(raw))
    } else {
        parts_verdict(url_scheme(raw), url_host_str(raw), url_ip_host(raw))
    }
}

/// The decision on a parsed URL with scheme `scheme`, host text `host` and
/// IP host `ip`: a scheme other than `http` or `https` is refused, so is a
/// URL with no host, a host on the refused list, and a loopback, private,
/// link-local or unspecified IP address; anything else is accepted.
pub open spec fn parts_verdict(scheme: Seq<char>, host: Option<Seq<char>>, ip: Option<Seq<u16>>) -> Result<
    (),
    Seq<char>,
> {
    if scheme != "http"@ && scheme != "https"@ {
        Err("unsupported scheme: "@ + scheme)
    } else {
        match host {
            None => Err("URL must have a host"@),
            Some(h) => if is_blocked_host(unbracketed(h)) {
                Err(refusal(""@, unbracketed(h)))
            } else {
                ip_verdict(ip)
            },
        }
    }
}

/// The view of a verdict.
pub open spec fn verdict_view(r: Result<(), String>) -> Result<(), Seq<char>> {
    match r {
        Ok(()) => Ok(()),
        Err(e) => Err(e@),
    }
}

fn dotted_text(o: &Vec<u16>) -> (r: String)
    requires
        o@.len() == 4,
    ensures
        r@ == dotted(o@),
{
    let mut s = String::new();
    push_decimal(&mut s, o[0] as u64);
    s.append(".");
    push_decimal(&mut s, o[1] as u64);
    s.append(".");
    push_decimal(&mut s, o[2] as u64);
    s.append(".");
    push_decimal(&mut s, o[3] as u64);
    proof {
        assert(s@ =~= dotted(o@));
    }
    s
}

fn refuse(why: &str, what: &str) -> (r: Result<(), String>)
    ensures
        verdict_view(r) == Err::<(), Seq<char>>(refusal(why@, what@)),
{
    let mut m = String::from_str("callback URL blocked: ");
    m.append(why);
    m.append(what);
    proof {
        assert(m@ =~= refusal(why@, what@));
    }
    Err(m)
}

fn check_ip(ip: &Option<Vec<u16>>) -> (r: Result<(), String>)
    requires
        ip matches Some(v) ==> v@.len() == 4 || v@.len() == 8,
    ensures
        verdict_view(r) == ip_verdict(opt_numbers(*ip)),
{
    match ip {
        None => Ok(()),
        Some(o) => {
            if o.len() == 4 {
                let t = dotted_text(o);
                if o[0] == 127 {
                    refuse("loopback IP ", t.as_str())
                } else if o[0] == 10 {
                    refuse("private IP ", t.as_str())
                } else if o[0] == 172 && 16 <= o[1] && o[1] <= 31 {
                    refuse("private IP ", t.as_str())
                } else if o[0] == 192 && o[1] == 168 {
                    refuse("private IP ", t.as_str())
                } else if o[0] == 169 && o[1] == 254 {
                    refuse("link-local IP ", t.as_str())
                } else if o[0] == 0 && o[1] == 0 && o[2] == 0 && o[3] == 0 {
                    refuse("unspecified IP ", t.as_str())
                } else {
                    Ok(())
                }
            } else {
                let is_loopback = o[0] == 0 && o[1] == 0 && o[2] == 0 && o[3] == 0 && o[4] == 0 && o[5]
                    == 0 && o[6] == 0 && o[7] == 1;
                proof {
                    assert(is_loopback <==> o@ =~= seq![0u16, 0, 0, 0, 0, 0, 0, 1]);
                }
                if is_loopback {
                    refuse("loopback IP ", "::1")
                } else {
                    Ok(())
                }
            }
        },
    }
}

/// Decides on the parts of a parsed URL; see `parts_verdict`. The IP host,
/// when there is one, is four octets or eight segments, as parsing gives it.
pub fn check_url_parts(parts: &UrlParts) -> (r: Result<(), String>)
    requires
        parts.ip matches Some(v) ==> (v@.len() == 4 && forall|i: int| 0 <= i < 4 ==> v@[i] <= 255) || v@.len()
            == 8,
    ensures
        verdict_view(r) == parts_verdict(parts.scheme@, opt_text(parts.host), opt_numbers(parts.ip)),
{
    if !str_eq(parts.scheme.as_str(), "http") && !str_eq(parts.scheme.as_str(), "https") {
        let mut m = String::from_str("unsupported scheme: ");
        m.append(parts.scheme.as_str());
        return Err(m);
    }
    let host = match &parts.host {
        Some(h) => unbracket(h.as_str()),
        None => {
            return Err(String::from_str("URL must have a host"));
        },
    };
    if blocked_host(host.as_str()) {
        proof {
            reveal_strlit("");
        }
        return refuse("", host.as_str());
    }
    check_ip(&parts.ip)
}

/// Checks a callback URL before anything is sent to it; see `callback_verdict`.
pub fn validate_callback_url(raw_url: &str) -> (r: Result<(), String>)
    ensures
        verdict_view(r) == callback_verdict(raw_url@),
{
    let parts = match parse_url(raw_url) {
        Ok(p) => p,
        Err(e) => {
            let mut m = String::from_str("invalid URL: ");
            m.append(e.as_str());
            return Err(m);
        },
    };
    check_url_parts(&parts)
}

/// Only web addresses can be callbacks: a URL that parses with a scheme
/// other than `http` or `https` is refused, whatever its host.
pub proof fn law_only_web_schemes(raw: Seq<char>)
    requires
        url_parse_ok(raw),
        url_scheme(raw) != "http"@,
        url_scheme(raw) != "https"@,
    ensures
        callback_verdict(raw) is Err,
{
}

/// A callback whose host is a private, loopback, link-local or unspecified
/// IPv4 address is refused; a web URL whose host is a name that is not on
/// the refused list is accepted.
pub proof fn law_internal_addresses_refused(raw: Seq<char>, h: Seq<char>)
    requires
        url_parse_ok(raw),
        url_scheme(raw) == "http"@ || url_scheme(raw) == "https"@,
        url_host_str(raw) == Some(h),
    ensures
        url_ip_host(raw) matches Some(o) && o.len() == 4 && (o[0] == 10 || o[0] == 127 || (o[0] == 172 && 16
            <= o[1] <= 31) || (o[0] == 192 && o[1] == 168) || (o[0] == 169 && o[1] == 254)) ==> callback_verdict(
            raw,
        ) is Err,
        url_ip_host(raw) is None && !is_blocked_host(unbracketed(h)) ==> callback_verdict(raw) is Ok,
{
}

} // verus!
