//! The provider directory: one discovery profile per provider, replaced
//! whole on each update.

use vstd::prelude::*;
use vstd::string::*;
use crate::discovery::types::{AvailabilityStatus, Need, PaginatedResult, PricingModel, ProviderCapabilities};
use crate::error::GaggleError;
use crate::discovery::query::{
    availability_json, availability_matches, contains_text, opt_view, page_number, page_params, page_size_of, paginate,
};
use crate::seqs::{
    keep, lemma_insert_desc_at, lemma_keep_all, lemma_keep_take_step, lemma_sorted_desc_len, lemma_take_full, page_of,
    sorted_desc,
};
use crate::sys::{now_seconds, MAX_CLOCK_SECONDS};
use crate::text::{clone_opt_string, clone_strings, is_listed, listed, opt_string_view, str_eq, views};

verus! {

/// A provider's discovery profile. The price bounds are the IEEE-754 bit
/// patterns of the amounts.
#[derive(Debug)]
pub struct DiscoveryProfile {
    pub agent_id: String,
    pub display_name: String,
    pub description: Option<String>,
    pub skills: Vec<String>,
    pub capabilities: ProviderCapabilities,
    pub pricing_model: PricingModel,
    pub availability_status: AvailabilityStatus,
    pub min_price_bits: Option<u64>,
    pub max_price_bits: Option<u64>,
    pub updated_at: i64,
}

/// A request to create or replace a discovery profile.
#[derive(Debug)]
pub struct UpdateProfileRequest {
    pub display_name: String,
    pub description: Option<String>,
    pub skills: Vec<String>,
    pub capabilities: ProviderCapabilities,
    pub pricing_model: PricingModel,
    pub availability_status: AvailabilityStatus,
    pub min_price_bits: Option<u64>,
    pub max_price_bits: Option<u64>,
}

/// The view of a pricing model.
pub enum PricingView {
    Fixed,
    Negotiated,
    Custom(Seq<char>),
    Unknown,
}

/// The view of a pricing model.
pub open spec fn pricing_view(p: PricingModel) -> PricingView {
    match p {
        PricingModel::Fixed => PricingView::Fixed,
        PricingModel::Negotiated => PricingView::Negotiated,
        PricingModel::Custom(s) => PricingView::Custom(s@),
        PricingModel::Unknown => PricingView::Unknown,
    }
}

fn dup_pricing(p: &PricingModel) -> (r: PricingModel)
    ensures
        pricing_view(r) == pricing_view(*p),
{
    match p {
        PricingModel::Fixed => PricingModel::Fixed,
        PricingModel::Negotiated => PricingModel::Negotiated,
        PricingModel::Custom(s) => PricingModel::Custom(s.clone()),
        PricingModel::Unknown => PricingModel::Unknown,
    }
}

fn dup_capabilities(c: &ProviderCapabilities) -> (r: ProviderCapabilities)
    ensures
        r.category@ == c.category@,
        views(r.tags@) == views(c.tags@),
{
    ProviderCapabilities { category: c.category.clone(), tags: clone_strings(&c.tags) }
}

/// The mathematical view of a discovery profile.
pub struct ProfileRecord {
    pub agent_id: Seq<char>,
    pub display_name: Seq<char>,
    pub description: Option<Seq<char>>,
    pub skills: Seq<Seq<char>>,
    pub category: Seq<char>,
    pub tags: Seq<Seq<char>>,
    pub pricing_model: PricingView,
    pub availability_status: AvailabilityStatus,
    pub min_price_bits: Option<u64>,
    pub max_price_bits: Option<u64>,
    pub updated_at: i64,
}

/// The view of a discovery profile.
pub open spec fn profile_view(p: DiscoveryProfile) -> ProfileRecord {
    ProfileRecord {
        agent_id: p.agent_id@,
        display_name: p.display_name@,
        description: opt_string_view(p.description),
        skills: views(p.skills@),
        category: p.capabilities.category@,
        tags: views(p.capabilities.tags@),
        pricing_model: pricing_view(p.pricing_model),
        availability_status: p.availability_status,
        min_price_bits: p.min_price_bits,
        max_price_bits: p.max_price_bits,
        updated_at: p.updated_at,
    }
}

fn dup_profile(p: &DiscoveryProfile) -> (r: DiscoveryProfile)
    ensures
        profile_view(r) == profile_view(*p),
{
    DiscoveryProfile {
        agent_id: p.agent_id.clone(),
        display_name: p.display_name.clone(),
        description: clone_opt_string(&p.description),
        skills: clone_strings(&p.skills),
        capabilities: dup_capabilities(&p.capabilities),
        pricing_model: dup_pricing(&p.pricing_model),
        availability_status: p.availability_status,
        min_price_bits: p.min_price_bits,
        max_price_bits: p.max_price_bits,
        updated_at: p.updated_at,
    }
}

/// The profile of `agent` from request `req` at `now`.
pub open spec fn profile_from(agent: Seq<char>, req: UpdateProfileRequest, now: i64) -> ProfileRecord {
    ProfileRecord {
        agent_id: agent,
        display_name: req.display_name@,
        description: opt_string_view(req.description),
        skills: views(req.skills@),
        category: req.capabilities.category@,
        tags: views(req.capabilities.tags@),
        pricing_model: pricing_view(req.pricing_model),
        availability_status: req.availability_status,
        min_price_bits: req.min_price_bits,
        max_price_bits: req.max_price_bits,
        updated_at: now,
    }
}

/// One profile per provider.
pub open spec fn directory_wf(ps: Seq<ProfileRecord>) -> bool {
    forall|i: int, j: int| 0 <= i < j < ps.len() ==> (#[trigger] ps[i]).agent_id != (#[trigger] ps[j]).agent_id
}

/// Whether provider `agent` has a profile.
pub open spec fn has_profile(ps: Seq<ProfileRecord>, agent: Seq<char>) -> bool {
    exists|k: int| 0 <= k < ps.len() && ps[k].agent_id == agent
}

/// The position of the profile of `agent` (meaningful when there is one).
pub open spec fn profile_pos(ps: Seq<ProfileRecord>, agent: Seq<char>) -> int {
    choose|k: int| 0 <= k < ps.len() && ps[k].agent_id == agent
}

/// The directory after the profile of `agent` is set to `p`: replaced in
/// place when there is one, added at the end otherwise.
pub open spec fn upserted(ps: Seq<ProfileRecord>, agent: Seq<char>, p: ProfileRecord) -> Seq<ProfileRecord> {
    if has_profile(ps, agent) {
        ps.update(profile_pos(ps, agent), p)
    } else {
        ps.push(p)
    }
}

/// The last update time, as an ordering key.
pub open spec fn updated_key() -> spec_fn(ProfileRecord) -> int {
    |p: ProfileRecord| p.updated_at as int
}

/// Whether handed-out profiles show exactly `s`, in order.
pub open spec fn profiles_are(out: Seq<DiscoveryProfile>, s: Seq<ProfileRecord>) -> bool {
    &&& out.len() == s.len()
    &&& forall|i: int| 0 <= i < out.len() ==> profile_view(#[trigger] out[i]) == s[i]
}

/// A provider search. The price bounds are the IEEE-754 bit patterns of
/// the amounts.
#[derive(Debug)]
pub struct ProviderSearchQuery {
    /// Free text, matched by the full-text index.
    pub query: Option<String>,
    /// Comma-separated skills, matched by the full-text index.
    pub skills: Option<String>,
    /// The lowest price the searcher will pay.
    pub min_price_bits: Option<u64>,
    /// The highest price the searcher will pay.
    pub max_price_bits: Option<u64>,
    /// A category, matched by the full-text index.
    pub category: Option<String>,
    /// A filter on availability.
    pub availability: Option<String>,
    /// "price_asc", "price_desc" or "updated"; anything else orders as "updated".
    pub sort_by: Option<String>,
    /// The page asked for (1 when none or 0).
    pub page: Option<u32>,
    /// The page size asked for (20 when none, kept between 1 and 100).
    pub page_size: Option<u32>,
}

/// The order of the amount whose IEEE-754 bit pattern is `b`, as an
/// integer: non-negative amounts by their bits, negative ones below zero by
/// their magnitude, so that `-0` and `+0` tie. (Patterns that encode no
/// number, which JSON cannot carry, are placed by their bits.)
pub open spec fn amount_order(b: u64) -> int {
    if b < 0x8000_0000_0000_0000u64 {
        b as int
    } else {
        0x8000_0000_0000_0000int - b
    }
}

/// The order of an amount; see `amount_order`.
pub fn amount_order_exec(b: u64) -> (r: i128)
    ensures
        r == amount_order(b),
{
    if b < 0x8000_0000_0000_0000u64 {
        b as i128
    } else {
        0x8000_0000_0000_0000i128 - (b as i128)
    }
}

/// Whether a provider's price range can meet the bounds: its highest price
/// is not below `lo` and its lowest is not above `hi` (a bound or a price
/// that is not given rules nothing out).
pub open spec fn price_meets(p: ProfileRecord, lo: Option<u64>, hi: Option<u64>) -> bool {
    &&& match (lo, p.max_price_bits) {
        (Some(l), Some(m)) => amount_order(m) >= amount_order(l),
        _ => true,
    }
    &&& match (hi, p.min_price_bits) {
        (Some(h), Some(m)) => amount_order(m) <= amount_order(h),
        _ => true,
    }
}

/// The profiles a selection keeps: those of the providers among `ids` when
/// given; whose availability passes `availability` when given; whose price
/// range meets `[lo, hi]`; and, when `serving` is a category, that are of
/// exactly that category and not offline.
pub open spec fn selected(
    ids: Option<Seq<String>>,
    availability: Option<Seq<char>>,
    lo: Option<u64>,
    hi: Option<u64>,
    serving: Option<Seq<char>>,
) -> spec_fn(ProfileRecord) -> bool {
    |p: ProfileRecord|
        {
            &&& match ids {
                Some(v) => listed(v, p.agent_id),
                None => true,
            }
            &&& match availability {
                Some(f) => contains_text(availability_json(p.availability_status), f),
                None => true,
            }
            &&& price_meets(p, lo, hi)
            &&& match serving {
                Some(c) => p.category == c && p.availability_status != AvailabilityStatus::Offline,
                None => true,
            }
        }
}

/// The view of an optional list of ids.
pub open spec fn opt_ids(ids: Option<&Vec<String>>) -> Option<Seq<String>> {
    match ids {
        Some(v) => Some(v@),
        None => None,
    }
}

/// How provider search results are ordered.
#[derive(Debug, Clone, Copy, PartialEq, Eq, Structural)]
pub enum ProviderOrder {
    /// Most recently updated first.
    Updated,
    /// Cheapest first, by lowest price; providers with no price last.
    PriceAsc,
    /// Dearest first, by lowest price; providers with no price last.
    PriceDesc,
}

/// The order a search asks for by name.
pub open spec fn order_named(sort_by: Option<Seq<char>>) -> ProviderOrder {
    if sort_by == Some("price_asc"@) {
        ProviderOrder::PriceAsc
    } else if sort_by == Some("price_desc"@) {
        ProviderOrder::PriceDesc
    } else {
        ProviderOrder::Updated
    }
}

/// The order a search asks for; see `order_named`.
pub fn order_of(sort_by: &Option<String>) -> (r: ProviderOrder)
    ensures
        r == order_named(opt_string_view(*sort_by)),
{
    match sort_by {
        Some(s) => if str_eq(s.as_str(), "price_asc") {
            ProviderOrder::PriceAsc
        } else if str_eq(s.as_str(), "price_desc") {
            ProviderOrder::PriceDesc
        } else {
            ProviderOrder::Updated
        },
        None => ProviderOrder::Updated,
    }
}

/// The key below every price key, for profiles with no price.
pub open spec fn no_price_key() -> int {
    -0x1_0000_0000_0000_0000int
}

/// The key that results are ordered by, larger first.
pub open spec fn order_key(o: ProviderOrder) -> spec_fn(ProfileRecord) -> int {
    |p: ProfileRecord|
        match o {
            ProviderOrder::Updated => p.updated_at as int,
            ProviderOrder::PriceAsc => match p.min_price_bits {
                Some(b) => -amount_order(b),
                None => no_price_key(),
            },
            ProviderOrder::PriceDesc => match p.min_price_bits {
                Some(b) => amount_order(b),
                None => no_price_key(),
            },
        }
}

fn order_key_exec(q: &DiscoveryProfile, o: ProviderOrder) -> (r: i128)
    ensures
        r == order_key(o)(profile_view(*q)),
{
    match o {
        ProviderOrder::Updated => q.updated_at as i128,
        ProviderOrder::PriceAsc => match q.min_price_bits {
            Some(b) => -amount_order_exec(b),
            None => -18446744073709551616i128,
        },
        ProviderOrder::PriceDesc => match q.min_price_bits {
            Some(b) => amount_order_exec(b),
            None => -18446744073709551616i128,
        },
    }
}

fn passes(
    q: &DiscoveryProfile,
    ids: Option<&Vec<String>>,
    availability: Option<&str>,
    lo: Option<u64>,
    hi: Option<u64>,
    serving: Option<&str>,
) -> (r: bool)
    ensures
        r == selected(opt_ids(ids), opt_view(availability), lo, hi, opt_view(serving))(profile_view(*q)),
{
    let among = match ids {
        Some(v) => is_listed(v, q.agent_id.as_str()),
        None => true,
    };
    let avail = match availability {
        Some(f) => availability_matches(q.availability_status, f),
        None => true,
    };
    let above = match (lo, q.max_price_bits) {
        (Some(l), Some(m)) => amount_order_exec(m) >= amount_order_exec(l),
        _ => true,
    };
    let below = match (hi, q.min_price_bits) {
        (Some(h), Some(m)) => amount_order_exec(m) <= amount_order_exec(h),
        _ => true,
    };
    let reachable = match serving {
        Some(c) => str_eq(q.capabilities.category.as_str(), c) && q.availability_status != AvailabilityStatus::Offline,
        None => true,
    };
    assert((above && below) == price_meets(profile_view(*q), lo, hi));
    among && avail && above && below && reachable
}

/// Whether a provider search goes through the full-text index: it gives
/// skills, a category or a non-empty text.
pub open spec fn searches_index(q: ProviderSearchQuery) -> bool {
    q.skills is Some || q.category is Some || (q.query matches Some(t) && t@.len() > 0)
}

/// What a provider search finds: the profiles of the index's `matches` when
/// the search uses the index, else all of them; those whose availability
/// passes the filter and whose price range meets the bounds; in the order
/// asked for, equal keys in the order the profiles were created.
pub open spec fn providers_found(ps: Seq<ProfileRecord>, q: ProviderSearchQuery, matches: Seq<String>) -> Seq<
    ProfileRecord,
> {
    sorted_desc(
        keep(
            ps,
            selected(
                if searches_index(q) { Some(matches) } else { None },
                opt_string_view(q.availability),
                q.min_price_bits,
                q.max_price_bits,
                None,
            ),
        ),
        order_key(order_named(opt_string_view(q.sort_by))),
    )
}

/// The providers that can serve a need of `category` with budget `[lo, hi]`:
/// those among the index's `matches` whose category is exactly `category`,
/// that are not offline and whose price range meets the budget, most
/// recently updated first.
pub open spec fn providers_for_need(
    ps: Seq<ProfileRecord>,
    category: Seq<char>,
    matches: Seq<String>,
    lo: Option<u64>,
    hi: Option<u64>,
) -> Seq<
    ProfileRecord,
> {
    sorted_desc(keep(ps, selected(Some(matches), None, lo, hi, Some(category))), order_key(ProviderOrder::Updated))
}

/// Whether `p` is page `page` of `all` (1 when none or 0), of the size asked
/// for (20 when none, kept between 1 and 100), with the total and the page count.
pub open spec fn is_profile_page(
    p: PaginatedResult<DiscoveryProfile>,
    all: Seq<ProfileRecord>,
    page: Option<u32>,
    page_size: Option<u32>,
) -> bool {
    let size = page_size_of(page_size);
    let offset = (page_number(page) - 1) * size;
    &&& p.total == all.len()
    &&& p.page == page_number(page)
    &&& p.page_size == size
    &&& p.total_pages == (all.len() + size - 1) / (size as int)
    &&& profiles_are(p.items@, page_of(all, offset, size as int))
}

/// The directory of provider profiles.
pub struct ProviderDirectory {
    profiles: Vec<DiscoveryProfile>,
}

impl ProviderDirectory {
    /// The profiles, in the order they were first created.
    pub closed spec fn profiles(&self) -> Seq<ProfileRecord> {
        self.profiles@.map_values(|p: DiscoveryProfile| profile_view(p))
    }

    pub open spec fn wf(&self) -> bool {
        directory_wf(self.profiles())
    }

    /// An empty directory.
    pub fn new() -> (d: ProviderDirectory)
        ensures
            d.wf(),
            d.profiles() == Seq::<ProfileRecord>::empty(),
    {
        let d = ProviderDirectory { profiles: Vec::new() };
        proof {
            assert(d.profiles() =~= Seq::<ProfileRecord>::empty());
        }
        d
    }

    fn find(&self, agent_id: &str) -> (r: Option<usize>)
        requires
            self.wf(),
        ensures
            r is Some <==> has_profile(self.profiles(), agent_id@),
            r matches Some(k) ==> k == profile_pos(self.profiles(), agent_id@) && k < self.profiles().len(),
    {
        let ghost ps = self.profiles();
        let mut i: usize = 0;
        while i < self.profiles.len()
            invariant
                self.wf(),
                ps == self.profiles(),
                0 <= i <= self.profiles@.len(),
                ps.len() == self.profiles@.len(),
                forall|j: int| 0 <= j < i ==> ps[j].agent_id != agent_id@,
            decreases self.profiles@.len() - i,
        {
            assert(ps[i as int] == profile_view(self.profiles@[i as int]));
            if str_eq(self.profiles[i].agent_id.as_str(), agent_id) {
                proof {
                    let k = choose|k: int| 0 <= k < ps.len() && ps[k].agent_id == agent_id@;
                    if k < i {
                    } else if k > i {
                        assert(ps[i as int].agent_id != ps[k].agent_id);
                    }
                }
                return Some(i);
            }
            i = i + 1;
        }
        None
    }

    /// Creates or replaces the profile of `agent_id` from `req` at `now`.
    pub fn upsert_profile_at(&mut self, agent_id: &str, req: UpdateProfileRequest, now: i64) -> (r: Result<
        DiscoveryProfile,
        GaggleError,
    >)
        requires
            old(self).wf(),
        ensures
            final(self).wf(),
            r is Ok && profile_view(r->Ok_0) == profile_from(agent_id@, req, now),
            final(self).profiles() == upserted(old(self).profiles(), agent_id@, profile_from(agent_id@, req, now)),
    {
        let ghost old_ps = self.profiles();
        let ghost v = profile_from(agent_id@, req, now);
        let p = DiscoveryProfile {
            agent_id: String::from_str(agent_id),
            display_name: req.display_name,
            description: req.description,
            skills: req.skills,
            capabilities: req.capabilities,
            pricing_model: req.pricing_model,
            availability_status: req.availability_status,
            min_price_bits: req.min_price_bits,
            max_price_bits: req.max_price_bits,
            updated_at: now,
        };
        let out = dup_profile(&p);
        match self.find(agent_id) {
            Some(k) => {
                self.profiles.set(k, p);
                proof {
                    let ps = self.profiles();
                    assert(ps =~= old_ps.update(k as int, v));
                    assert forall|i: int, j: int| 0 <= i < j < ps.len() implies (#[trigger] ps[i]).agent_id
                        != (#[trigger] ps[j]).agent_id by {
                        assert(ps[i].agent_id == old_ps[i].agent_id && ps[j].agent_id == old_ps[j].agent_id);
                    }
                }
            },
            None => {
                self.profiles.push(p);
                proof {
                    let ps = self.profiles();
                    assert(ps =~= old_ps.push(v));
                    assert forall|i: int, j: int| 0 <= i < j < ps.len() implies (#[trigger] ps[i]).agent_id
                        != (#[trigger] ps[j]).agent_id by {
                        if j == ps.len() - 1 {
                            assert(ps[i] == old_ps[i]);
                        } else {
                            assert(ps[i] == old_ps[i] && ps[j] == old_ps[j]);
                        }
                    }
                }
            },
        }
        Ok(out)
    }

    /// Creates or replaces the profile of `agent_id` now; see `upsert_profile_at`.
    pub fn upsert_profile(&mut self, agent_id: &str, req: UpdateProfileRequest) -> (r: Result<
        DiscoveryProfile,
        GaggleError,
    >)
        requires
            old(self).wf(),
        ensures
            final(self).wf(),
            r is Ok,
            exists|now: i64|
                0 <= now <= MAX_CLOCK_SECONDS && profile_view(r->Ok_0) == #[trigger] profile_from(agent_id@, req, now)
                    && final(self).profiles() == upserted(old(self).profiles(), agent_id@, profile_from(agent_id@, req, now)),
    {
        let now = now_seconds();
        self.upsert_profile_at(agent_id, req, now)
    }

    /// The profile of `agent_id`, if there is one.
    pub fn get_profile(&self, agent_id: &str) -> (r: Result<Option<DiscoveryProfile>, GaggleError>)
        requires
            self.wf(),
        ensures
            r matches Ok(o) && (o is Some <==> has_profile(self.profiles(), agent_id@)),
            r matches Ok(Some(p)) ==> profile_view(p) == self.profiles()[profile_pos(self.profiles(), agent_id@)],
    {
        match self.find(agent_id) {
            Some(k) => {
                assert(self.profiles()[k as int] == profile_view(self.profiles@[k as int]));
                Ok(Some(dup_profile(&self.profiles[k])))
            },
            None => Ok(None),
        }
    }

    /// The profiles that `selection(ids)` keeps, most recently updated first.
    /// The profiles that `selected(..)` keeps, larger `order_key(order)` first,
    /// equal keys in the order the profiles were created.
    fn select_sorted(
        &self,
        ids: Option<&Vec<String>>,
        availability: Option<&str>,
        lo: Option<u64>,
        hi: Option<u64>,
        serving: Option<&str>,
        order: ProviderOrder,
    ) -> (r: Vec<DiscoveryProfile>)
        ensures
            profiles_are(
                r@,
                sorted_desc(
                    keep(self.profiles(), selected(opt_ids(ids), opt_view(availability), lo, hi, opt_view(serving))),
                    order_key(order),
                ),
            ),
    {
        let ghost ps = self.profiles();
        let ghost p = selected(opt_ids(ids), opt_view(availability), lo, hi, opt_view(serving));
        let ghost key = order_key(order);
        let mut out: Vec<DiscoveryProfile> = Vec::new();
        let mut i: usize = 0;
        proof {
            assert(ps.take(0) =~= Seq::<ProfileRecord>::empty());
        }
        while i < self.profiles.len()
            invariant
                0 <= i <= self.profiles@.len(),
                ps == self.profiles(),
                ps.len() == self.profiles@.len(),
                p == selected(opt_ids(ids), opt_view(availability), lo, hi, opt_view(serving)),
                key == order_key(order),
                profiles_are(out@, sorted_desc(keep(ps.take(i as int), p), key)),
            decreases self.profiles@.len() - i,
        {
            proof {
                assert(ps[i as int] == profile_view(self.profiles@[i as int]));
                lemma_keep_take_step(ps, i as int, p);
            }
            let q = &self.profiles[i];
            if !passes(q, ids, availability, lo, hi, serving) {
                i = i + 1;
                continue;
            }
            let ghost sorted = sorted_desc(keep(ps.take(i as int), p), key);
            let ghost x = ps[i as int];
            let qk = order_key_exec(q, order);
            let mut j: usize = 0;
            while j < out.len() && order_key_exec(&out[j], order) >= qk
                invariant
                    0 <= j <= out@.len(),
                    out.len() == sorted.len(),
                    profiles_are(out@, sorted),
                    key == order_key(order),
                    qk == key(x),
                    forall|k: int| 0 <= k < j ==> key(sorted[k]) >= key(x),
                decreases out@.len() - j,
            {
                j = j + 1;
            }
            proof {
                lemma_insert_desc_at(sorted, x, key, j as int);
                assert(keep(ps.take(i + 1), p).drop_last() =~= keep(ps.take(i as int), p));
            }
            let ghost before = out@;
            out.insert(j, dup_profile(q));
            proof {
                let t = sorted.insert(j as int, x);
                assert forall|k: int| 0 <= k < out.len() implies profile_view(#[trigger] out@[k]) == t[k] by {
                    if k < j {
                        assert(out@[k] == before[k]);
                    } else if k > j {
                        assert(out@[k] == before[k - 1]);
                    }
                }
            }
            i = i + 1;
        }
        proof {
            lemma_take_full(ps);
        }
        out
    }

    /// Every profile, most recently updated first.
    pub fn list_all(&self) -> (r: Result<Vec<DiscoveryProfile>, GaggleError>)
        ensures
            r matches Ok(v) && profiles_are(v@, sorted_desc(self.profiles(), updated_key())),
    {
        proof {
            let ps = self.profiles();
            assert forall|i: int| 0 <= i < ps.len() implies #[trigger] selected(None, None, None, None, None)(ps[i]) by {
                assert(price_meets(ps[i], None, None));
            }
            lemma_keep_all(ps, selected(None, None, None, None, None));
            assert(order_key(ProviderOrder::Updated) =~= updated_key());
        }
        Ok(self.select_sorted(None, None, None, None, None, ProviderOrder::Updated))
    }

    fn page_profiles(all: &Vec<DiscoveryProfile>, s: Ghost<Seq<ProfileRecord>>, page: Option<u32>, page_size: Option<
        u32,
    >) -> (r: PaginatedResult<DiscoveryProfile>)
        requires
            profiles_are(all@, s@),
            all@.len() <= u32::MAX,
            (page_number(page) - 1) * page_size_of(page_size) <= u32::MAX,
        ensures
            is_profile_page(r, s@, page, page_size),
    {
        let (pg, size) = page_params(page, page_size);
        let total = all.len() as u32;
        let offset: usize = ((pg - 1) * size) as usize;
        let lo: usize = if offset < all.len() { offset } else { all.len() };
        let hi: usize = if offset < all.len() && all.len() - offset > size as usize {
            offset + size as usize
        } else {
            all.len()
        };
        let mut items: Vec<DiscoveryProfile> = Vec::new();
        let mut i: usize = lo;
        while i < hi
            invariant
                lo <= i <= hi,
                hi <= all@.len(),
                profiles_are(all@, s@),
                items@.len() == i - lo,
                forall|k: int| 0 <= k < items@.len() ==> profile_view(#[trigger] items@[k]) == s@[lo + k],
            decreases hi - i,
        {
            items.push(dup_profile(&all[i]));
            i = i + 1;
        }
        proof {
            let pg_s = page_of(s@, ((pg - 1) * size) as int, size as int);
            assert(pg_s =~= s@.subrange(lo as int, hi as int));
        }
        paginate(items, total, pg, size)
    }

    /// Searches the profiles. A search that gives skills, a category or a
    /// non-empty text goes through the full-text index: `fts_matches` are the
    /// providers the index matched for it, and only their profiles count;
    /// any other search starts from every profile. Kept are the profiles
    /// whose availability passes the filter, when there is one, and whose
    /// price range meets the bounds; they come in the order asked for (most
    /// recently updated first unless a price order is asked for), paged: the
    /// page asked for (1 when none or 0), of the size asked for (20 when none,
    /// kept between 1 and 100), with the total and the page count.
    pub fn search_profiles(&self, query: &ProviderSearchQuery, fts_matches: &Vec<String>) -> (r: Result<
        PaginatedResult<DiscoveryProfile>,
        GaggleError,
    >)
        requires
            self.profiles().len() <= u32::MAX,
            (page_number(query.page) - 1) * page_size_of(query.page_size) <= u32::MAX,
        ensures
            r matches Ok(p) && is_profile_page(
                p,
                providers_found(self.profiles(), *query, fts_matches@),
                query.page,
                query.page_size,
            ),
    {
        let text_given = match &query.query {
            Some(t) => t.as_str().unicode_len() > 0,
            None => false,
        };
        let uses_index = query.skills.is_some() || query.category.is_some() || text_given;
        let ids = if uses_index {
            Some(fts_matches)
        } else {
            None
        };
        let availability: Option<&str> = match &query.availability {
            Some(a) => Some(a.as_str()),
            None => None,
        };
        let order = order_of(&query.sort_by);
        let all = self.select_sorted(ids, availability, query.min_price_bits, query.max_price_bits, None, order);
        proof {
            let pr = selected(opt_ids(ids), opt_view(availability), query.min_price_bits, query.max_price_bits, None);
            crate::seqs::lemma_keep_len(self.profiles(), pr);
            lemma_sorted_desc_len(keep(self.profiles(), pr), order_key(order));
        }
        Ok(Self::page_profiles(&all, Ghost(providers_found(self.profiles(), *query, fts_matches@)), query.page, query.page_size))
    }

    /// The providers that can serve `need`: those the full-text index matched
    /// for its category and skills (`fts_matches`) whose category is exactly
    /// the need's, not offline, whose price range meets its budget, most
    /// recently updated first.
    pub fn find_matching_providers(&self, need: &Need, fts_matches: &Vec<String>) -> (r: Result<
        Vec<DiscoveryProfile>,
        GaggleError,
    >)
        ensures
            r matches Ok(v) && profiles_are(
                v@,
                providers_for_need(
                    self.profiles(),
                    need.category@,
                    fts_matches@,
                    need.budget_min_bits,
                    need.budget_max_bits,
                ),
            ),
    {
        Ok(
            self.select_sorted(
                Some(fts_matches),
                None,
                need.budget_min_bits,
                need.budget_max_bits,
                Some(need.category.as_str()),
                ProviderOrder::Updated,
            ),
        )
    }

    /// Deletes the profile of `agent_id`; answers whether there was one.
    pub fn delete_profile(&mut self, agent_id: &str) -> (r: Result<bool, GaggleError>)
        requires
            old(self).wf(),
        ensures
            final(self).wf(),
            r matches Ok(b) && b == has_profile(old(self).profiles(), agent_id@),
            !has_profile(old(self).profiles(), agent_id@) ==> final(self).profiles() == old(self).profiles(),
            has_profile(old(self).profiles(), agent_id@) ==> final(self).profiles() == old(self).profiles().remove(
                profile_pos(old(self).profiles(), agent_id@),
            ),
    {
        match self.find(agent_id) {
            Some(k) => {
                let ghost old_ps = self.profiles();
                self.profiles.remove(k);
                proof {
                    let ps = self.profiles();
                    assert(ps =~= old_ps.remove(k as int));
                    assert forall|i: int, j: int| 0 <= i < j < ps.len() implies (#[trigger] ps[i]).agent_id
                        != (#[trigger] ps[j]).agent_id by {
                        let a = if i < k { i } else { i + 1 };
                        let b = if j < k { j } else { j + 1 };
                        assert(ps[i] == old_ps[a] && ps[j] == old_ps[b]);
                    }
                }
                Ok(true)
            },
            None => Ok(false),
        }
    }
}

/// Setting a provider's profile twice leaves the second one, in the same
/// place: the directory keeps one profile per provider.
pub proof fn law_upsert_replaces(ps: Seq<ProfileRecord>, agent: Seq<char>, p1: ProfileRecord, p2: ProfileRecord)
    requires
        directory_wf(ps),
        p1.agent_id == agent,
        p2.agent_id == agent,
    ensures
        has_profile(upserted(ps, agent, p1), agent),
        upserted(upserted(ps, agent, p1), agent, p2) == upserted(ps, agent, p2),
{
    let q = upserted(ps, agent, p1);
    if has_profile(ps, agent) {
        let k = profile_pos(ps, agent);
        assert(q[k].agent_id == agent);
        let k2 = profile_pos(q, agent);
        if k2 != k {
            assert(q[k2].agent_id == ps[k2].agent_id);
            if k2 < k {
                assert(ps[k2].agent_id != ps[k].agent_id);
            } else {
                assert(ps[k].agent_id != ps[k2].agent_id);
            }
        }
        assert(q.update(k, p2) =~= ps.update(k, p2));
    } else {
        assert(q[ps.len() as int].agent_id == agent);
        let k2 = profile_pos(q, agent);
        if k2 < ps.len() {
            assert(q[k2] == ps[k2]);
        }
        assert(q.update(ps.len() as int, p2) =~= ps.push(p2));
    }
}

} // verus!
