//! The need board: needs that consumers broadcast, their states, and the
//! listing of needs by state.

use vstd::prelude::*;
use vstd::string::*;
use crate::discovery::query::{page_number, page_params, page_size_of, paginate, total_pages};
use crate::discovery::types::{need_status_name, Need, NeedSearchQuery, NeedStatus, PaginatedResult, PublishNeedRequest};
use crate::error::GaggleError;
use crate::seqs::{keep, lemma_insert_desc_at, lemma_keep_take_step, lemma_sorted_desc_len, lemma_take_full, page_of, sorted_desc};
use crate::sys::{is_uuid_hyphenated, now_millis, random_uuid, MAX_CLOCK_MILLIS};
use crate::text::{clone_strings, is_listed, listed, str_eq, views};

verus! {

/// The mathematical view of a need.
pub struct NeedRecord {
    pub id: Seq<char>,
    pub creator_id: Seq<char>,
    pub title: Seq<char>,
    pub description: Seq<char>,
    pub category: Seq<char>,
    pub required_skills: Seq<Seq<char>>,
    pub budget_min_bits: Option<u64>,
    pub budget_max_bits: Option<u64>,
    pub deadline: Option<i64>,
    pub status: NeedStatus,
    pub created_at: i64,
    pub updated_at: i64,
    pub matched_provider_count: i32,
}

/// The view of a need.
pub open spec fn need_view(n: Need) -> NeedRecord {
    NeedRecord {
        id: n.id@,
        creator_id: n.creator_id@,
        title: n.title@,
        description: n.description@,
        category: n.category@,
        required_skills: views(n.required_skills@),
        budget_min_bits: n.budget_min_bits,
        budget_max_bits: n.budget_max_bits,
        deadline: n.deadline,
        status: n.status,
        created_at: n.created_at,
        updated_at: n.updated_at,
        matched_provider_count: n.matched_provider_count,
    }
}

fn dup_need(n: &Need) -> (r: Need)
    ensures
        need_view(r) == need_view(*n),
{
    Need {
        id: n.id.clone(),
        creator_id: n.creator_id.clone(),
        title: n.title.clone(),
        description: n.description.clone(),
        category: n.category.clone(),
        required_skills: clone_strings(&n.required_skills),
        budget_min_bits: n.budget_min_bits,
        budget_max_bits: n.budget_max_bits,
        deadline: n.deadline,
        status: n.status,
        created_at: n.created_at,
        updated_at: n.updated_at,
        matched_provider_count: n.matched_provider_count,
    }
}

/// Whether handed-out needs show exactly `s`, in order.
pub open spec fn needs_are(out: Seq<Need>, s: Seq<NeedRecord>) -> bool {
    &&& out.len() == s.len()
    &&& forall|i: int| 0 <= i < out.len() ==> need_view(#[trigger] out[i]) == s[i]
}

/// Need ids are distinct.
pub open spec fn board_wf(ns: Seq<NeedRecord>) -> bool {
    forall|i: int, j: int| 0 <= i < j < ns.len() ==> (#[trigger] ns[i]).id != (#[trigger] ns[j]).id
}

/// Whether a need with id `id` exists.
pub open spec fn has_need(ns: Seq<NeedRecord>, id: Seq<char>) -> bool {
    exists|k: int| 0 <= k < ns.len() && ns[k].id == id
}

/// The position of need `id` (meaningful when it exists).
pub open spec fn need_pos(ns: Seq<NeedRecord>, id: Seq<char>) -> int {
    choose|k: int| 0 <= k < ns.len() && ns[k].id == id
}

/// A newly published need.
pub open spec fn published(creator: Seq<char>, req: PublishNeedRequest, id: Seq<char>, now: i64) -> NeedRecord {
    NeedRecord {
        id,
        creator_id: creator,
        title: req.title@,
        description: req.description@,
        category: req.category@,
        required_skills: views(req.required_skills@),
        budget_min_bits: req.budget_min_bits,
        budget_max_bits: req.budget_max_bits,
        deadline: req.deadline,
        status: NeedStatus::Open,
        created_at: now,
        updated_at: now,
        matched_provider_count: 0,
    }
}

/// A need after its status is set at `now`.
pub open spec fn with_status(n: NeedRecord, status: NeedStatus, now: i64) -> NeedRecord {
    NeedRecord { status, updated_at: now, ..n }
}

/// The creation time, as an ordering key.
pub open spec fn created_key() -> spec_fn(NeedRecord) -> int {
    |n: NeedRecord| n.created_at as int
}

/// The needs of creator `c`.
pub open spec fn by_creator(c: Seq<char>) -> spec_fn(NeedRecord) -> bool {
    |n: NeedRecord| n.creator_id == c
}

/// The needs whose stored status name is `s`.
pub open spec fn with_status_name(s: Seq<char>) -> spec_fn(NeedRecord) -> bool {
    |n: NeedRecord| need_status_name(n.status) == s
}

/// The needs with status name `status`, newest first.
pub open spec fn needs_listed(ns: Seq<NeedRecord>, status: Seq<char>) -> Seq<NeedRecord> {
    sorted_desc(keep(ns, with_status_name(status)), created_key())
}

/// The open needs whose ids are among `ids`.
pub open spec fn open_among(ids: Seq<String>) -> spec_fn(NeedRecord) -> bool {
    |n: NeedRecord| n.status == NeedStatus::Open && listed(ids, n.id)
}

/// The open needs among `ids`, newest first.
pub open spec fn needs_found(ns: Seq<NeedRecord>, ids: Seq<String>) -> Seq<NeedRecord> {
    sorted_desc(keep(ns, open_among(ids)), created_key())
}

/// The needs a selection keeps: those among `ids` when given, else those
/// of `creator` when given, else those with status `status` when given,
/// else all.
pub open spec fn selection(creator: Option<&str>, status: Option<&str>, ids: Option<&Vec<String>>) -> spec_fn(
    NeedRecord,
) -> bool {
    match ids {
        Some(v) => open_among(v@),
        None => match creator {
            Some(c) => by_creator(c@),
            None => match status {
                Some(s) => with_status_name(s@),
                None => |n: NeedRecord| true,
            },
        },
    }
}

/// Whether a need search goes through the full-text index: it gives a
/// category, skills or a non-empty text.
pub open spec fn searches_text(q: NeedSearchQuery) -> bool {
    q.category is Some || q.skills is Some || (q.query matches Some(t) && t@.len() > 0)
}

/// The status a plain need search lists: the one asked for, else "open".
pub open spec fn listed_status(q: NeedSearchQuery) -> Seq<char> {
    match q.status {
        Some(s) => s@,
        None => "open"@,
    }
}

/// Whether `p` is page `page` of `all` (1 when none or 0), of the size asked
/// for (20 when none, kept between 1 and 100), with the total and the page count.
pub open spec fn is_page_of(p: PaginatedResult<Need>, all: Seq<NeedRecord>, page: Option<u32>, page_size: Option<
    u32,
>) -> bool {
    let size = page_size_of(page_size);
    let offset = (page_number(page) - 1) * size;
    &&& p.total == all.len()
    &&& p.page == page_number(page)
    &&& p.page_size == size
    &&& p.total_pages == (all.len() + size - 1) / (size as int)
    &&& needs_are(p.items@, page_of(all, offset, size as int))
}

/// The board of needs.
pub struct NeedBoard {
    needs: Vec<Need>,
}

impl NeedBoard {
    /// The needs, in the order they were published.
    pub closed spec fn needs(&self) -> Seq<NeedRecord> {
        self.needs@.map_values(|n: Need| need_view(n))
    }

    pub open spec fn wf(&self) -> bool {
        board_wf(self.needs())
    }

    /// An empty board.
    pub fn new() -> (b: NeedBoard)
        ensures
            b.wf(),
            b.needs() == Seq::<NeedRecord>::empty(),
    {
        let b = NeedBoard { needs: Vec::new() };
        proof {
            assert(b.needs() =~= Seq::<NeedRecord>::empty());
        }
        b
    }

    fn find(&self, id: &str) -> (r: Option<usize>)
        requires
            self.wf(),
        ensures
            r is Some <==> has_need(self.needs(), id@),
            r matches Some(k) ==> k == need_pos(self.needs(), id@) && k < self.needs().len(),
    {
        let ghost ns = self.needs();
        let mut i: usize = 0;
        while i < self.needs.len()
            invariant
                self.wf(),
                ns == self.needs(),
                0 <= i <= self.needs@.len(),
                ns.len() == self.needs@.len(),
                forall|j: int| 0 <= j < i ==> ns[j].id != id@,
            decreases self.needs@.len() - i,
        {
            assert(ns[i as int] == need_view(self.needs@[i as int]));
            if str_eq(self.needs[i].id.as_str(), id) {
                proof {
                    let k = choose|k: int| 0 <= k < ns.len() && ns[k].id == id@;
                    if k < i {
                    } else if k > i {
                        assert(ns[i as int].id != ns[k].id);
                    }
                }
                return Some(i);
            }
            i = i + 1;
        }
        None
    }

    /// Publishes an open need of `creator_id` with id `id` at `now`
    /// (milliseconds); an id that is taken is a DatabaseError.
    pub fn publish_need_with(&mut self, creator_id: &str, req: PublishNeedRequest, id: String, now: i64) -> (r:
        Result<Need, GaggleError>)
        requires
            old(self).wf(),
        ensures
            final(self).wf(),
            has_need(old(self).needs(), id@) ==> r is Err && r->Err_0 is DatabaseError && final(self).needs()
                == old(self).needs(),
            !has_need(old(self).needs(), id@) ==> r is Ok && need_view(r->Ok_0) == published(
                creator_id@,
                req,
                id@,
                now,
            ) && final(self).needs() == old(self).needs().push(published(creator_id@, req, id@, now)),
    {
        if self.find(id.as_str()).is_some() {
            return Err(GaggleError::DatabaseError(String::from_str("UNIQUE constraint failed: needs.id")));
        }
        let ghost old_ns = self.needs();
        let n = Need {
            id,
            creator_id: String::from_str(creator_id),
            title: req.title,
            description: req.description,
            category: req.category,
            required_skills: req.required_skills,
            budget_min_bits: req.budget_min_bits,
            budget_max_bits: req.budget_max_bits,
            deadline: req.deadline,
            status: NeedStatus::Open,
            created_at: now,
            updated_at: now,
            matched_provider_count: 0,
        };
        let out = dup_need(&n);
        self.needs.push(n);
        proof {
            let ns = self.needs();
            assert(ns =~= old_ns.push(need_view(out)));
            assert forall|i: int, j: int| 0 <= i < j < ns.len() implies (#[trigger] ns[i]).id != (#[trigger] ns[j]).id by {
                if j == ns.len() - 1 {
                    assert(ns[i] == old_ns[i]);
                } else {
                    assert(ns[i] == old_ns[i] && ns[j] == old_ns[j]);
                }
            }
        }
        Ok(out)
    }

    /// Publishes a need now, with a random id; see `publish_need_with`.
    pub fn publish_need(&mut self, creator_id: &str, req: PublishNeedRequest) -> (r: Result<Need, GaggleError>)
        requires
            old(self).wf(),
        ensures
            final(self).wf(),
            r is Ok ==> exists|now: i64|
                0 <= now <= MAX_CLOCK_MILLIS && need_view(r->Ok_0) == #[trigger] published(
                    creator_id@,
                    req,
                    r->Ok_0.id@,
                    now,
                ) && final(self).needs() == old(self).needs().push(published(creator_id@, req, r->Ok_0.id@, now)),
            r is Err ==> final(self).needs() == old(self).needs() && r->Err_0 is DatabaseError,
            r is Ok ==> is_uuid_hyphenated(r->Ok_0.id@),
            (forall|k: int| 0 <= k < old(self).needs().len() ==> !is_uuid_hyphenated(
                #[trigger] old(self).needs()[k].id,
            )) ==> r is Ok,
    {
        let id = random_uuid();
        let now = now_millis();
        self.publish_need_with(creator_id, req, id, now)
    }

    /// Need `need_id`, if there is one.
    pub fn get_need(&self, need_id: &str) -> (r: Result<Option<Need>, GaggleError>)
        requires
            self.wf(),
        ensures
            r matches Ok(o) && (o is Some <==> has_need(self.needs(), need_id@)),
            r matches Ok(Some(n)) ==> need_view(n) == self.needs()[need_pos(self.needs(), need_id@)],
    {
        match self.find(need_id) {
            Some(k) => {
                assert(self.needs()[k as int] == need_view(self.needs@[k as int]));
                Ok(Some(dup_need(&self.needs[k])))
            },
            None => Ok(None),
        }
    }

    fn select_sorted(
        &self,
        p: Ghost<spec_fn(NeedRecord) -> bool>,
        creator: Option<&str>,
        status: Option<&str>,
        ids: Option<&Vec<String>>,
    ) -> (r: Vec<Need>)
        requires
            p@ == selection(creator, status, ids),
        ensures
            needs_are(r@, sorted_desc(keep(self.needs(), p@), created_key())),
    {
        let ghost ns = self.needs();
        let mut out: Vec<Need> = Vec::new();
        let mut i: usize = 0;
        while i < self.needs.len()
            invariant
                0 <= i <= self.needs@.len(),
                ns == self.needs(),
                ns.len() == self.needs@.len(),
                p@ == selection(creator, status, ids),
                needs_are(out@, sorted_desc(keep(ns.take(i as int), p@), created_key())),
            decreases self.needs@.len() - i,
        {
            proof {
                assert(ns[i as int] == need_view(self.needs@[i as int]));
                lemma_keep_take_step(ns, i as int, p@);
            }
            let n = &self.needs[i];
            let selected = match ids {
                Some(v) => n.status == NeedStatus::Open && is_listed(v, n.id.as_str()),
                None => match creator {
                    Some(c) => str_eq(n.creator_id.as_str(), c),
                    None => match status {
                        Some(s) => str_eq(n.status.as_str(), s),
                        None => true,
                    },
                },
            };
            if selected {
                let ghost sorted = sorted_desc(keep(ns.take(i as int), p@), created_key());
                let ghost x = ns[i as int];
                let mut j: usize = 0;
                while j < out.len() && out[j].created_at >= n.created_at
                    invariant
                        0 <= j <= out@.len(),
                        out.len() == sorted.len(),
                        forall|k: int| 0 <= k < out.len() ==> (#[trigger] out@[k]).created_at == sorted[k].created_at,
                        x.created_at == n.created_at,
                        forall|k: int| 0 <= k < j ==> sorted[k].created_at >= x.created_at,
                    decreases out@.len() - j,
                {
                    assert(out@[j as int].created_at == need_view(out@[j as int]).created_at);
                    j = j + 1;
                }
                proof {
                    lemma_insert_desc_at(sorted, x, created_key(), j as int);
                    assert(keep(ns.take(i + 1), p@).drop_last() =~= keep(ns.take(i as int), p@));
                }
                let ghost before = out@;
                out.insert(j, dup_need(n));
                proof {
                    let t = sorted.insert(j as int, x);
                    assert forall|k: int| 0 <= k < out.len() implies need_view(#[trigger] out@[k]) == t[k] by {
                        if k < j {
                            assert(out@[k] == before[k]);
                        } else if k > j {
                            assert(out@[k] == before[k - 1]);
                        }
                    }
                }
            }
            i = i + 1;
        }
        proof {
            lemma_take_full(ns);
        }
        out
    }

    /// The needs of `creator_id`, newest first.
    pub fn get_my_needs(&self, creator_id: &str) -> (r: Result<Vec<Need>, GaggleError>)
        ensures
            r matches Ok(v) && needs_are(v@, sorted_desc(keep(self.needs(), by_creator(creator_id@)), created_key())),
    {
        Ok(self.select_sorted(Ghost(by_creator(creator_id@)), Some(creator_id), None, None))
    }

    /// Sets the status of need `need_id` at `now`; answers whether there was one.
    pub fn update_need_status_at(&mut self, need_id: &str, status: NeedStatus, now: i64) -> (r: Result<
        bool,
        GaggleError,
    >)
        requires
            old(self).wf(),
        ensures
            final(self).wf(),
            r matches Ok(b) && b == has_need(old(self).needs(), need_id@),
            !has_need(old(self).needs(), need_id@) ==> final(self).needs() == old(self).needs(),
            has_need(old(self).needs(), need_id@) ==> final(self).needs() == old(self).needs().update(
                need_pos(old(self).needs(), need_id@),
                with_status(old(self).needs()[need_pos(old(self).needs(), need_id@)], status, now),
            ),
    {
        match self.find(need_id) {
            Some(k) => {
                let ghost old_ns = self.needs();
                let mut n = dup_need(&self.needs[k]);
                n.status = status;
                n.updated_at = now;
                let ghost v = need_view(n);
                self.needs.set(k, n);
                proof {
                    assert(old_ns[k as int] == need_view(old(self).needs@[k as int]));
                    let ns = self.needs();
                    assert(ns =~= old_ns.update(k as int, v));
                    assert forall|i: int, j: int| 0 <= i < j < ns.len() implies (#[trigger] ns[i]).id
                        != (#[trigger] ns[j]).id by {
                        assert(ns[i].id == old_ns[i].id && ns[j].id == old_ns[j].id);
                    }
                }
                Ok(true)
            },
            None => Ok(false),
        }
    }

    /// Sets the status of need `need_id` now; see `update_need_status_at`.
    pub fn update_need_status(&mut self, need_id: &str, status: NeedStatus) -> (r: Result<bool, GaggleError>)
        requires
            old(self).wf(),
        ensures
            final(self).wf(),
            r matches Ok(b) && b == has_need(old(self).needs(), need_id@),
            !has_need(old(self).needs(), need_id@) ==> final(self).needs() == old(self).needs(),
            has_need(old(self).needs(), need_id@) ==> exists|now: i64|
                0 <= now <= MAX_CLOCK_MILLIS && final(self).needs() == old(self).needs().update(
                    need_pos(old(self).needs(), need_id@),
                    #[trigger] with_status(old(self).needs()[need_pos(old(self).needs(), need_id@)], status, now),
                ),
    {
        let now = now_millis();
        self.update_need_status_at(need_id, status, now)
    }

    /// Records how many providers matched need `need_id`, if there is one.
    pub fn update_matched_count(&mut self, need_id: &str, count: i32) -> (r: Result<(), GaggleError>)
        requires
            old(self).wf(),
        ensures
            final(self).wf(),
            r is Ok,
            !has_need(old(self).needs(), need_id@) ==> final(self).needs() == old(self).needs(),
            has_need(old(self).needs(), need_id@) ==> final(self).needs() == old(self).needs().update(
                need_pos(old(self).needs(), need_id@),
                NeedRecord {
                    matched_provider_count: count,
                    ..old(self).needs()[need_pos(old(self).needs(), need_id@)]
                },
            ),
    {
        match self.find(need_id) {
            Some(k) => {
                let ghost old_ns = self.needs();
                let mut n = dup_need(&self.needs[k]);
                n.matched_provider_count = count;
                let ghost v = need_view(n);
                self.needs.set(k, n);
                proof {
                    assert(old_ns[k as int] == need_view(old(self).needs@[k as int]));
                    let ns = self.needs();
                    assert(ns =~= old_ns.update(k as int, v));
                    assert forall|i: int, j: int| 0 <= i < j < ns.len() implies (#[trigger] ns[i]).id
                        != (#[trigger] ns[j]).id by {
                        assert(ns[i].id == old_ns[i].id && ns[j].id == old_ns[j].id);
                    }
                }
                Ok(())
            },
            None => Ok(()),
        }
    }

    /// Page `page` of `all` (1 when none or 0), of the size asked for (20
    /// when none, kept between 1 and 100), with the total and the page count.
    fn page_needs(all: &Vec<Need>, s: Ghost<Seq<NeedRecord>>, page: Option<u32>, page_size: Option<u32>) -> (r:
        PaginatedResult<Need>)
        requires
            needs_are(all@, s@),
            all@.len() <= u32::MAX,
            (page_number(page) - 1) * page_size_of(page_size) <= u32::MAX,
        ensures
            is_page_of(r, s@, page, page_size),
    {
        let (pg, size) = page_params(page, page_size);
        let total = all.len() as u32;
        let offset: usize = ((pg - 1) * size) as usize;
        let lo: usize = if offset < all.len() { offset } else { all.len() };
        let hi: usize = if offset < all.len() && all.len() - offset > size as usize {
            offset + size as usize
        } else {
            all.len()
        };
        let mut items: Vec<Need> = Vec::new();
        let mut i: usize = lo;
        while i < hi
            invariant
                lo <= i <= hi,
                hi <= all@.len(),
                needs_are(all@, s@),
                items@.len() == i - lo,
                forall|k: int| 0 <= k < items@.len() ==> need_view(#[trigger] items@[k]) == s@[lo + k],
            decreases hi - i,
        {
            items.push(dup_need(&all[i]));
            i = i + 1;
        }
        proof {
            let pg_s = page_of(s@, ((pg - 1) * size) as int, size as int);
            assert(pg_s =~= s@.subrange(lo as int, hi as int));
        }
        paginate(items, total, pg, size)
    }

    /// The needs whose status is named `status`, newest first, paged: the
    /// page asked for (1 when none or 0), of the size asked for (20 when
    /// none, kept between 1 and 100), with the total and the page count.
    pub fn list_needs(&self, status: &str, page: Option<u32>, page_size: Option<u32>) -> (r: Result<
        PaginatedResult<Need>,
        GaggleError,
    >)
        requires
            self.needs().len() <= u32::MAX,
            (page_number(page) - 1) * page_size_of(page_size) <= u32::MAX,
        ensures
            r matches Ok(p) && is_page_of(p, needs_listed(self.needs(), status@), page, page_size),
    {
        let all = self.select_sorted(Ghost(with_status_name(status@)), None, Some(status), None);
        proof {
            crate::seqs::lemma_keep_len(self.needs(), with_status_name(status@));
            lemma_sorted_desc_len(keep(self.needs(), with_status_name(status@)), created_key());
        }
        Ok(Self::page_needs(&all, Ghost(needs_listed(self.needs(), status@)), page, page_size))
    }

    /// Searches needs. A search that gives a category, skills or a non-empty
    /// text goes through the full-text index: `fts_matches` are the ids that
    /// the index matched for it, and the result is the open needs among them.
    /// Any other search lists the needs of the status asked for ("open" when
    /// none). Either way newest first, paged as `list_needs` pages.
    pub fn search_needs(&self, query: &NeedSearchQuery, fts_matches: &Vec<String>) -> (r: Result<
        PaginatedResult<Need>,
        GaggleError,
    >)
        requires
            self.needs().len() <= u32::MAX,
            (page_number(query.page) - 1) * page_size_of(query.page_size) <= u32::MAX,
        ensures
            r is Ok,
            searches_text(*query) ==> is_page_of(
                r->Ok_0,
                needs_found(self.needs(), fts_matches@),
                query.page,
                query.page_size,
            ),
            !searches_text(*query) ==> is_page_of(
                r->Ok_0,
                needs_listed(self.needs(), listed_status(*query)),
                query.page,
                query.page_size,
            ),
    {
        let text_given = match &query.query {
            Some(t) => t.as_str().unicode_len() > 0,
            None => false,
        };
        if query.category.is_some() || query.skills.is_some() || text_given {
            let all = self.select_sorted(Ghost(open_among(fts_matches@)), None, None, Some(fts_matches));
            proof {
                crate::seqs::lemma_keep_len(self.needs(), open_among(fts_matches@));
                lemma_sorted_desc_len(keep(self.needs(), open_among(fts_matches@)), created_key());
            }
            Ok(Self::page_needs(&all, Ghost(needs_found(self.needs(), fts_matches@)), query.page, query.page_size))
        } else {
            let status: &str = match &query.status {
                Some(s) => s.as_str(),
                None => "open",
            };
            self.list_needs(status, query.page, query.page_size)
        }
    }

    /// Cancels need `need_id` for its creator: a missing need is NotFound;
    /// another agent's is Forbidden.
    pub fn cancel_need_for(&mut self, agent_id: &str, need_id: &str) -> (r: Result<(), GaggleError>)
        requires
            old(self).wf(),
        ensures
            final(self).wf(),
            !has_need(old(self).needs(), need_id@) ==> r is Err && r->Err_0 is NotFound && final(self).needs()
                == old(self).needs(),
            has_need(old(self).needs(), need_id@) && old(self).needs()[need_pos(old(self).needs(), need_id@)].creator_id
                != agent_id@ ==> r is Err && r->Err_0 is Forbidden && final(self).needs() == old(self).needs(),
            has_need(old(self).needs(), need_id@) && old(self).needs()[need_pos(old(self).needs(), need_id@)].creator_id
                == agent_id@ ==> r is Ok && final(self).needs()[need_pos(old(self).needs(), need_id@)].status
                == NeedStatus::Cancelled && final(self).needs().len() == old(self).needs().len() && exists|now: i64|
                0 <= now <= MAX_CLOCK_MILLIS && final(self).needs() == old(self).needs().update(
                    need_pos(old(self).needs(), need_id@),
                    #[trigger] with_status(
                        old(self).needs()[need_pos(old(self).needs(), need_id@)],
                        NeedStatus::Cancelled,
                        now,
                    ),
                ),
    {
        let k = match self.find(need_id) {
            Some(k) => k,
            None => {
                let mut m = String::from_str("Need not found: ");
                m.append(need_id);
                return Err(GaggleError::NotFound(m));
            },
        };
        assert(self.needs()[k as int] == need_view(self.needs@[k as int]));
        if !str_eq(self.needs[k].creator_id.as_str(), agent_id) {
            return Err(GaggleError::Forbidden(String::from_str("Only the creator can cancel this need")));
        }
        self.update_need_status(need_id, NeedStatus::Cancelled)?;
        Ok(())
    }
}


/// A need reads back as it was published. After publishing on a board where
/// `id` is free, the need found under `id` (what `get_need` returns) has the
/// request's title, description, category, required skills, budget bounds
/// and deadline, the creator and id given, status Open, no matched providers,
/// and the time of publication; every need that was there before is found
/// unchanged.
pub proof fn law_published_need_reads_back(
    ns: Seq<NeedRecord>,
    creator: Seq<char>,
    req: PublishNeedRequest,
    id: Seq<char>,
    now: i64,
)
    requires
        board_wf(ns),
        !has_need(ns, id),
    ensures
        ({
            let after = ns.push(published(creator, req, id, now));
            let n = after[need_pos(after, id)];
            &&& board_wf(after)
            &&& has_need(after, id)
            &&& n.id == id
            &&& n.creator_id == creator
            &&& n.title == req.title@
            &&& n.description == req.description@
            &&& n.category == req.category@
            &&& n.required_skills.len() == req.required_skills@.len()
            &&& forall|i: int|
                0 <= i < n.required_skills.len() ==> #[trigger] n.required_skills[i] == req.required_skills@[i]@
            &&& n.budget_min_bits == req.budget_min_bits
            &&& n.budget_max_bits == req.budget_max_bits
            &&& n.deadline == req.deadline
            &&& n.status == NeedStatus::Open
            &&& n.matched_provider_count == 0
            &&& n.created_at == now
            &&& n.updated_at == now
            &&& forall|j: int| 0 <= j < ns.len() ==> after[need_pos(after, #[trigger] ns[j].id)] == ns[j]
        }),
{
    let after = ns.push(published(creator, req, id, now));
    let last = ns.len() as int;
    assert(after[last].id == id);
    assert forall|i: int, j: int| 0 <= i < j < after.len() implies (#[trigger] after[i]).id != (#[trigger] after[j]).id by {
        if j == last {
            assert(after[i] == ns[i]);
        } else {
            assert(after[i] == ns[i] && after[j] == ns[j]);
        }
    }
    let k = need_pos(after, id);
    if k != last {
        assert(after[k].id != after[last].id);
    }
    assert forall|j: int| 0 <= j < ns.len() implies after[need_pos(after, #[trigger] ns[j].id)] == ns[j] by {
        assert(after[j] == ns[j]);
        let q = need_pos(after, ns[j].id);
        if q != j {
            if q < j {
                assert(after[q].id != after[j].id);
            } else {
                assert(after[j].id != after[q].id);
            }
        }
    }
}

} // verus!
