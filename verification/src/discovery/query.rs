//! The text of full-text queries over providers and needs, the filters
//! applied after them, and paging.

use vstd::prelude::*;
use vstd::string::*;
use crate::discovery::types::{availability_name, AvailabilityStatus, PaginatedResult};
use crate::seqs::{keep, lemma_keep_take_step, lemma_take_full};
use crate::text::{joined, join_with, split_fields, split_on, trim, trimmed, views};

verus! {

/// The characters that full-text query syntax gives a meaning.
pub open spec fn is_fts5_special(c: char) -> bool {
    c == '-' || c == '"' || c == '(' || c == ')'
}

/// `s` with a backslash before each character that query syntax gives a meaning.
pub open spec fn fts5_escaped(s: Seq<char>) -> Seq<char>
    decreases s.len(),
{
    if s.len() == 0 {
        Seq::empty()
    } else {
        fts5_escaped(s.drop_last()) + if is_fts5_special(s.last()) {
            seq!['\\', s.last()]
        } else {
            seq![s.last()]
        }
    }
}

/// Escapes the characters of `s` that query syntax gives a meaning; see `fts5_escaped`.
pub fn escape_fts5(s: &str) -> (r: String)
    ensures
        r@ == fts5_escaped(s@),
{
    let n = s.unicode_len();
    let mut out = String::new();
    let mut i: usize = 0;
    while i < n
        invariant
            n == s@.len(),
            i <= n,
            out@ == fts5_escaped(s@.take(i as int)),
        decreases n - i,
    {
        let c = s.get_char(i);
        let piece = s.substring_char(i, i + 1);
        proof {
            assert(piece@ =~= seq![c]);
            assert(s@.take(i + 1).drop_last() =~= s@.take(i as int));
            assert(s@.take(i + 1).last() == c);
        }
        if c == '-' || c == '"' || c == '(' || c == ')' {
            let bs = "\\";
            proof {
                reveal_strlit("\\");
                assert(out@ + bs@ + piece@ =~= fts5_escaped(s@.take(i as int)) + seq!['\\', c]);
            }
            out.append(bs);
            out.append(piece);
        } else {
            proof {
                assert(out@ + piece@ =~= fts5_escaped(s@.take(i as int)) + seq![c]);
            }
            out.append(piece);
        }
        i = i + 1;
    }
    proof {
        assert(s@.take(n as int) =~= s@);
    }
    out
}

/// Whether `needle` occurs in `hay`.
pub open spec fn contains_text(hay: Seq<char>, needle: Seq<char>) -> bool {
    exists|i: int| 0 <= i && i + needle.len() <= hay.len() && #[trigger] hay.subrange(i, i + needle.len()) == needle
}

/// Whether `needle` occurs in `hay`, as `str::contains` tests.
pub fn contains(hay: &str, needle: &str) -> (r: bool)
    ensures
        r == contains_text(hay@, needle@),
{
    let n = hay.unicode_len();
    let m = needle.unicode_len();
    if m > n {
        return false;
    }
    let mut i: usize = 0;
    while i <= n - m
        invariant
            n == hay@.len(),
            m == needle@.len(),
            m <= n,
            i <= n - m + 1,
            forall|k: int| 0 <= k < i ==> #[trigger] hay@.subrange(k, k + m) != needle@,
        decreases n - i,
    {
        let mut j: usize = 0;
        while j < m && hay.get_char(i + j) == needle.get_char(j)
            invariant
                n == hay@.len(),
                m == needle@.len(),
                i + m <= n,
                j <= m,
                forall|k: int| 0 <= k < j ==> hay@[i + k] == needle@[k],
            decreases m - j,
        {
            j = j + 1;
        }
        if j == m {
            assert(hay@.subrange(i as int, i + m) =~= needle@);
            return true;
        }
        assert(hay@.subrange(i as int, i + m)[j as int] != needle@[j as int]);
        i = i + 1;
    }
    proof {
        assert forall|k: int| 0 <= k && k + m <= n implies #[trigger] hay@.subrange(k, k + m) != needle@ by {
            assert(k < i);
        }
    }
    false
}

/// The JSON text of an availability status: its name in quotes.
pub open spec fn availability_json(s: AvailabilityStatus) -> Seq<char> {
    "\""@ + availability_name(s) + "\""@
}

/// Whether a provider's availability passes the filter `filter`: the filter
/// occurs in the JSON text of the status.
pub fn availability_matches(status: AvailabilityStatus, filter: &str) -> (r: bool)
    ensures
        r == contains_text(availability_json(status), filter@),
{
    let mut text = String::from_str("\"");
    text.append(status.name());
    text.append("\"");
    contains(text.as_str(), filter)
}

/// The skill terms of a comma-separated list: each item trimmed, empty ones dropped.
pub open spec fn skill_terms(s: Seq<char>) -> Seq<Seq<char>> {
    keep(split_fields(s, ',').map_values(|f: Seq<char>| trimmed(f)), |t: Seq<char>| t.len() > 0)
}

/// The skill terms of a comma-separated list; see `skill_terms`.
pub fn skill_terms_of(s: &str) -> (r: Vec<String>)
    ensures
        views(r@) == skill_terms(s@),
{
    let fields = split_on(s, ',');
    let ghost t = split_fields(s@, ',').map_values(|f: Seq<char>| trimmed(f));
    let ghost p = |t: Seq<char>| t.len() > 0;
    let mut out: Vec<String> = Vec::new();
    let mut i: usize = 0;
    while i < fields.len()
        invariant
            0 <= i <= fields@.len(),
            views(fields@) == split_fields(s@, ','),
            t == split_fields(s@, ',').map_values(|f: Seq<char>| trimmed(f)),
            t.len() == fields@.len(),
            p == (|t: Seq<char>| t.len() > 0),
            views(out@) == keep(t.take(i as int), p),
        decreases fields@.len() - i,
    {
        proof {
            lemma_keep_take_step(t, i as int, p);
            assert(views(fields@)[i as int] == fields@[i as int]@);
        }
        let term = trim(fields[i].as_str());
        assert(term@ == t[i as int]);
        if term.unicode_len() > 0 {
            let ghost before = out@;
            out.push(term);
            proof {
                assert(views(out@) =~= views(before).push(t[i as int]));
            }
        }
        i = i + 1;
    }
    proof {
        lemma_take_full(t);
    }
    out
}

/// The view of an optional string slice.
pub open spec fn opt_view(o: Option<&str>) -> Option<Seq<char>> {
    match o {
        Some(s) => Some(s@),
        None => None,
    }
}

/// Whether a provider search runs a full-text query at all.
pub open spec fn provider_search_is_full_text(
    skills: Option<Seq<char>>,
    category: Option<Seq<char>>,
    query: Option<Seq<char>>,
) -> bool {
    skills is Some || category is Some || (query matches Some(q) && q.len() > 0)
}

/// The conditions of a provider search: the skill terms (any of them), the
/// category, and the free text, each when given.
pub open spec fn provider_conditions(
    skills: Option<Seq<char>>,
    category: Option<Seq<char>>,
    query: Option<Seq<char>>,
) -> Seq<Seq<char>> {
    let a = match skills {
        Some(s) => if skill_terms(s).len() > 0 {
            seq!["skills:"@ + fts5_escaped(joined(skill_terms(s), " OR "@))]
        } else {
            Seq::empty()
        },
        None => Seq::empty(),
    };
    let b = match category {
        Some(c) => seq!["category:"@ + fts5_escaped(c)],
        None => Seq::empty(),
    };
    let c = match query {
        Some(q) => if q.len() > 0 {
            seq![fts5_escaped(q)]
        } else {
            Seq::empty()
        },
        None => Seq::empty(),
    };
    a + b + c
}

/// The full-text query of a provider search, or `None` when the search
/// lists every provider instead.
pub open spec fn provider_match(
    skills: Option<Seq<char>>,
    category: Option<Seq<char>>,
    query: Option<Seq<char>>,
) -> Option<Seq<char>> {
    if provider_search_is_full_text(skills, category, query) {
        Some(joined(provider_conditions(skills, category, query), " OR "@))
    } else {
        None
    }
}

fn prefixed(prefix: &str, body: &str) -> (r: String)
    ensures
        r@ == prefix@ + body@,
{
    let mut s = String::from_str(prefix);
    s.append(body);
    s
}

/// The full-text query of a provider search; see `provider_match`.
pub fn provider_match_query(skills: Option<&str>, category: Option<&str>, query: Option<&str>) -> (r:
    Option<String>)
    ensures
        match provider_match(opt_view(skills), opt_view(category), opt_view(query)) {
            Some(q) => r matches Some(s) && s@ == q,
            None => r is None,
        },
{
    let full_text = skills.is_some() || category.is_some() || match query {
        Some(q) => q.unicode_len() > 0,
        None => false,
    };
    if !full_text {
        return None;
    }
    let mut conditions: Vec<String> = Vec::new();
    if let Some(s) = skills {
        let terms = skill_terms_of(s);
        if terms.len() > 0 {
            let j = join_with(&terms, " OR ");
            conditions.push(prefixed("skills:", escape_fts5(j.as_str()).as_str()));
        }
    }
    if let Some(c) = category {
        let ghost before = conditions@;
        conditions.push(prefixed("category:", escape_fts5(c).as_str()));
        proof {
            assert(views(conditions@) =~= views(before).push("category:"@ + fts5_escaped(c@)));
        }
    }
    if let Some(q) = query {
        if q.unicode_len() > 0 {
            let ghost before = conditions@;
            conditions.push(escape_fts5(q));
            proof {
                assert(views(conditions@) =~= views(before).push(fts5_escaped(q@)));
            }
        }
    }
    proof {
        assert(views(conditions@) =~= provider_conditions(opt_view(skills), opt_view(category), opt_view(query)));
    }
    Some(join_with(&conditions, " OR "))
}

/// The conditions of a need search: the category, the skill terms (as free
/// text) and the free text, each when given.
pub open spec fn need_conditions(
    category: Option<Seq<char>>,
    skills: Option<Seq<char>>,
    query: Option<Seq<char>>,
) -> Seq<Seq<char>> {
    let a = match category {
        Some(c) => seq!["category:"@ + fts5_escaped(c)],
        None => Seq::empty(),
    };
    let b = match skills {
        Some(s) => if skill_terms(s).len() > 0 {
            seq![fts5_escaped(joined(skill_terms(s), " OR "@))]
        } else {
            Seq::empty()
        },
        None => Seq::empty(),
    };
    let c = match query {
        Some(q) => if q.len() > 0 {
            seq![fts5_escaped(q)]
        } else {
            Seq::empty()
        },
        None => Seq::empty(),
    };
    a + b + c
}

/// The full-text query of a need search, or `None` when the search lists
/// needs by status instead.
pub open spec fn need_match(
    category: Option<Seq<char>>,
    skills: Option<Seq<char>>,
    query: Option<Seq<char>>,
) -> Option<Seq<char>> {
    if category is Some || skills is Some || (query matches Some(q) && q.len() > 0) {
        Some(joined(need_conditions(category, skills, query), " OR "@))
    } else {
        None
    }
}

/// The full-text query of a need search; see `need_match`.
pub fn need_match_query(category: Option<&str>, skills: Option<&str>, query: Option<&str>) -> (r: Option<
    String,
>)
    ensures
        match need_match(opt_view(category), opt_view(skills), opt_view(query)) {
            Some(q) => r matches Some(s) && s@ == q,
            None => r is None,
        },
{
    let full_text = category.is_some() || skills.is_some() || match query {
        Some(q) => q.unicode_len() > 0,
        None => false,
    };
    if !full_text {
        return None;
    }
    let mut conditions: Vec<String> = Vec::new();
    if let Some(c) = category {
        conditions.push(prefixed("category:", escape_fts5(c).as_str()));
    }
    if let Some(s) = skills {
        let terms = skill_terms_of(s);
        if terms.len() > 0 {
            let j = join_with(&terms, " OR ");
            let ghost before = conditions@;
            conditions.push(escape_fts5(j.as_str()));
            proof {
                assert(views(conditions@) =~= views(before).push(fts5_escaped(j@)));
            }
        }
    }
    if let Some(q) = query {
        if q.unicode_len() > 0 {
            let ghost before = conditions@;
            conditions.push(escape_fts5(q));
            proof {
                assert(views(conditions@) =~= views(before).push(fts5_escaped(q@)));
            }
        }
    }
    proof {
        assert(views(conditions@) =~= need_conditions(opt_view(category), opt_view(skills), opt_view(query)));
    }
    Some(join_with(&conditions, " OR "))
}

/// The full-text query that finds providers for a need: the need's category,
/// and any of its required skills when it has some.
pub open spec fn need_providers_match(category: Seq<char>, skills: Seq<Seq<char>>) -> Seq<char> {
    let cat = "category:"@ + fts5_escaped(category);
    if skills.len() > 0 {
        joined(
            seq![cat, "skills:("@ + joined(skills.map_values(|s: Seq<char>| fts5_escaped(s)), " OR "@) + ")"@],
            " AND "@,
        )
    } else {
        joined(seq![cat], " AND "@)
    }
}

/// The full-text query that finds providers for a need; see `need_providers_match`.
pub fn need_providers_query(category: &str, required_skills: &Vec<String>) -> (r: String)
    ensures
        r@ == need_providers_match(category@, views(required_skills@)),
{
    let mut conditions: Vec<String> = Vec::new();
    conditions.push(prefixed("category:", escape_fts5(category).as_str()));
    if required_skills.len() > 0 {
        let mut escaped: Vec<String> = Vec::new();
        let mut i: usize = 0;
        while i < required_skills.len()
            invariant
                0 <= i <= required_skills@.len(),
                escaped@.len() == i,
                forall|k: int| 0 <= k < i ==> (#[trigger] escaped@[k])@ == fts5_escaped(required_skills@[k]@),
            decreases required_skills@.len() - i,
        {
            escaped.push(escape_fts5(required_skills[i].as_str()));
            i = i + 1;
        }
        proof {
            assert(views(escaped@) =~= views(required_skills@).map_values(|s: Seq<char>| fts5_escaped(s)));
        }
        let mut skills_part = String::from_str("skills:(");
        let j = join_with(&escaped, " OR ");
        skills_part.append(j.as_str());
        skills_part.append(")");
        let ghost before = conditions@;
        conditions.push(skills_part);
        proof {
            assert(views(conditions@) =~= seq![
                "category:"@ + fts5_escaped(category@),
                "skills:("@ + joined(views(required_skills@).map_values(|s: Seq<char>| fts5_escaped(s)), " OR "@)
                    + ")"@,
            ]);
        }
        join_with(&conditions, " AND ")
    } else {
        proof {
            assert(views(conditions@) =~= seq!["category:"@ + fts5_escaped(category@)]);
        }
        join_with(&conditions, " AND ")
    }
}

/// The page asked for: the first page when none or 0 is asked for.
pub open spec fn page_number(page: Option<u32>) -> u32 {
    match page {
        Some(p) => if p >= 1 {
            p
        } else {
            1
        },
        None => 1,
    }
}

/// The page size asked for, between 1 and 100; 20 when none is asked for.
pub open spec fn page_size_of(size: Option<u32>) -> u32 {
    match size {
        Some(s) => if s > 100 {
            100
        } else if s < 1 {
            1
        } else {
            s
        },
        None => 20,
    }
}

/// The page and page size of a search; see `page_number` and `page_size_of`.
pub fn page_params(page: Option<u32>, page_size: Option<u32>) -> (r: (u32, u32))
    ensures
        r.0 == page_number(page),
        r.1 == page_size_of(page_size),
        r.0 >= 1,
        1 <= r.1 <= 100,
{
    let p: u32 = match page {
        Some(p) => if p >= 1 { p } else { 1 },
        None => 1,
    };
    let raw: u32 = match page_size {
        Some(s) => s,
        None => 20,
    };
    let s: u32 = if raw > 100 { 100 } else if raw < 1 { 1 } else { raw };
    (p, s)
}

/// How many results come before page `page`.
pub fn page_offset(page: u32, page_size: u32) -> (r: u32)
    requires
        page >= 1,
        (page - 1) * page_size <= u32::MAX,
    ensures
        r == (page - 1) * page_size,
{
    (page - 1) * page_size
}

proof fn lemma_ceil_div(total: int, ps: int)
    requires
        ps >= 1,
        total >= 0,
    ensures
        (total + ps - 1) / ps == total / ps + (if total % ps == 0 { 0int } else { 1int }),
{
    let q = total / ps;
    let r = total % ps;
    assert(total == q * ps + r && 0 <= r < ps) by (nonlinear_arith)
        requires
            ps >= 1,
            q == total / ps,
            r == total % ps,
    ;
    if r == 0 {
        assert((total + ps - 1) / ps == q) by (nonlinear_arith)
            requires
                ps >= 1,
                total == q * ps,
        {
            assert(total + ps - 1 == q * ps + (ps - 1));
        }
    } else {
        assert((total + ps - 1) / ps == q + 1) by (nonlinear_arith)
            requires
                ps >= 1,
                total == q * ps + r,
                1 <= r < ps,
        {
            assert(total + ps - 1 == (q + 1) * ps + (r - 1));
        }
    }
}

/// How many pages `total` results fill.
pub fn total_pages(total: u32, page_size: u32) -> (r: u32)
    requires
        page_size >= 1,
    ensures
        r == (total + page_size - 1) / (page_size as int),
{
    proof {
        lemma_ceil_div(total as int, page_size as int);
    }
    let whole = total / page_size;
    if total % page_size == 0 {
        whole
    } else {
        proof {
            assert(whole * page_size <= total) by (nonlinear_arith)
                requires
                    page_size >= 1,
                    whole == total / page_size,
            ;
            assert(whole < total) by (nonlinear_arith)
                requires
                    page_size >= 1,
                    whole == total / page_size,
                    whole * page_size <= total,
                    total % page_size != 0,
            ;
        }
        whole + 1
    }
}

/// A page of results with its totals.
pub fn paginate<T>(items: Vec<T>, total: u32, page: u32, page_size: u32) -> (r: PaginatedResult<T>)
    requires
        page_size >= 1,
    ensures
        r.items@ == items@,
        r.total == total,
        r.page == page,
        r.page_size == page_size,
        r.total_pages == (total + page_size - 1) / (page_size as int),
{
    let tp = total_pages(total, page_size);
    PaginatedResult { items, total, page, page_size, total_pages: tp }
}

/// Escaping leaves text without query syntax as it is, and adds exactly
/// one backslash for each character that has a meaning in query syntax.
pub proof fn law_escape_fts5(s: Seq<char>)
    ensures
        (forall|i: int| 0 <= i < s.len() ==> !is_fts5_special(#[trigger] s[i])) ==> fts5_escaped(s) == s,
        fts5_escaped(s).len() == s.len() + crate::seqs::count(s, |c: char| is_fts5_special(c)),
    decreases s.len(),
{
    if s.len() > 0 {
        let t = s.drop_last();
        law_escape_fts5(t);
        crate::seqs::lemma_count_push(t, s.last(), |c: char| is_fts5_special(c));
        assert(t.push(s.last()) =~= s);
        if forall|i: int| 0 <= i < s.len() ==> !is_fts5_special(#[trigger] s[i]) {
            assert forall|i: int| 0 <= i < t.len() implies !is_fts5_special(#[trigger] t[i]) by {
                assert(t[i] == s[i]);
            }
            assert(!is_fts5_special(s[s.len() - 1]));
            assert(fts5_escaped(t) + seq![s.last()] =~= s);
        }
    } else {
        assert(fts5_escaped(s) =~= s);
    }
}

} // verus!
