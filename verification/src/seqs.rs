//! Order-preserving selection over sequences, and the facts the stores use.

use vstd::prelude::*;

verus! {

/// The elements of `s` that satisfy `p`, in the order in which they occur in `s`.
pub open spec fn keep<T>(s: Seq<T>, p: spec_fn(T) -> bool) -> Seq<T>
    decreases s.len(),
{
    if s.len() == 0 {
        Seq::empty()
    } else {
        let k = keep(s.drop_last(), p);
        if p(s.last()) {
            k.push(s.last())
        } else {
            k
        }
    }
}

/// How many elements of `s` satisfy `p`.
pub open spec fn count<T>(s: Seq<T>, p: spec_fn(T) -> bool) -> nat {
    keep(s, p).len()
}

/// Selecting from a sequence extended by one element.
pub proof fn lemma_keep_push<T>(s: Seq<T>, x: T, p: spec_fn(T) -> bool)
    ensures
        keep(s.push(x), p) == (if p(x) { keep(s, p).push(x) } else { keep(s, p) }),
{
    assert(s.push(x).drop_last() =~= s);
}

/// Selecting from one more element of a prefix.
pub proof fn lemma_keep_take_step<T>(s: Seq<T>, i: int, p: spec_fn(T) -> bool)
    requires
        0 <= i < s.len(),
    ensures
        keep(s.take(i + 1), p) == (if p(s[i]) { keep(s.take(i), p).push(s[i]) } else { keep(
            s.take(i),
            p,
        ) }),
{
    assert(s.take(i + 1) =~= s.take(i).push(s[i]));
    lemma_keep_push(s.take(i), s[i], p);
}

/// The selection never has more elements than the sequence.
pub proof fn lemma_keep_len<T>(s: Seq<T>, p: spec_fn(T) -> bool)
    ensures
        keep(s, p).len() <= s.len(),
    decreases s.len(),
{
    if s.len() > 0 {
        lemma_keep_len(s.drop_last(), p);
    }
}

/// Every selected element is an element of the sequence that satisfies `p`,
/// and selected elements keep their relative order.
pub proof fn lemma_keep_origin<T>(s: Seq<T>, p: spec_fn(T) -> bool)
    ensures
        forall|k: int|
            0 <= k < keep(s, p).len() ==> exists|i: int|
                0 <= i < s.len() && #[trigger] keep(s, p)[k] == s[i] && p(s[i]),
    decreases s.len(),
{
    if s.len() > 0 {
        lemma_keep_origin(s.drop_last(), p);
        let k0 = keep(s.drop_last(), p);
        assert forall|k: int| 0 <= k < keep(s, p).len() implies exists|i: int|
            0 <= i < s.len() && #[trigger] keep(s, p)[k] == s[i] && p(s[i]) by {
            if k < k0.len() {
                let i = choose|i: int| 0 <= i < s.drop_last().len() && k0[k] == s.drop_last()[i] && p(s.drop_last()[i]);
                assert(keep(s, p)[k] == s[i]);
            } else {
                assert(keep(s, p)[k] == s[s.len() - 1]);
            }
        }
    }
}

/// Whether `r` relates every earlier element of `s` to every later one.
pub open spec fn ordered_by<T>(s: Seq<T>, r: spec_fn(T, T) -> bool) -> bool {
    forall|i: int, j: int| 0 <= i < j < s.len() ==> r(#[trigger] s[i], #[trigger] s[j])
}

/// Selection keeps any order that the sequence has.
pub proof fn lemma_keep_ordered<T>(s: Seq<T>, p: spec_fn(T) -> bool, r: spec_fn(T, T) -> bool)
    requires
        ordered_by(s, r),
    ensures
        ordered_by(keep(s, p), r),
    decreases s.len(),
{
    if s.len() > 0 {
        let t = s.drop_last();
        assert(ordered_by(t, r)) by {
            assert forall|i: int, j: int| 0 <= i < j < t.len() implies r(#[trigger] t[i], #[trigger] t[j]) by {
                assert(t[i] == s[i] && t[j] == s[j]);
            }
        }
        lemma_keep_ordered(t, p, r);
        lemma_keep_origin(t, p);
        let k0 = keep(t, p);
        if p(s.last()) {
            let k = k0.push(s.last());
            assert forall|i: int, j: int| 0 <= i < j < k.len() implies r(#[trigger] k[i], #[trigger] k[j]) by {
                if j < k0.len() {
                    assert(k[i] == k0[i] && k[j] == k0[j]);
                } else {
                    let m = choose|m: int| 0 <= m < t.len() && #[trigger] k0[i] == t[m] && p(t[m]);
                    assert(k[i] == s[m]);
                    assert(k[j] == s[s.len() - 1]);
                }
            }
        }
    }
}

/// Selecting from a shorter prefix gives a prefix of the selection from a longer one.
pub proof fn lemma_keep_prefix<T>(s: Seq<T>, i: int, j: int, p: spec_fn(T) -> bool)
    requires
        0 <= i <= j <= s.len(),
    ensures
        keep(s.take(i), p).len() <= keep(s.take(j), p).len(),
        keep(s.take(j), p).take(keep(s.take(i), p).len() as int) == keep(s.take(i), p),
    decreases j - i,
{
    if i < j {
        lemma_keep_prefix(s, i, j - 1, p);
        lemma_keep_take_step(s, j - 1, p);
        let a = keep(s.take(i), p);
        let b = keep(s.take(j - 1), p);
        let c = keep(s.take(j), p);
        assert(c.take(a.len() as int) =~= b.take(a.len() as int));
    } else {
        assert(keep(s.take(j), p).take(keep(s.take(i), p).len() as int) =~= keep(s.take(i), p));
    }
}

/// The whole sequence is its longest prefix.
pub proof fn lemma_take_full<T>(s: Seq<T>)
    ensures
        s.take(s.len() as int) == s,
{
    assert(s.take(s.len() as int) =~= s);
}

/// Counting what satisfies `q` among what `p` selects never exceeds counting it in the whole.
pub proof fn lemma_count_keep_le<T>(s: Seq<T>, p: spec_fn(T) -> bool, q: spec_fn(T) -> bool)
    ensures
        count(keep(s, p), q) <= count(s, q),
    decreases s.len(),
{
    if s.len() > 0 {
        lemma_count_keep_le(s.drop_last(), p, q);
        if p(s.last()) {
            lemma_keep_push(keep(s.drop_last(), p), s.last(), q);
        }
    }
}

/// Two sequences that agree pointwise on `q` have the same count under `q`.
pub proof fn lemma_count_pointwise<T>(s: Seq<T>, t: Seq<T>, q: spec_fn(T) -> bool)
    requires
        s.len() == t.len(),
        forall|i: int| 0 <= i < s.len() ==> q(#[trigger] s[i]) == q(t[i]),
    ensures
        count(s, q) == count(t, q),
    decreases s.len(),
{
    if s.len() > 0 {
        assert forall|i: int| 0 <= i < s.drop_last().len() implies q(#[trigger] s.drop_last()[i]) == q(
            t.drop_last()[i],
        ) by {
            assert(s.drop_last()[i] == s[i] && t.drop_last()[i] == t[i]);
        }
        lemma_count_pointwise(s.drop_last(), t.drop_last(), q);
        assert(q(s.last()) == q(t.last()));
    }
}

/// Counting over a sequence extended by one element.
pub proof fn lemma_count_push<T>(s: Seq<T>, x: T, q: spec_fn(T) -> bool)
    ensures
        count(s.push(x), q) == count(s, q) + (if q(x) { 1nat } else { 0nat }),
{
    lemma_keep_push(s, x, q);
}

/// If nothing in `s` satisfies `p`, nothing is selected.
pub proof fn lemma_keep_none<T>(s: Seq<T>, p: spec_fn(T) -> bool)
    requires
        forall|i: int| 0 <= i < s.len() ==> !p(#[trigger] s[i]),
    ensures
        keep(s, p).len() == 0,
    decreases s.len(),
{
    if s.len() > 0 {
        assert forall|i: int| 0 <= i < s.drop_last().len() implies !p(#[trigger] s.drop_last()[i]) by {
            assert(s.drop_last()[i] == s[i]);
        }
        lemma_keep_none(s.drop_last(), p);
    }
}

/// Selecting by a condition that every element meets keeps the whole sequence.
pub proof fn lemma_keep_all<T>(s: Seq<T>, p: spec_fn(T) -> bool)
    requires
        forall|i: int| 0 <= i < s.len() ==> p(#[trigger] s[i]),
    ensures
        keep(s, p) == s,
    decreases s.len(),
{
    if s.len() > 0 {
        assert forall|i: int| 0 <= i < s.drop_last().len() implies p(#[trigger] s.drop_last()[i]) by {
            assert(s.drop_last()[i] == s[i]);
        }
        lemma_keep_all(s.drop_last(), p);
        assert(s.drop_last().push(s.last()) =~= s);
    }
}

/// If `p` holds of some element of `s`, something is selected.
pub proof fn lemma_keep_some<T>(s: Seq<T>, p: spec_fn(T) -> bool, i: int)
    requires
        0 <= i < s.len(),
        p(s[i]),
    ensures
        keep(s, p).len() > 0,
    decreases s.len(),
{
    if i < s.len() - 1 {
        assert(s.drop_last()[i] == s[i]);
        lemma_keep_some(s.drop_last(), p, i);
    }
}

/// Selection keeps exactly the elements that satisfy `p`: an element that
/// does is among the selected ones, and one that does not is not.
pub proof fn lemma_keep_membership<T>(s: Seq<T>, p: spec_fn(T) -> bool, i: int)
    requires
        0 <= i < s.len(),
    ensures
        p(s[i]) ==> keep(s, p).contains(s[i]),
        !p(s[i]) ==> !keep(s, p).contains(s[i]),
    decreases s.len(),
{
    lemma_keep_origin(s, p);
    if !p(s[i]) {
        if keep(s, p).contains(s[i]) {
            let k = choose|k: int| 0 <= k < keep(s, p).len() && keep(s, p)[k] == s[i];
            assert(keep(s, p)[k] == keep(s, p)[k]);
        }
    } else if i == s.len() - 1 {
        assert(keep(s, p)[keep(s, p).len() - 1] == s[i]);
    } else {
        assert(s.drop_last()[i] == s[i]);
        lemma_keep_membership(s.drop_last(), p, i);
        let k = choose|k: int| 0 <= k < keep(s.drop_last(), p).len() && keep(s.drop_last(), p)[k] == s[i];
        if p(s.last()) {
            assert(keep(s, p)[k] == s[i]);
        }
    }
}

/// Counting over a concatenation adds the counts.
pub proof fn lemma_count_add<T>(a: Seq<T>, b: Seq<T>, q: spec_fn(T) -> bool)
    ensures
        count(a + b, q) == count(a, q) + count(b, q),
    decreases b.len(),
{
    if b.len() == 0 {
        assert(a + b =~= a);
    } else {
        lemma_count_add(a, b.drop_last(), q);
        assert(a + b =~= (a + b.drop_last()).push(b.last()));
        lemma_count_push(a + b.drop_last(), b.last(), q);
        lemma_count_push(b.drop_last(), b.last(), q);
        assert(b.drop_last().push(b.last()) =~= b);
    }
}

/// Counting after removing one element.
pub proof fn lemma_count_remove<T>(s: Seq<T>, k: int, q: spec_fn(T) -> bool)
    requires
        0 <= k < s.len(),
    ensures
        count(s.remove(k), q) + (if q(s[k]) { 1nat } else { 0nat }) == count(s, q),
{
    assert(s =~= s.take(k) + (seq![s[k]] + s.skip(k + 1)));
    assert(s.remove(k) =~= s.take(k) + s.skip(k + 1));
    lemma_count_add(s.take(k), seq![s[k]] + s.skip(k + 1), q);
    lemma_count_add(seq![s[k]], s.skip(k + 1), q);
    lemma_count_add(s.take(k), s.skip(k + 1), q);
    assert(seq![s[k]] =~= Seq::<T>::empty().push(s[k]));
    lemma_count_push(Seq::<T>::empty(), s[k], q);
}

/// An element that satisfies `p` is among the selected ones.
pub proof fn lemma_keep_contains<T>(s: Seq<T>, p: spec_fn(T) -> bool, i: int)
    requires
        0 <= i < s.len(),
        p(s[i]),
    ensures
        exists|k: int| 0 <= k < keep(s, p).len() && keep(s, p)[k] == s[i],
    decreases s.len(),
{
    if i == s.len() - 1 {
        assert(keep(s, p)[keep(s, p).len() - 1] == s[i]);
    } else {
        let t = s.drop_last();
        assert(t[i] == s[i]);
        lemma_keep_contains(t, p, i);
        let k = choose|k: int| 0 <= k < keep(t, p).len() && keep(t, p)[k] == t[i];
        assert(keep(s, p)[k] == keep(t, p)[k]);
    }
}

/// `x` placed into `s` before the first element with a smaller key: in a
/// sequence ordered by descending key, equal keys keep their order.
pub open spec fn insert_desc<T>(s: Seq<T>, x: T, key: spec_fn(T) -> int) -> Seq<T>
    decreases s.len(),
{
    if s.len() == 0 {
        seq![x]
    } else if key(s[0]) < key(x) {
        seq![x] + s
    } else {
        seq![s[0]] + insert_desc(s.drop_first(), x, key)
    }
}

/// `s` ordered by descending key; elements with equal keys keep their order.
pub open spec fn sorted_desc<T>(s: Seq<T>, key: spec_fn(T) -> int) -> Seq<T>
    decreases s.len(),
{
    if s.len() == 0 {
        Seq::empty()
    } else {
        insert_desc(sorted_desc(s.drop_last(), key), s.last(), key)
    }
}

/// Inserting at the first position whose key is smaller.
pub proof fn lemma_insert_desc_at<T>(s: Seq<T>, x: T, key: spec_fn(T) -> int, j: int)
    requires
        0 <= j <= s.len(),
        forall|k: int| 0 <= k < j ==> key(s[k]) >= key(x),
        j < s.len() ==> key(s[j]) < key(x),
    ensures
        insert_desc(s, x, key) == s.insert(j, x),
    decreases s.len(),
{
    if s.len() == 0 {
        assert(s.insert(j, x) =~= seq![x]);
    } else if j == 0 {
        assert(s.insert(0, x) =~= seq![x] + s);
    } else {
        let t = s.drop_first();
        assert forall|k: int| 0 <= k < j - 1 implies key(t[k]) >= key(x) by {
            assert(t[k] == s[k + 1]);
        }
        if j < s.len() {
            assert(t[j - 1] == s[j]);
        }
        lemma_insert_desc_at(t, x, key, j - 1);
        assert(s.insert(j, x) =~= seq![s[0]] + t.insert(j - 1, x));
    }
}

/// Ordering keeps the number of elements.
pub proof fn lemma_sorted_desc_len<T>(s: Seq<T>, key: spec_fn(T) -> int)
    ensures
        sorted_desc(s, key).len() == s.len(),
    decreases s.len(),
{
    if s.len() > 0 {
        lemma_sorted_desc_len(s.drop_last(), key);
        lemma_insert_desc_len(sorted_desc(s.drop_last(), key), s.last(), key);
    }
}

/// Inserting adds one element.
pub proof fn lemma_insert_desc_len<T>(s: Seq<T>, x: T, key: spec_fn(T) -> int)
    ensures
        insert_desc(s, x, key).len() == s.len() + 1,
    decreases s.len(),
{
    if s.len() > 0 && !(key(s[0]) < key(x)) {
        lemma_insert_desc_len(s.drop_first(), x, key);
    }
}

/// The page of `s` that starts at `offset` and holds at most `limit` elements.
pub open spec fn page_of<T>(s: Seq<T>, offset: int, limit: int) -> Seq<T> {
    let lo = if offset < s.len() { offset } else { s.len() as int };
    let hi = if offset + limit < s.len() { offset + limit } else { s.len() as int };
    s.subrange(lo, hi)
}

} // verus!
