//! Ordered lists of cell values, as kept in a tile's candidate and
//! cross-out lists.

use vstd::prelude::*;

verus! {

/// The nine values a cell can take, in ascending order.
pub open spec fn digits() -> Seq<u8> {
    seq![1u8, 2u8, 3u8, 4u8, 5u8, 6u8, 7u8, 8u8, 9u8]
}

/// The test for being another value than `value`.
pub open spec fn is_not_value(value: u8) -> spec_fn(u8) -> bool {
    |v: u8| v != value
}

/// `s` with every occurrence of `value` taken out, the rest in order.
pub open spec fn without(s: Seq<u8>, value: u8) -> Seq<u8> {
    s.filter(is_not_value(value))
}

/// Filtering a sequence that ends in `a` filters the front and then decides on `a`.
pub proof fn lemma_filter_push(s: Seq<u8>, a: u8, p: spec_fn(u8) -> bool)
    ensures
        s.push(a).filter(p) == if p(a) {
            s.filter(p).push(a)
        } else {
            s.filter(p)
        },
{
    reveal(Seq::filter);
    assert(s.push(a).drop_last() =~= s);
}

/// What `without` keeps of a sequence that ends in `a`.
pub proof fn lemma_without_push(s: Seq<u8>, a: u8, value: u8)
    ensures
        without(s.push(a), value) == if a != value {
            without(s, value).push(a)
        } else {
            without(s, value)
        },
{
    lemma_filter_push(s, a, is_not_value(value));
}

/// Taking `v` out of a list of one value, or of none.
pub proof fn lemma_without_single(w: u8, v: u8)
    ensures
        without(seq![w], v) == if w == v {
            Seq::<u8>::empty()
        } else {
            seq![w]
        },
        without(Seq::<u8>::empty(), v) == Seq::<u8>::empty(),
{
    let none = Seq::<u8>::empty();
    assert(without(none, v) == none) by {
        reveal(Seq::filter);
    }
    lemma_without_push(none, w, v);
    assert(none.push(w) =~= seq![w]);
}

/// Two predicates that agree on the members of `s` select the same members.
pub proof fn lemma_filter_agree(s: Seq<u8>, p: spec_fn(u8) -> bool, q: spec_fn(u8) -> bool)
    requires
        forall|i: int| 0 <= i < s.len() ==> p(#[trigger] s[i]) == q(s[i]),
    ensures
        s.filter(p) == s.filter(q),
    decreases s.len(),
{
    reveal(Seq::filter);
    if s.len() > 0 {
        lemma_filter_agree(s.drop_last(), p, q);
    }
}

/// Filtering by `p` and then by `q` is filtering by any `r` that, on the
/// members of `s`, holds exactly where both do.
pub proof fn lemma_filter_twice(
    s: Seq<u8>,
    p: spec_fn(u8) -> bool,
    q: spec_fn(u8) -> bool,
    r: spec_fn(u8) -> bool,
)
    requires
        forall|i: int| 0 <= i < s.len() ==> r(#[trigger] s[i]) == (p(s[i]) && q(s[i])),
    ensures
        s.filter(p).filter(q) == s.filter(r),
    decreases s.len(),
{
    reveal(Seq::filter);
    if s.len() > 0 {
        let front = s.drop_last();
        lemma_filter_twice(front, p, q, r);
        if p(s.last()) {
            lemma_filter_push(front.filter(p), s.last(), q);
        }
    }
}

/// A predicate that holds of every member of `s` selects all of `s`.
pub proof fn lemma_filter_all(s: Seq<u8>, p: spec_fn(u8) -> bool)
    requires
        forall|i: int| 0 <= i < s.len() ==> p(#[trigger] s[i]),
    ensures
        s.filter(p) == s,
    decreases s.len(),
{
    reveal(Seq::filter);
    if s.len() > 0 {
        lemma_filter_all(s.drop_last(), p);
    }
}

/// The members of a sequence that ends in `a`: those of the front, and `a`.
pub proof fn lemma_push_contains(s: Seq<u8>, a: u8, v: u8)
    ensures
        s.push(a).contains(v) <==> s.contains(v) || v == a,
{
    let more = s.push(a);
    if s.contains(v) {
        let i = choose|i: int| 0 <= i < s.len() && s[i] == v;
        assert(more[i] == v);
    }
    if v == a {
        assert(more[s.len() as int] == v);
    }
    if more.contains(v) {
        let i = choose|i: int| 0 <= i < more.len() && more[i] == v;
        if i < s.len() {
            assert(s[i] == v);
        }
    }
}

/// What a filter keeps: the members of `s` of which `p` holds.
pub proof fn lemma_filter_members(s: Seq<u8>, p: spec_fn(u8) -> bool)
    ensures
        forall|v: u8| #[trigger] s.filter(p).contains(v) <==> s.contains(v) && p(v),
    decreases s.len(),
{
    reveal(Seq::filter);
    if s.len() > 0 {
        let front = s.drop_last();
        let last = s.last();
        lemma_filter_members(front, p);
        assert(front.push(last) =~= s);
        assert forall|v: u8| #[trigger] s.filter(p).contains(v) <==> s.contains(v) && p(v) by {
            lemma_push_contains(front, last, v);
            lemma_push_contains(front.filter(p), last, v);
        }
    } else {
        assert forall|v: u8| #[trigger] s.filter(p).contains(v) <==> s.contains(v) && p(v) by {}
    }
}

/// Whether `value` occurs in `vs`.
pub fn contains(vs: &Vec<u8>, value: u8) -> (r: bool)
    ensures
        r == vs@.contains(value),
{
    let mut i: usize = 0;
    while i < vs.len()
        invariant
            i <= vs.len(),
            forall|j: int| 0 <= j < i ==> vs@[j] != value,
        decreases vs.len() - i,
    {
        if vs[i] == value {
            return true;
        }
        i += 1;
    }
    false
}

/// `vs` with every occurrence of `value` taken out.
pub fn remove_value(vs: &Vec<u8>, value: u8) -> (r: Vec<u8>)
    ensures
        r@ == without(vs@, value),
{
    let mut kept: Vec<u8> = Vec::new();
    let mut i: usize = 0;
    proof {
        reveal(Seq::filter);
    }
    while i < vs.len()
        invariant
            i <= vs.len(),
            kept@ == without(vs@.take(i as int), value),
        decreases vs.len() - i,
    {
        proof {
            lemma_without_push(vs@.take(i as int), vs@[i as int], value);
            assert(vs@.take(i as int).push(vs@[i as int]) =~= vs@.take(i as int + 1));
        }
        if vs[i] != value {
            kept.push(vs[i]);
        }
        i += 1;
    }
    proof {
        assert(vs@.take(i as int) =~= vs@);
    }
    kept
}

/// A copy of `vs`.
pub fn copy_values(vs: &Vec<u8>) -> (r: Vec<u8>)
    ensures
        r@ == vs@,
{
    let r = vs.clone();
    r
}

} // verus!
