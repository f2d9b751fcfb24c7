//! Facts about sequences built element by element.
use vstd::prelude::*;

verus! {

/// `f` applied to each element, the results concatenated in order.
pub open spec fn concat_map<A, B>(s: Seq<A>, f: spec_fn(A) -> Seq<B>) -> Seq<B>
    decreases s.len(),
{
    if s.len() == 0 {
        Seq::empty()
    } else {
        concat_map(s.drop_last(), f) + f(s.last())
    }
}

/// When `f` gives nothing for every element, nothing comes out.
pub proof fn lemma_concat_map_empty<A, B>(s: Seq<A>, f: spec_fn(A) -> Seq<B>)
    requires
        forall|i: int| 0 <= i < s.len() ==> f(s[i]).len() == 0,
    ensures
        concat_map(s, f).len() == 0,
    decreases s.len(),
{
    if s.len() > 0 {
        lemma_concat_map_empty(s.drop_last(), f);
    }
}

/// When everything `f` gives satisfies `p`, everything that comes out does.
pub proof fn lemma_concat_map_all<A, B>(s: Seq<A>, f: spec_fn(A) -> Seq<B>, p: spec_fn(B) -> bool)
    requires
        forall|i: int, j: int| 0 <= i < s.len() && 0 <= j < f(s[i]).len() ==> p(#[trigger] f(s[i])[j]),
    ensures
        forall|j: int| 0 <= j < concat_map(s, f).len() ==> p(#[trigger] concat_map(s, f)[j]),
    decreases s.len(),
{
    if s.len() > 0 {
        lemma_concat_map_all(s.drop_last(), f, p);
        let a = concat_map(s.drop_last(), f);
        let b = f(s.last());
        assert forall|j: int| 0 <= j < concat_map(s, f).len() implies p(#[trigger] concat_map(s, f)[j]) by {
            if j < a.len() {
                assert(concat_map(s, f)[j] == a[j]);
            } else {
                assert(concat_map(s, f)[j] == b[j - a.len()]);
                assert(s[s.len() - 1] == s.last());
            }
        }
    }
}

/// Mapping `h` over what comes out is concatenating `g`, where `g` gives
/// for each element what `f` gives mapped by `h`.
pub proof fn lemma_concat_map_map_values<A, B, C>(
    s: Seq<A>,
    f: spec_fn(A) -> Seq<B>,
    g: spec_fn(A) -> Seq<C>,
    h: spec_fn(B) -> C,
)
    requires
        forall|x: A| #[trigger] g(x) == f(x).map_values(h),
    ensures
        concat_map(s, f).map_values(h) == concat_map(s, g),
    decreases s.len(),
{
    if s.len() > 0 {
        lemma_concat_map_map_values(s.drop_last(), f, g, h);
        let a = concat_map(s.drop_last(), f);
        let b = f(s.last());
        assert((a + b).map_values(h) =~= a.map_values(h) + b.map_values(h));
        assert(g(s.last()) == b.map_values(h));
    }
}

/// What `f` gives for any one element is at most as long as what comes out.
pub proof fn lemma_concat_map_len_ge<A, B>(s: Seq<A>, f: spec_fn(A) -> Seq<B>, i: int)
    requires
        0 <= i < s.len(),
    ensures
        f(s[i]).len() <= concat_map(s, f).len(),
    decreases s.len(),
{
    if i < s.len() - 1 {
        lemma_concat_map_len_ge(s.drop_last(), f, i);
        assert(s.drop_last()[i] == s[i]);
    } else {
        assert(s.last() == s[i]);
    }
}

/// Whatever `f` gives for one element comes out.
pub proof fn lemma_concat_map_contains<A, B>(s: Seq<A>, f: spec_fn(A) -> Seq<B>, i: int, v: B)
    requires
        0 <= i < s.len(),
        f(s[i]).contains(v),
    ensures
        concat_map(s, f).contains(v),
    decreases s.len(),
{
    let a = concat_map(s.drop_last(), f);
    let b = f(s.last());
    if i < s.len() - 1 {
        assert(s.drop_last()[i] == s[i]);
        lemma_concat_map_contains(s.drop_last(), f, i, v);
        let k = choose|k: int| 0 <= k < a.len() && a[k] == v;
        assert((a + b)[k] == v);
    } else {
        assert(s.last() == s[i]);
        let k = choose|k: int| 0 <= k < b.len() && b[k] == v;
        assert((a + b)[a.len() + k] == v);
    }
}

/// What either part holds, the concatenation holds.
pub proof fn lemma_contains_concat<A>(a: Seq<A>, b: Seq<A>, v: A)
    requires
        a.contains(v) || b.contains(v),
    ensures
        (a + b).contains(v),
{
    if a.contains(v) {
        let k = choose|k: int| 0 <= k < a.len() && a[k] == v;
        assert((a + b)[k] == v);
    } else {
        let k = choose|k: int| 0 <= k < b.len() && b[k] == v;
        assert((a + b)[a.len() + k] == v);
    }
}

/// `first_map` gives what `f` gives for the first element for which it
/// gives anything.
pub proof fn lemma_first_map_at<A, B>(s: Seq<A>, f: spec_fn(A) -> Option<B>, i: int)
    requires
        0 <= i < s.len(),
        f(s[i]) is Some,
        forall|j: int| 0 <= j < i ==> f(#[trigger] s[j]) is None,
    ensures
        first_map(s, f) == f(s[i]),
    decreases i,
{
    if i > 0 {
        assert(f(s[0]) is None);
        assert forall|j: int| 0 <= j < i - 1 implies f(#[trigger] s.drop_first()[j]) is None by {
            assert(s.drop_first()[j] == s[j + 1]);
        }
        assert(s.drop_first()[i - 1] == s[i]);
        lemma_first_map_at(s.drop_first(), f, i - 1);
    }
}

/// A `filter_map` is empty exactly when `f` keeps nothing.
pub proof fn lemma_filter_map_empty<A, B>(s: Seq<A>, f: spec_fn(A) -> Option<B>)
    ensures
        s.filter_map(f).len() == 0 <==> forall|i: int| 0 <= i < s.len() ==> f(s[i]) is None,
    decreases s.len(),
{
    if s.len() > 0 {
        lemma_filter_map_empty(s.drop_last(), f);
        let d = s.drop_last();
        if f(s.last()) is Some {
            assert(f(s[s.len() - 1]) is Some);
        } else {
            if forall|i: int| 0 <= i < d.len() ==> f(d[i]) is None {
                assert forall|i: int| 0 <= i < s.len() implies f(s[i]) is None by {
                    if i < s.len() - 1 {
                        assert(s[i] == d[i]);
                    }
                }
            }
            if forall|i: int| 0 <= i < s.len() ==> f(s[i]) is None {
                assert forall|i: int| 0 <= i < d.len() implies f(d[i]) is None by {
                    assert(s[i] == d[i]);
                }
            }
        }
    }
}

/// What `f` keeps from an element is in the `filter_map`.
pub proof fn lemma_filter_map_contains<A, B>(s: Seq<A>, f: spec_fn(A) -> Option<B>, i: int)
    requires
        0 <= i < s.len(),
        f(s[i]) is Some,
    ensures
        s.filter_map(f).contains(f(s[i])->0),
    decreases s.len(),
{
    if i == s.len() - 1 {
        assert(s.filter_map(f)[s.filter_map(f).len() - 1] == f(s[i])->0);
    } else {
        assert(s.drop_last()[i] == s[i]);
        lemma_filter_map_contains(s.drop_last(), f, i);
        let k = choose|k: int| 0 <= k < s.drop_last().filter_map(f).len() && s.drop_last().filter_map(f)[k] == f(s[i])->0;
        assert(s.filter_map(f)[k] == f(s[i])->0);
    }
}

/// What `f` gives for the first element for which it gives anything.
pub open spec fn first_map<A, B>(s: Seq<A>, f: spec_fn(A) -> Option<B>) -> Option<B>
    decreases s.len(),
{
    if s.len() == 0 {
        None
    } else {
        match f(s[0]) {
            Some(b) => Some(b),
            None => first_map(s.drop_first(), f),
        }
    }
}

/// At most the first `n` elements of `s`.
pub open spec fn cap<A>(s: Seq<A>, n: nat) -> Seq<A> {
    if s.len() <= n {
        s
    } else {
        s.take(n as int)
    }
}

/// Looking one element further: the earlier answer stands, else the new
/// element's.
pub proof fn lemma_first_map_push<A, B>(s: Seq<A>, x: A, f: spec_fn(A) -> Option<B>)
    ensures
        first_map(s.push(x), f) == match first_map(s, f) {
            Some(b) => Some(b),
            None => f(x),
        },
    decreases s.len(),
{
    if s.len() == 0 {
        assert(s.push(x).drop_first() =~= Seq::<A>::empty());
        assert(s.push(x)[0] == x);
        assert(first_map(s.push(x).drop_first(), f) is None);
    } else {
        assert(s.push(x).drop_first() =~= s.drop_first().push(x));
        assert(s.push(x)[0] == s[0]);
        lemma_first_map_push(s.drop_first(), x, f);
    }
}

} // verus!
