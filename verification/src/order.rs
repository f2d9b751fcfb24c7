//! The order of strings: lexicographic by character code, which is the order
//! `String`'s `Ord` gives (UTF-8 byte order agrees with code-point order).
use vstd::prelude::*;

verus! {

/// `a` sorts strictly before `b`.
pub open spec fn str_lt(a: Seq<char>, b: Seq<char>) -> bool
    decreases a.len(),
{
    if a.len() == 0 {
        b.len() > 0
    } else if b.len() == 0 {
        false
    } else if a[0] == b[0] {
        str_lt(a.drop_first(), b.drop_first())
    } else {
        a[0] < b[0]
    }
}

/// No string sorts before itself.

pub proof fn lemma_str_lt_irrefl(a: Seq<char>)
    ensures
        !str_lt(a, a),
    decreases a.len(),
{
    if a.len() > 0 {
        lemma_str_lt_irrefl(a.drop_first());
    }
}

/// String order is transitive.

pub proof fn lemma_str_lt_trans(a: Seq<char>, b: Seq<char>, c: Seq<char>)
    requires
        str_lt(a, b),
        str_lt(b, c),
    ensures
        str_lt(a, c),
    decreases a.len(),
{
    if a.len() > 0 && b.len() > 0 && c.len() > 0 {
        if a[0] == b[0] && b[0] == c[0] {
            lemma_str_lt_trans(a.drop_first(), b.drop_first(), c.drop_first());
        }
    }
}

/// Of two different strings, one sorts before the other.

pub proof fn lemma_str_lt_total(a: Seq<char>, b: Seq<char>)
    requires
        a != b,
    ensures
        str_lt(a, b) || str_lt(b, a),
    decreases a.len(),
{
    if a.len() > 0 && b.len() > 0 {
        if a[0] == b[0] {
            if a.drop_first() == b.drop_first() {
                assert(a =~= seq![a[0]] + a.drop_first());
                assert(b =~= seq![b[0]] + b.drop_first());
            }
            lemma_str_lt_total(a.drop_first(), b.drop_first());
        }
    } else if a.len() == 0 && b.len() == 0 {
        assert(a =~= b);
    }
}

/// String order is asymmetric.

pub proof fn lemma_str_lt_asym(a: Seq<char>, b: Seq<char>)
    requires
        str_lt(a, b),
    ensures
        !str_lt(b, a),
{
    if str_lt(b, a) {
        lemma_str_lt_trans(a, b, a);
        lemma_str_lt_irrefl(a);
    }
}

/// Does `a` sort strictly before `b`?
pub fn str_lt_exec(a: &[char], b: &[char]) -> (r: bool)
    ensures
        r == str_lt(a@, b@),
{
    let mut i: usize = 0;
    assert(a@.skip(0) =~= a@);
    assert(b@.skip(0) =~= b@);
    while i < a.len() && i < b.len() && a[i] == b[i]
        invariant
            i <= a@.len(),
            i <= b@.len(),
            str_lt(a@, b@) == str_lt(a@.skip(i as int), b@.skip(i as int)),
        decreases a@.len() - i,
    {
        assert(a@.skip(i as int).drop_first() =~= a@.skip(i + 1));
        assert(b@.skip(i as int).drop_first() =~= b@.skip(i + 1));
        i += 1;
    }
    if i == a.len() {
        i < b.len()
    } else if i == b.len() {
        false
    } else {
        a[i] < b[i]
    }
}

/// Lexicographic order on tuples of strings.
pub open spec fn tuple_lt(a: Seq<Seq<char>>, b: Seq<Seq<char>>) -> bool
    decreases a.len(),
{
    if a.len() == 0 {
        b.len() > 0
    } else if b.len() == 0 {
        false
    } else if a[0] == b[0] {
        tuple_lt(a.drop_first(), b.drop_first())
    } else {
        str_lt(a[0], b[0])
    }
}

/// No tuple sorts before itself.

pub proof fn lemma_tuple_lt_irrefl(a: Seq<Seq<char>>)
    ensures
        !tuple_lt(a, a),
    decreases a.len(),
{
    if a.len() > 0 {
        lemma_tuple_lt_irrefl(a.drop_first());
    }
}

/// Tuple order is transitive.

pub proof fn lemma_tuple_lt_trans(a: Seq<Seq<char>>, b: Seq<Seq<char>>, c: Seq<Seq<char>>)
    requires
        tuple_lt(a, b),
        tuple_lt(b, c),
    ensures
        tuple_lt(a, c),
    decreases a.len(),
{
    if a.len() > 0 && b.len() > 0 && c.len() > 0 {
        if a[0] == b[0] && b[0] == c[0] {
            lemma_tuple_lt_trans(a.drop_first(), b.drop_first(), c.drop_first());
        } else if a[0] == b[0] {
        } else if b[0] == c[0] {
        } else {
            lemma_str_lt_trans(a[0], b[0], c[0]);
            if a[0] == c[0] {
                lemma_str_lt_asym(a[0], b[0]);
            }
        }
    }
}

/// Of two different tuples, one sorts before the other.

pub proof fn lemma_tuple_lt_total(a: Seq<Seq<char>>, b: Seq<Seq<char>>)
    requires
        a != b,
    ensures
        tuple_lt(a, b) || tuple_lt(b, a),
    decreases a.len(),
{
    if a.len() > 0 && b.len() > 0 {
        if a[0] == b[0] {
            if a.drop_first() == b.drop_first() {
                assert(a =~= seq![a[0]] + a.drop_first());
                assert(b =~= seq![b[0]] + b.drop_first());
            }
            lemma_tuple_lt_total(a.drop_first(), b.drop_first());
        } else {
            lemma_str_lt_total(a[0], b[0]);
        }
    } else if a.len() == 0 && b.len() == 0 {
        assert(a =~= b);
    }
}

/// Tuple order is asymmetric.

pub proof fn lemma_tuple_lt_asym(a: Seq<Seq<char>>, b: Seq<Seq<char>>)
    requires
        tuple_lt(a, b),
    ensures
        !tuple_lt(b, a),
{
    if tuple_lt(b, a) {
        lemma_tuple_lt_trans(a, b, a);
        lemma_tuple_lt_irrefl(a);
    }
}

/// A sequence of keys in strictly increasing order.
pub open spec fn strictly_sorted(keys: Seq<Seq<Seq<char>>>) -> bool {
    forall|i: int, j: int| 0 <= i < j < keys.len() ==> tuple_lt(keys[i], keys[j])
}

/// Two strictly increasing key sequences with the same keys are equal.
pub proof fn lemma_sorted_unique(a: Seq<Seq<Seq<char>>>, b: Seq<Seq<Seq<char>>>)
    requires
        strictly_sorted(a),
        strictly_sorted(b),
        forall|k: Seq<Seq<char>>| a.contains(k) <==> b.contains(k),
    ensures
        a == b,
    decreases a.len(),
{
    if a.len() == 0 {
        if b.len() > 0 {
            assert(b.contains(b[0]));
        }
        assert(a =~= b);
    } else if b.len() == 0 {
        assert(a.contains(a[0]));
    } else {
        // The first elements are both the minimum.
        assert(a.contains(b[0]));
        assert(b.contains(a[0]));
        let ia = choose|i: int| 0 <= i < a.len() && a[i] == b[0];
        let ib = choose|i: int| 0 <= i < b.len() && b[i] == a[0];
        if a[0] != b[0] {
            assert(ia > 0);
            assert(ib > 0);
            assert(tuple_lt(a[0], a[ia]));
            assert(tuple_lt(b[0], b[ib]));
            lemma_tuple_lt_asym(a[0], b[0]);
        }
        assert forall|k: Seq<Seq<char>>| a.drop_first().contains(k) <==> b.drop_first().contains(k) by {
            if a.drop_first().contains(k) {
                let i = choose|i: int| 0 <= i < a.drop_first().len() && a.drop_first()[i] == k;
                assert(a[i + 1] == k);
                assert(tuple_lt(a[0], k));
                assert(b.contains(k));
                let j = choose|j: int| 0 <= j < b.len() && b[j] == k;
                if j == 0 {
                    lemma_tuple_lt_irrefl(k);
                }
                assert(b.drop_first()[j - 1] == k);
            }
            if b.drop_first().contains(k) {
                let i = choose|i: int| 0 <= i < b.drop_first().len() && b.drop_first()[i] == k;
                assert(b[i + 1] == k);
                assert(tuple_lt(b[0], k));
                assert(a.contains(k));
                let j = choose|j: int| 0 <= j < a.len() && a[j] == k;
                if j == 0 {
                    lemma_tuple_lt_irrefl(k);
                }
                assert(a.drop_first()[j - 1] == k);
            }
        }
        lemma_sorted_unique(a.drop_first(), b.drop_first());
        assert(a =~= seq![a[0]] + a.drop_first());
        assert(b =~= seq![b[0]] + b.drop_first());
    }
}

/// Does tuple `a` sort strictly before tuple `b`?
pub fn tuple_lt_exec(a: &Vec<Vec<char>>, b: &Vec<Vec<char>>) -> (r: bool)
    ensures
        r == tuple_lt(a.deep_view(), b.deep_view()),
{
    let ghost av = a.deep_view();
    let ghost bv = b.deep_view();
    let mut i: usize = 0;
    assert(av.skip(0) =~= av);
    assert(bv.skip(0) =~= bv);
    loop
        invariant
            i <= a@.len(),
            i <= b@.len(),
            av == a.deep_view(),
            bv == b.deep_view(),
            tuple_lt(av, bv) == tuple_lt(av.skip(i as int), bv.skip(i as int)),
        decreases a@.len() - i,
    {
        if i == a.len() {
            return i < b.len();
        }
        if i == b.len() {
            return false;
        }
        proof {
            crate::text::lemma_char_deep_view(a@[i as int]);
            crate::text::lemma_char_deep_view(b@[i as int]);
        }
        if crate::text::chars_eq(a[i].as_slice(), b[i].as_slice()) {
            assert(av.skip(i as int).drop_first() =~= av.skip(i + 1));
            assert(bv.skip(i as int).drop_first() =~= bv.skip(i + 1));
            i += 1;
        } else {
            return str_lt_exec(a[i].as_slice(), b[i].as_slice());
        }
    }
}

/// Tuple equality by characters.
pub fn tuple_eq_exec(a: &Vec<Vec<char>>, b: &Vec<Vec<char>>) -> (r: bool)
    ensures
        r == (a.deep_view() == b.deep_view()),
{
    if a.len() != b.len() {
        assert(a.deep_view().len() != b.deep_view().len());
        return false;
    }
    let mut i: usize = 0;
    while i < a.len()
        invariant
            a@.len() == b@.len(),
            i <= a@.len(),
            forall|j: int| 0 <= j < i ==> a.deep_view()[j] == b.deep_view()[j],
        decreases a@.len() - i,
    {
        proof {
            crate::text::lemma_char_deep_view(a@[i as int]);
            crate::text::lemma_char_deep_view(b@[i as int]);
        }
        if !crate::text::chars_eq(a[i].as_slice(), b[i].as_slice()) {
            assert(a.deep_view()[i as int] != b.deep_view()[i as int]);
            return false;
        }
        i += 1;
    }
    assert(a.deep_view() =~= b.deep_view());
    true
}

/// The keys at the given positions.
pub open spec fn keys_at(keys: Seq<Seq<Seq<char>>>, pos: Seq<usize>) -> Seq<Seq<Seq<char>>> {
    pos.map_values(|p: usize| keys[p as int])
}

/// `pos` lists, in increasing key order, one position for every distinct key
/// of `keys`: the position of that key's last occurrence. This is the order
/// and the choice of entries of a `BTreeMap` collected from `keys`.
pub open spec fn is_last_key_order(keys: Seq<Seq<Seq<char>>>, pos: Seq<usize>) -> bool {
    &&& forall|i: int| 0 <= i < pos.len() ==> pos[i] < keys.len()
    &&& strictly_sorted(keys_at(keys, pos))
    &&& forall|k: Seq<Seq<char>>| keys.contains(k) <==> keys_at(keys, pos).contains(k)
    &&& forall|i: int, t: int|
        #![trigger pos[i], keys[t]]
        0 <= i < pos.len() && pos[i] < t < keys.len() ==> keys[t] != keys[pos[i] as int]
}

/// The first entry of `pos` whose key equals the key at `j`.
fn find_key(keys: &Vec<Vec<Vec<char>>>, pos: &Vec<usize>, j: usize) -> (r: Option<usize>)
    requires
        j < keys@.len(),
        forall|i: int| 0 <= i < pos@.len() ==> pos@[i] < keys@.len(),
    ensures
        match r {
            Some(q) => q < pos@.len() && keys.deep_view()[pos@[q as int] as int]
                == keys.deep_view()[j as int],
            None => forall|i: int|
                0 <= i < pos@.len() ==> keys.deep_view()[pos@[i] as int]
                    != keys.deep_view()[j as int],
        },
{
    let mut q: usize = 0;
    while q < pos.len()
        invariant
            j < keys@.len(),
            forall|i: int| 0 <= i < pos@.len() ==> pos@[i] < keys@.len(),
            q <= pos@.len(),
            forall|i: int|
                0 <= i < q ==> keys.deep_view()[pos@[i] as int] != keys.deep_view()[j as int],
        decreases pos@.len() - q,
    {
        if tuple_eq_exec(&keys[pos[q]], &keys[j]) {
            return Some(q);
        }
        q += 1;
    }
    None
}

/// The positions of `keys` in `BTreeMap` order: sorted by key, one per
/// distinct key, the last occurrence of each.
pub fn last_key_order(keys: &Vec<Vec<Vec<char>>>) -> (r: Vec<usize>)
    ensures
        is_last_key_order(keys.deep_view(), r@),
        r@ == btree_order(keys.deep_view()),
{
    let ghost kv = keys.deep_view();
    let mut r: Vec<usize> = Vec::new();
    let mut j: usize = 0;
    while j < keys.len()
        invariant
            kv == keys.deep_view(),
            j <= kv.len(),
            kv.len() == keys@.len(),
            forall|i: int| 0 <= i < r@.len() ==> r@[i] < j,
            strictly_sorted(keys_at(kv, r@)),
            forall|k: Seq<Seq<char>>| kv.take(j as int).contains(k) <==> keys_at(kv, r@).contains(k),
            forall|i: int, t: int|
                #![trigger r@[i], kv[t]]
                0 <= i < r@.len() && r@[i] < t < j ==> kv[t] != kv[r@[i] as int],
        decreases kv.len() - j,
    {
        let ghost old_r = r@;
        // Is the key already present?
        let found = find_key(keys, &r, j);
        assert(kv.take(j + 1) =~= kv.take(j as int).push(kv[j as int]));
        if let Some(q) = found {
            r.set(q, j);
            assert(keys_at(kv, r@) =~= keys_at(kv, old_r));
            assert forall|k: Seq<Seq<char>>| kv.take(j + 1).contains(k) <==> keys_at(kv, r@).contains(
                k,
            ) by {
                if kv.take(j + 1).contains(k) {
                    if k == kv[j as int] {
                        assert(keys_at(kv, old_r)[q as int] == k);
                    } else {
                        let x = choose|x: int| 0 <= x < j + 1 && #[trigger] kv.take(j + 1)[x] == k;
                        assert(kv.take(j as int)[x] == k);
                    }
                }
                if keys_at(kv, r@).contains(k) {
                    assert(kv.take(j as int).contains(k));
                    let x = choose|x: int| 0 <= x < j && #[trigger] kv.take(j as int)[x] == k;
                    assert(kv.take(j + 1)[x] == k);
                }
            }
            assert forall|i: int, t: int| #![trigger r@[i], kv[t]] 0 <= i < r@.len() && r@[i] < t < j + 1 implies kv[t]
                != kv[r@[i] as int] by {
                if i != q as int && t == j as int {
                    assert(keys_at(kv, old_r)[i] == kv[old_r[i] as int]);
                    assert(keys_at(kv, old_r)[q as int] == kv[j as int]);
                    if i < q {
                        assert(tuple_lt(keys_at(kv, old_r)[i], keys_at(kv, old_r)[q as int]));
                    } else {
                        assert(tuple_lt(keys_at(kv, old_r)[q as int], keys_at(kv, old_r)[i]));
                    }
                    lemma_tuple_lt_irrefl(kv[j as int]);
                }
            }
        } else {
            // Find the insertion point.
            let mut p: usize = 0;
            while p < r.len() && !tuple_lt_exec(&keys[j], &keys[r[p]])
                invariant
                    kv == keys.deep_view(),
                    j < kv.len(),
                    kv.len() == keys@.len(),
                    r@ == old_r,
                    forall|i: int| 0 <= i < r@.len() ==> r@[i] < j,
                    p <= r@.len(),
                    forall|i: int| 0 <= i < p ==> tuple_lt(kv[r@[i] as int], kv[j as int]),
                    forall|i: int| 0 <= i < r@.len() ==> kv[r@[i] as int] != kv[j as int],
                decreases r@.len() - p,
            {
                proof {
                    lemma_tuple_lt_total(kv[r@[p as int] as int], kv[j as int]);
                }
                p += 1;
            }
            r.insert(p, j);
            let ghost nk = keys_at(kv, r@);
            let ghost ok = keys_at(kv, old_r);
            assert(nk =~= ok.insert(p as int, kv[j as int]));
            assert forall|a: int, b: int| 0 <= a < b < nk.len() implies tuple_lt(nk[a], nk[b]) by {
                if b == p as int {
                    assert(nk[a] == ok[a]);
                } else if a == p as int {
                    assert(nk[b] == ok[b - 1]);
                    if b - 1 > p as int {
                        assert(tuple_lt(ok[p as int], ok[b - 1]));
                        lemma_tuple_lt_trans(kv[j as int], ok[p as int], ok[b - 1]);
                    }
                } else if a < p as int && b > p as int {
                    assert(nk[a] == ok[a]);
                    assert(nk[b] == ok[b - 1]);
                } else if a > p as int {
                    assert(nk[a] == ok[a - 1]);
                    assert(nk[b] == ok[b - 1]);
                } else {
                    assert(nk[a] == ok[a]);
                    assert(nk[b] == ok[b]);
                }
            }
            assert forall|k: Seq<Seq<char>>| kv.take(j + 1).contains(k) <==> nk.contains(k) by {
                if nk.contains(k) {
                    let x = choose|x: int| 0 <= x < nk.len() && nk[x] == k;
                    if x < p {
                        assert(ok[x] == k);
                        assert(ok.contains(k));
                    } else if x > p {
                        assert(ok[x - 1] == k);
                        assert(ok.contains(k));
                    } else {
                        assert(kv.take(j + 1)[j as int] == k);
                    }
                }
                if kv.take(j + 1).contains(k) {
                    if k == kv[j as int] {
                        assert(nk[p as int] == k);
                    } else {
                        let x = choose|x: int| 0 <= x < j + 1 && #[trigger] kv.take(j + 1)[x] == k;
                        assert(kv.take(j as int)[x] == k);
                        assert(ok.contains(k));
                        let y = choose|y: int| 0 <= y < ok.len() && ok[y] == k;
                        if y < p {
                            assert(nk[y] == k);
                        } else {
                            assert(nk[y + 1] == k);
                        }
                    }
                }
            }
            assert forall|i: int, t: int| #![trigger r@[i], kv[t]] 0 <= i < r@.len() && r@[i] < t < j + 1 implies kv[t]
                != kv[r@[i] as int] by {
                if i < p {
                    assert(r@[i] == old_r[i]);
                } else if i > p {
                    assert(r@[i] == old_r[i - 1]);
                }
            }
        }
        j += 1;
    }
    assert(kv.take(kv.len() as int) =~= kv);
    proof {
        lemma_btree_order(kv, r@);
    }
    r
}

/// The positions of `keys` that a `BTreeMap` collected from them would
/// visit: one per distinct key, in increasing key order, each the last
/// occurrence of its key.
pub open spec fn btree_order(keys: Seq<Seq<Seq<char>>>) -> Seq<usize> {
    choose|pos: Seq<usize>| is_last_key_order(keys, pos)
}

/// `is_last_key_order` has one solution.
pub proof fn lemma_last_key_order_unique(keys: Seq<Seq<Seq<char>>>, p1: Seq<usize>, p2: Seq<usize>)
    requires
        is_last_key_order(keys, p1),
        is_last_key_order(keys, p2),
    ensures
        p1 == p2,
{
    assert forall|k: Seq<Seq<char>>| keys_at(keys, p1).contains(k) <==> keys_at(keys, p2).contains(
        k,
    ) by {
        assert(keys.contains(k) <==> keys_at(keys, p1).contains(k));
        assert(keys.contains(k) <==> keys_at(keys, p2).contains(k));
    }
    lemma_sorted_unique(keys_at(keys, p1), keys_at(keys, p2));
    assert(keys_at(keys, p1).len() == keys_at(keys, p2).len());
    assert forall|i: int| 0 <= i < p1.len() implies p1[i] == p2[i] by {
        assert(keys_at(keys, p1)[i] == keys_at(keys, p2)[i]);
        if p1[i] < p2[i] {
            assert(keys[p2[i] as int] != keys[p1[i] as int]);
        } else if p2[i] < p1[i] {
            assert(keys[p1[i] as int] != keys[p2[i] as int]);
        }
    }
    assert(p1 =~= p2);
}

/// What `last_key_order` returns is `btree_order`.
pub proof fn lemma_btree_order(keys: Seq<Seq<Seq<char>>>, pos: Seq<usize>)
    requires
        is_last_key_order(keys, pos),
    ensures
        btree_order(keys) == pos,
        is_last_key_order(keys, btree_order(keys)),
{
    lemma_last_key_order_unique(keys, pos, btree_order(keys));
}

/// `r` is a `BTreeMap` order of the first `j` keys of `kv`.
pub open spec fn order_upto(kv: Seq<Seq<Seq<char>>>, r: Seq<usize>, j: int) -> bool {
    &&& 0 <= j <= kv.len()
    &&& forall|i: int| 0 <= i < r.len() ==> r[i] < j
    &&& strictly_sorted(keys_at(kv, r))
    &&& forall|k: Seq<Seq<char>>| kv.take(j).contains(k) <==> keys_at(kv, r).contains(k)
    &&& forall|i: int, t: int|
        #![trigger r[i], kv[t]]
        0 <= i < r.len() && r[i] < t < j ==> kv[t] != kv[r[i] as int]
}

/// How many leading keys of `ks` sort before `k`.
pub open spec fn insertion_point(ks: Seq<Seq<Seq<char>>>, k: Seq<Seq<char>>) -> int
    decreases ks.len(),
{
    if ks.len() > 0 && tuple_lt(ks[0], k) {
        1 + insertion_point(ks.drop_first(), k)
    } else {
        0
    }
}

proof fn lemma_insertion_point(ks: Seq<Seq<Seq<char>>>, k: Seq<Seq<char>>)
    ensures
        0 <= insertion_point(ks, k) <= ks.len(),
        forall|i: int| 0 <= i < insertion_point(ks, k) ==> tuple_lt(ks[i], k),
        insertion_point(ks, k) < ks.len() ==> !tuple_lt(ks[insertion_point(ks, k)], k),
    decreases ks.len(),
{
    if ks.len() > 0 && tuple_lt(ks[0], k) {
        lemma_insertion_point(ks.drop_first(), k);
        assert forall|i: int| 0 <= i < insertion_point(ks, k) implies tuple_lt(ks[i], k) by {
            if i > 0 {
                assert(ks[i] == ks.drop_first()[i - 1]);
            }
        }
    }
}

/// One more key: an order of `j` keys extends to one of `j + 1`.
proof fn lemma_order_step(kv: Seq<Seq<Seq<char>>>, r: Seq<usize>, j: int) -> (r2: Seq<usize>)
    requires
        order_upto(kv, r, j),
        j < kv.len(),
        kv.len() <= usize::MAX,
    ensures
        order_upto(kv, r2, j + 1),
{
    assert(kv.take(j + 1) =~= kv.take(j).push(kv[j]));
    if exists|q: int| 0 <= q < r.len() && kv[r[q] as int] == kv[j] {
        let q = choose|q: int| 0 <= q < r.len() && kv[r[q] as int] == kv[j];
        let r2 = r.update(q, j as usize);
        assert(keys_at(kv, r2) =~= keys_at(kv, r));
        assert forall|k: Seq<Seq<char>>| kv.take(j + 1).contains(k) <==> keys_at(kv, r2).contains(k) by {
            if kv.take(j + 1).contains(k) {
                if k == kv[j] {
                    assert(keys_at(kv, r)[q] == k);
                } else {
                    let x = choose|x: int| 0 <= x < j + 1 && #[trigger] kv.take(j + 1)[x] == k;
                    assert(kv.take(j)[x] == k);
                }
            }
            if keys_at(kv, r2).contains(k) {
                assert(kv.take(j).contains(k));
                let x = choose|x: int| 0 <= x < j && #[trigger] kv.take(j)[x] == k;
                assert(kv.take(j + 1)[x] == k);
            }
        }
        assert forall|i: int, t: int|
            #![trigger r2[i], kv[t]]
            0 <= i < r2.len() && r2[i] < t < j + 1 implies kv[t] != kv[r2[i] as int] by {
            if i != q && t == j {
                assert(keys_at(kv, r)[i] == kv[r[i] as int]);
                assert(keys_at(kv, r)[q] == kv[j]);
                if i < q {
                    assert(tuple_lt(keys_at(kv, r)[i], keys_at(kv, r)[q]));
                } else {
                    assert(tuple_lt(keys_at(kv, r)[q], keys_at(kv, r)[i]));
                }
                lemma_tuple_lt_irrefl(kv[j]);
            }
        }
        r2
    } else {
        let ok = keys_at(kv, r);
        lemma_insertion_point(ok, kv[j]);
        let p = insertion_point(ok, kv[j]);
        if p < ok.len() {
            assert(ok[p] == kv[r[p] as int]);
            lemma_tuple_lt_total(ok[p], kv[j]);
        }
        let r2 = r.insert(p, j as usize);
        let nk = keys_at(kv, r2);
        assert(nk =~= ok.insert(p, kv[j]));
        assert forall|a: int, b: int| 0 <= a < b < nk.len() implies tuple_lt(nk[a], nk[b]) by {
            if b == p {
                assert(nk[a] == ok[a]);
            } else if a == p {
                assert(nk[b] == ok[b - 1]);
                if b - 1 > p {
                    assert(tuple_lt(ok[p], ok[b - 1]));
                    lemma_tuple_lt_trans(kv[j], ok[p], ok[b - 1]);
                }
            } else if a < p && b > p {
                assert(nk[a] == ok[a]);
                assert(nk[b] == ok[b - 1]);
            } else if a > p {
                assert(nk[a] == ok[a - 1]);
                assert(nk[b] == ok[b - 1]);
            } else {
                assert(nk[a] == ok[a]);
                assert(nk[b] == ok[b]);
            }
        }
        assert forall|k: Seq<Seq<char>>| kv.take(j + 1).contains(k) <==> nk.contains(k) by {
            if nk.contains(k) {
                let x = choose|x: int| 0 <= x < nk.len() && nk[x] == k;
                if x < p {
                    assert(ok[x] == k);
                    assert(ok.contains(k));
                } else if x > p {
                    assert(ok[x - 1] == k);
                    assert(ok.contains(k));
                } else {
                    assert(kv.take(j + 1)[j] == k);
                }
            }
            if kv.take(j + 1).contains(k) {
                if k == kv[j] {
                    assert(nk[p] == k);
                } else {
                    let x = choose|x: int| 0 <= x < j + 1 && #[trigger] kv.take(j + 1)[x] == k;
                    assert(kv.take(j)[x] == k);
                    assert(ok.contains(k));
                    let y = choose|y: int| 0 <= y < ok.len() && ok[y] == k;
                    if y < p {
                        assert(nk[y] == k);
                    } else {
                        assert(nk[y + 1] == k);
                    }
                }
            }
        }
        assert forall|i: int, t: int|
            #![trigger r2[i], kv[t]]
            0 <= i < r2.len() && r2[i] < t < j + 1 implies kv[t] != kv[r2[i] as int] by {
            if i < p {
                assert(r2[i] == r[i]);
                if t == j {
                    assert(ok[i] == kv[r[i] as int]);
                }
            } else if i > p {
                assert(r2[i] == r[i - 1]);
                if t == j {
                    assert(ok[i - 1] == kv[r[i - 1] as int]);
                }
            }
        }
        r2
    }
}

/// An order of the first `j` keys exists.
proof fn lemma_order_upto(kv: Seq<Seq<Seq<char>>>, j: int) -> (r: Seq<usize>)
    requires
        0 <= j <= kv.len(),
        kv.len() <= usize::MAX,
    ensures
        order_upto(kv, r, j),
    decreases j,
{
    if j == 0 {
        let r = Seq::<usize>::empty();
        assert(keys_at(kv, r) =~= Seq::<Seq<Seq<char>>>::empty());
        assert(kv.take(0) =~= Seq::<Seq<Seq<char>>>::empty());
        r
    } else {
        let r = lemma_order_upto(kv, j - 1);
        lemma_order_step(kv, r, j - 1)
    }
}

/// Every sequence of keys that a `Vec` can hold has a `BTreeMap` order,
/// and `btree_order` is it.
pub proof fn lemma_btree_order_exists(keys: Seq<Seq<Seq<char>>>)
    requires
        keys.len() <= usize::MAX,
    ensures
        is_last_key_order(keys, btree_order(keys)),
{
    let r = lemma_order_upto(keys, keys.len() as int);
    assert(keys.take(keys.len() as int) =~= keys);
    lemma_btree_order(keys, r);
}

} // verus!
