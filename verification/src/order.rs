//! Sort keys and the stable sorting order of a list of them.
//!
//! A key is a sequence of `u64`, compared lexicographically: a string is
//! keyed by its code points, which orders it as `str`'s `Ord` does (byte
//! order of UTF-8 is code point order), and an enum by a one-element key
//! holding its rank.
use vstd::prelude::*;
use vstd::string::*;

verus! {

/// Lexicographic "less than" on keys.
pub open spec fn key_lt(a: Seq<u64>, b: Seq<u64>) -> bool
    decreases a.len(),
{
    if a.len() == 0 {
        b.len() > 0
    } else if b.len() == 0 {
        false
    } else if a[0] < b[0] {
        true
    } else if a[0] > b[0] {
        false
    } else {
        key_lt(a.drop_first(), b.drop_first())
    }
}

/// The key of a string: its code points.
pub open spec fn text_key(s: Seq<char>) -> Seq<u64> {
    s.map_values(|c: char| c as u64)
}

/// The key of a string has one number per character: its code point.
pub proof fn lemma_text_key_code_points(s: Seq<char>)
    ensures
        text_key(s).len() == s.len(),
        forall|i: int| 0 <= i < s.len() ==> #[trigger] text_key(s)[i] == s[i] as u64,
{
}

/// Keys `a` and `b` agree on their first `k` numbers, and there `a` ends
/// while `b` goes on, or `a`'s number is the smaller.
pub open spec fn first_smaller_at(a: Seq<u64>, b: Seq<u64>, k: int) -> bool {
    &&& 0 <= k <= a.len()
    &&& k <= b.len()
    &&& a.take(k) == b.take(k)
    &&& ((k == a.len() && k < b.len()) || (k < a.len() && k < b.len() && a[k] < b[k]))
}

/// Key `a` is less than key `b` exactly when, after their longest common
/// prefix, `a` ends while `b` goes on, or `a`'s next number is the smaller.
pub proof fn lemma_key_lt_lexicographic(a: Seq<u64>, b: Seq<u64>)
    ensures
        key_lt(a, b) <==> exists|k: int| #[trigger] first_smaller_at(a, b, k),
    decreases a.len(),
{
    if a.len() > 0 && b.len() > 0 {
        let (a1, b1) = (a.drop_first(), b.drop_first());
        lemma_key_lt_lexicographic(a1, b1);
        if key_lt(a, b) {
            if a[0] < b[0] {
                assert(a.take(0) =~= b.take(0));
                assert(first_smaller_at(a, b, 0));
            } else {
                let k = choose|k: int| #[trigger] first_smaller_at(a1, b1, k);
                assert(a.take(k + 1) =~= seq![a[0]] + a1.take(k));
                assert(b.take(k + 1) =~= seq![b[0]] + b1.take(k));
                assert(first_smaller_at(a, b, k + 1));
            }
        } else {
            assert forall|k: int| !#[trigger] first_smaller_at(a, b, k) by {
                if first_smaller_at(a, b, k) {
                    if k == 0 {
                        assert(a[0] < b[0]);
                    } else {
                        assert(a[0] == a.take(k)[0]);
                        assert(b[0] == b.take(k)[0]);
                        assert(a1.take(k - 1) =~= a.take(k).drop_first());
                        assert(b1.take(k - 1) =~= b.take(k).drop_first());
                        assert(first_smaller_at(a1, b1, k - 1));
                    }
                }
            }
        }
    } else if a.len() == 0 && b.len() > 0 {
        assert(a.take(0) =~= b.take(0));
        assert(first_smaller_at(a, b, 0));
    } else {
        assert forall|k: int| !#[trigger] first_smaller_at(a, b, k) by {}
    }
}

/// No key is less than itself.
pub proof fn lemma_key_lt_irreflexive(a: Seq<u64>)
    ensures
        !key_lt(a, a),
    decreases a.len(),
{
    if a.len() > 0 {
        lemma_key_lt_irreflexive(a.drop_first());
    }
}

/// "Less than" on keys is transitive.
pub proof fn lemma_key_lt_transitive(a: Seq<u64>, b: Seq<u64>, c: Seq<u64>)
    requires
        key_lt(a, b),
        key_lt(b, c),
    ensures
        key_lt(a, c),
    decreases a.len(),
{
    if a.len() > 0 && b.len() > 0 && c.len() > 0 && a[0] == b[0] && b[0] == c[0] {
        lemma_key_lt_transitive(a.drop_first(), b.drop_first(), c.drop_first());
    }
}

/// Two keys neither of which is less than the other are equal.
pub proof fn lemma_key_lt_total(a: Seq<u64>, b: Seq<u64>)
    ensures
        key_lt(a, b) || key_lt(b, a) || a == b,
    decreases a.len(),
{
    if a.len() > 0 && b.len() > 0 && a[0] == b[0] {
        lemma_key_lt_total(a.drop_first(), b.drop_first());
        if a.drop_first() == b.drop_first() {
            assert(a =~= seq![a[0]] + a.drop_first());
            assert(b =~= seq![b[0]] + b.drop_first());
        }
    } else if a.len() == 0 && b.len() == 0 {
        assert(a =~= b);
    }
}

/// Keys of one number compare as their numbers do.
pub proof fn lemma_single_key_lt(x: u64, y: u64)
    ensures
        key_lt(seq![x], seq![y]) == (x < y),
        (seq![x] == seq![y]) == (x == y),
{
    assert(seq![x].drop_first() =~= Seq::<u64>::empty());
    assert(seq![y].drop_first() =~= Seq::<u64>::empty());
    lemma_key_lt_irreflexive(Seq::<u64>::empty());
    if seq![x] == seq![y] {
        assert(seq![x][0] == seq![y][0]);
    }
}

proof fn lemma_key_lt_skip(a: Seq<u64>, b: Seq<u64>, i: int)
    requires
        0 <= i <= a.len(),
        i <= b.len(),
        a.take(i) == b.take(i),
    ensures
        key_lt(a, b) == key_lt(a.skip(i), b.skip(i)),
    decreases i,
{
    if i > 0 {
        assert(a[0] == a.take(i)[0]);
        assert(b[0] == b.take(i)[0]);
        assert(a.drop_first().take(i - 1) =~= a.take(i).drop_first());
        assert(b.drop_first().take(i - 1) =~= b.take(i).drop_first());
        lemma_key_lt_skip(a.drop_first(), b.drop_first(), i - 1);
        assert(a.drop_first().skip(i - 1) =~= a.skip(i));
        assert(b.drop_first().skip(i - 1) =~= b.skip(i));
    } else {
        assert(a.skip(0) =~= a);
        assert(b.skip(0) =~= b);
    }
}

/// Whether key `a` is lexicographically less than key `b`.
pub fn key_less(a: &Vec<u64>, b: &Vec<u64>) -> (r: bool)
    ensures
        r == key_lt(a@, b@),
{
    let n: usize = a.len();
    let m: usize = b.len();
    let mut i: usize = 0;
    while i < n && i < m
        invariant
            n == a@.len(),
            m == b@.len(),
            i <= n,
            i <= m,
            a@.take(i as int) == b@.take(i as int),
        decreases n - i,
    {
        if a[i] < b[i] {
            proof {
                lemma_key_lt_skip(a@, b@, i as int);
                assert(a@.skip(i as int)[0] == a@[i as int]);
                assert(b@.skip(i as int)[0] == b@[i as int]);
            }
            return true;
        }
        if a[i] > b[i] {
            proof {
                lemma_key_lt_skip(a@, b@, i as int);
                assert(a@.skip(i as int)[0] == a@[i as int]);
                assert(b@.skip(i as int)[0] == b@[i as int]);
            }
            return false;
        }
        assert(a@.take(i + 1) =~= a@.take(i as int).push(a@[i as int]));
        assert(b@.take(i + 1) =~= b@.take(i as int).push(b@[i as int]));
        i = i + 1;
    }
    proof {
        lemma_key_lt_skip(a@, b@, i as int);
    }
    i < m
}

/// The key of a string, built from its characters.
pub fn text_key_of(s: &str) -> (r: Vec<u64>)
    ensures
        r@ == text_key(s@),
{
    let n: usize = s.unicode_len();
    let mut r: Vec<u64> = Vec::new();
    let mut i: usize = 0;
    while i < n
        invariant
            n == s@.len(),
            i <= n,
            r@ =~= text_key(s@.take(i as int)),
        decreases n - i,
    {
        let c = s.get_char(i);
        r.push(c as u64);
        assert(text_key(s@.take(i + 1)) =~= text_key(s@.take(i as int)).push(c as u64));
        i = i + 1;
    }
    assert(s@.take(n as int) =~= s@);
    r
}

/// Item `x` comes before item `y` in a stable sort by `keys`: its key is
/// smaller, or the keys are equal and `x` stood first.
pub open spec fn before(keys: Seq<Seq<u64>>, x: int, y: int) -> bool {
    key_lt(keys[x], keys[y]) || (keys[x] == keys[y] && x < y)
}

/// Position `k` occurs in `order`.
pub open spec fn placed(order: Seq<usize>, k: int) -> bool {
    exists|a: int| 0 <= a < order.len() && order[a] == k
}

/// `order` lists the positions `0..keys.len()` in the order of a stable
/// sort by `keys`: every position once, keys ascending, ties in the
/// order they were given.
pub open spec fn is_stable_order(keys: Seq<Seq<u64>>, order: Seq<usize>) -> bool {
    &&& order.len() == keys.len()
    &&& forall|a: int| 0 <= a < order.len() ==> (#[trigger] order[a]) < keys.len()
    &&& forall|k: int| 0 <= k < keys.len() ==> #[trigger] placed(order, k)
    &&& forall|a: int, b: int|
        0 <= a < b < order.len() ==> before(keys, #[trigger] order[a] as int, #[trigger] order[b] as int)
}

proof fn lemma_before_transitive(keys: Seq<Seq<u64>>, x: int, y: int, z: int)
    requires
        before(keys, x, y),
        before(keys, y, z),
    ensures
        before(keys, x, z),
{
    if key_lt(keys[x], keys[y]) && key_lt(keys[y], keys[z]) {
        lemma_key_lt_transitive(keys[x], keys[y], keys[z]);
    }
}

proof fn lemma_before_asymmetric(keys: Seq<Seq<u64>>, x: int, y: int)
    requires
        before(keys, x, y),
    ensures
        !before(keys, y, x),
{
    if key_lt(keys[x], keys[y]) && key_lt(keys[y], keys[x]) {
        lemma_key_lt_transitive(keys[x], keys[y], keys[x]);
        lemma_key_lt_irreflexive(keys[x]);
    }
    if key_lt(keys[x], keys[y]) && keys[y] == keys[x] {
        lemma_key_lt_irreflexive(keys[x]);
    }
    if keys[x] == keys[y] && key_lt(keys[y], keys[x]) {
        lemma_key_lt_irreflexive(keys[x]);
    }
}

/// An item that comes before another in a stable sort has no greater key.
pub proof fn lemma_before_not_reversed(keys: Seq<Seq<u64>>, x: int, y: int)
    requires
        before(keys, x, y),
    ensures
        !key_lt(keys[y], keys[x]),
{
    if key_lt(keys[y], keys[x]) {
        if key_lt(keys[x], keys[y]) {
            lemma_key_lt_transitive(keys[x], keys[y], keys[x]);
        }
        lemma_key_lt_irreflexive(keys[x]);
    }
}

/// The stable order of a list of keys is unique: two orders that both
/// sort the same keys stably are the same order.
pub proof fn lemma_stable_order_unique(keys: Seq<Seq<u64>>, o1: Seq<usize>, o2: Seq<usize>)
    requires
        is_stable_order(keys, o1),
        is_stable_order(keys, o2),
    ensures
        o1 == o2,
{
    assert forall|a: int| 0 <= a < o1.len() implies o1[a] == o2[a] by {
        lemma_same_at(keys, o1, o2, a);
    }
    assert(o1 =~= o2);
}

proof fn lemma_same_at(keys: Seq<Seq<u64>>, o1: Seq<usize>, o2: Seq<usize>, a: int)
    requires
        is_stable_order(keys, o1),
        is_stable_order(keys, o2),
        0 <= a < o1.len(),
    ensures
        o1[a] == o2[a],
    decreases a,
{
    assert forall|e: int| 0 <= e < a implies o1[e] == o2[e] by {
        lemma_same_at(keys, o1, o2, e);
    }
    if o1[a] != o2[a] {
        let x = o1[a] as int;
        let y = o2[a] as int;
        assert(placed(o1, y));
        assert(placed(o2, x));
        let b = choose|b: int| 0 <= b < o1.len() && o1[b] == y;
        let c = choose|c: int| 0 <= c < o2.len() && o2[c] == x;
        // Before `a` both orders agree, so `x` and `y` stand after `a` in the other order.
        if c < a {
            assert(o1[c] == o2[c]);
            assert(before(keys, o1[c] as int, o1[a] as int));
            lemma_before_asymmetric(keys, x, x);
        }
        if b < a {
            assert(o2[b] == o1[b]);
            assert(before(keys, o2[b] as int, o2[a] as int));
            lemma_before_asymmetric(keys, y, y);
        }
        assert(c > a && b > a);
        assert(before(keys, o2[a] as int, o2[c] as int));
        assert(before(keys, o1[a] as int, o1[b] as int));
        lemma_before_asymmetric(keys, x, y);
    }
}

/// Keys that are already in order are sorted by leaving them where they
/// are: the stable order of non-decreasing keys is `0, 1, ..., n - 1`.
pub proof fn lemma_sorted_keys_stay(keys: Seq<Seq<u64>>, order: Seq<usize>)
    requires
        forall|i: int, j: int| 0 <= i < j < keys.len() ==> !key_lt(#[trigger] keys[j], #[trigger] keys[i]),
        is_stable_order(keys, order),
    ensures
        forall|a: int| 0 <= a < order.len() ==> order[a] == a,
{
    if keys.len() > 0 {
        // The last position occurs in the order, so every position fits a `usize`.
        assert(placed(order, keys.len() - 1));
    }
    let id = Seq::new(keys.len(), |i: int| i as usize);
    assert forall|k: int| 0 <= k < keys.len() implies #[trigger] placed(id, k) by {
        assert(id[k] == k);
    }
    assert forall|a: int, b: int| 0 <= a < b < id.len() implies before(
        keys,
        #[trigger] id[a] as int,
        #[trigger] id[b] as int,
    ) by {
        lemma_key_lt_total(keys[a], keys[b]);
    }
    lemma_stable_order_unique(keys, order, id);
}

/// The positions of `keys` in the order of a stable sort by key.
pub fn stable_order(keys: &Vec<Vec<u64>>) -> (order: Vec<usize>)
    ensures
        is_stable_order(keys@.map_values(|k: Vec<u64>| k@), order@),
{
    let ghost ks = keys@.map_values(|k: Vec<u64>| k@);
    let n: usize = keys.len();
    let mut order: Vec<usize> = Vec::new();
    let mut i: usize = 0;
    while i < n
        invariant
            n == keys@.len(),
            ks == keys@.map_values(|k: Vec<u64>| k@),
            ks.len() == n,
            i <= n,
            order@.len() == i,
            forall|a: int| 0 <= a < order@.len() ==> (#[trigger] order@[a]) < i,
            forall|k: int| 0 <= k < i ==> #[trigger] placed(order@, k),
            forall|a: int, b: int|
                0 <= a < b < order@.len() ==> before(
                    ks,
                    #[trigger] order@[a] as int,
                    #[trigger] order@[b] as int,
                ),
        decreases n - i,
    {
        let mut pos: usize = i;
        while pos > 0 && key_less(&keys[i], &keys[order[pos - 1]])
            invariant
                n == keys@.len(),
                ks == keys@.map_values(|k: Vec<u64>| k@),
                ks.len() == n,
                i < n,
                pos <= i,
                order@.len() == i,
                forall|a: int| 0 <= a < order@.len() ==> (#[trigger] order@[a]) < i,
                forall|q: int| pos <= q < i ==> key_lt(ks[i as int], ks[#[trigger] order@[q] as int]),
            decreases pos,
        {
            assert(ks[i as int] == keys@[i as int]@);
            assert(ks[order@[pos - 1] as int] == keys@[order@[pos - 1] as int]@);
            pos = pos - 1;
        }
        let ghost old_order = order@;
        proof {
            if pos > 0 {
                let x = old_order[pos - 1] as int;
                assert(ks[i as int] == keys@[i as int]@);
                assert(ks[x] == keys@[x]@);
                lemma_key_lt_total(ks[i as int], ks[x]);
                assert(before(ks, x, i as int));
                assert forall|q: int| 0 <= q < pos implies before(
                    ks,
                    #[trigger] old_order[q] as int,
                    i as int,
                ) by {
                    if q < pos - 1 {
                        lemma_before_transitive(ks, old_order[q] as int, x, i as int);
                    }
                }
            }
        }
        order.insert(pos, i);
        proof {
            let no = order@;
            assert(no == old_order.insert(pos as int, i));
            assert forall|a: int, b: int| 0 <= a < b < no.len() implies before(
                ks,
                #[trigger] no[a] as int,
                #[trigger] no[b] as int,
            ) by {
                if a < pos && b < pos {
                    assert(no[a] == old_order[a] && no[b] == old_order[b]);
                } else if a < pos && b == pos {
                    assert(no[a] == old_order[a]);
                } else if a < pos && b > pos {
                    assert(no[a] == old_order[a] && no[b] == old_order[b - 1]);
                } else if a == pos {
                    assert(no[b] == old_order[b - 1]);
                    assert(key_lt(ks[i as int], ks[old_order[b - 1] as int]));
                } else {
                    assert(no[a] == old_order[a - 1] && no[b] == old_order[b - 1]);
                }
            }
            assert forall|k: int| 0 <= k < i + 1 implies #[trigger] placed(no, k) by {
                if k == i {
                    assert(no[pos as int] == i);
                } else {
                    assert(placed(old_order, k));
                    let a0 = choose|a: int| 0 <= a < old_order.len() && old_order[a] == k;
                    if a0 < pos {
                        assert(no[a0] == k);
                    } else {
                        assert(no[a0 + 1] == k);
                    }
                }
            }
            assert forall|a: int| 0 <= a < no.len() implies (#[trigger] no[a]) < i + 1 by {
                if a < pos {
                    assert(no[a] == old_order[a]);
                } else if a > pos {
                    assert(no[a] == old_order[a - 1]);
                }
            }
        }
        i = i + 1;
    }
    order
}

} // verus!
