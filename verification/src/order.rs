//! Lexicographic order on strings, as `String`'s `Ord` compares them.
//!
//! Comparing UTF-8 bytes lexicographically orders strings exactly as
//! comparing their characters by code point, so the order is stated over
//! `Seq<char>`.
use vstd::prelude::*;
use crate::text::chars_of;

verus! {

/// `a` comes strictly before `b`.
pub open spec fn str_less(a: Seq<char>, b: Seq<char>) -> bool
    decreases a.len(),
{
    if b.len() == 0 {
        false
    } else if a.len() == 0 {
        true
    } else if (a[0] as u32) < (b[0] as u32) {
        true
    } else if a[0] == b[0] {
        str_less(a.drop_first(), b.drop_first())
    } else {
        false
    }
}

/// No string comes before itself.
pub proof fn lemma_less_irreflexive(a: Seq<char>)
    ensures
        !str_less(a, a),
    decreases a.len(),
{
    if a.len() > 0 {
        lemma_less_irreflexive(a.drop_first());
    }
}

/// Two different strings are ordered one way or the other, never both.
pub proof fn lemma_less_total(a: Seq<char>, b: Seq<char>)
    ensures
        a != b ==> (str_less(a, b) || str_less(b, a)),
        !(str_less(a, b) && str_less(b, a)),
    decreases a.len(),
{
    if a.len() > 0 && b.len() > 0 {
        lemma_less_total(a.drop_first(), b.drop_first());
        vstd::utf8::char_u32_cast(a[0], a[0] as u32);
        vstd::utf8::char_u32_cast(b[0], b[0] as u32);
        if a[0] == b[0] && a != b {
            assert(a =~= seq![a[0]] + a.drop_first());
            assert(b =~= seq![b[0]] + b.drop_first());
        }
    } else if a.len() == 0 && b.len() == 0 {
        assert(a =~= b);
    }
}

/// The order is transitive.
pub proof fn lemma_less_transitive(a: Seq<char>, b: Seq<char>, c: Seq<char>)
    requires
        str_less(a, b),
        str_less(b, c),
    ensures
        str_less(a, c),
    decreases a.len(),
{
    if a.len() > 0 && b.len() > 0 && c.len() > 0 {
        if a[0] == b[0] && b[0] == c[0] {
            lemma_less_transitive(a.drop_first(), b.drop_first(), c.drop_first());
        }
    }
}

/// Executable comparison: `a` comes strictly before `b`.
pub fn less_than(a: &str, b: &str) -> (r: bool)
    ensures
        r == str_less(a@, b@),
{
    let av = chars_of(a);
    let bv = chars_of(b);
    let mut i: usize = 0;
    assert(a@.skip(0) =~= a@ && b@.skip(0) =~= b@);
    while i < av.len() && i < bv.len()
        invariant
            av@ == a@,
            bv@ == b@,
            i <= av.len(),
            i <= bv.len(),
            str_less(a@, b@) == str_less(a@.skip(i as int), b@.skip(i as int)),
        decreases av.len() - i,
    {
        let x = av[i];
        let y = bv[i];
        let ghost sa = a@.skip(i as int);
        let ghost sb = b@.skip(i as int);
        assert(sa[0] == x && sb[0] == y);
        if (x as u32) < (y as u32) {
            return true;
        }
        if x != y {
            return false;
        }
        assert(sa.drop_first() =~= a@.skip(i + 1));
        assert(sb.drop_first() =~= b@.skip(i + 1));
        i += 1;
    }
    i < bv.len()
}

/// `names` is strictly increasing.
pub open spec fn strictly_sorted(names: Seq<Seq<char>>) -> bool {
    forall|i: int, j: int| 0 <= i < j < names.len() ==> str_less(#[trigger] names[i], #[trigger] names[j])
}


/// The first position in `order` whose key is above `k`
///  (or the length of `order`).
pub open spec fn first_above(order: Seq<int>, keys: Seq<nat>, k: nat) -> int
    decreases order.len(),
{
    if order.len() == 0 {
        0
    } else if keys[order[0]] > k {
        0
    } else {
        1 + first_above(order.drop_first(), keys, k)
    }
}

/// The indices `0..n` in a stable order by `keys`: each index is placed
/// after every earlier index whose key is no greater than its own (an
/// insertion sort, which keeps the order of equal keys).
pub open spec fn stable_order(keys: Seq<nat>, n: nat) -> Seq<int>
    decreases n,
{
    if n == 0 {
        Seq::empty()
    } else {
        let o = stable_order(keys, (n - 1) as nat);
        o.insert(first_above(o, keys, keys[n - 1]), n - 1)
    }
}

pub proof fn lemma_first_above_bound(order: Seq<int>, keys: Seq<nat>, k: nat)
    ensures
        0 <= first_above(order, keys, k) <= order.len(),
    decreases order.len(),
{
    if order.len() > 0 {
        lemma_first_above_bound(order.drop_first(), keys, k);
    }
}

pub proof fn lemma_stable_order_len(keys: Seq<nat>, n: nat)
    ensures
        stable_order(keys, n).len() == n,
        forall|q: int| 0 <= q < n ==> 0 <= #[trigger] stable_order(keys, n)[q] < n,
    decreases n,
{
    if n > 0 {
        let o = stable_order(keys, (n - 1) as nat);
        lemma_stable_order_len(keys, (n - 1) as nat);
        lemma_first_above_bound(o, keys, keys[n - 1]);
        let p = first_above(o, keys, keys[n - 1]);
        let r = o.insert(p, n - 1);
        assert forall|q: int| 0 <= q < n implies 0 <= #[trigger] r[q] < n by {
            if q < p {
                assert(r[q] == o[q]);
            } else if q > p {
                assert(r[q] == o[q - 1]);
            }
        }
    }
}


proof fn lemma_first_above_split(order: Seq<int>, keys: Seq<nat>, k: nat)
    ensures
        forall|q: int| 0 <= q < first_above(order, keys, k) ==> keys[#[trigger] order[q]] <= k,
        first_above(order, keys, k) < order.len() ==> keys[order[first_above(order, keys, k)]] > k,
    decreases order.len(),
{
    lemma_first_above_bound(order, keys, k);
    if order.len() > 0 && keys[order[0]] <= k {
        let rest = order.drop_first();
        lemma_first_above_split(rest, keys, k);
        assert forall|q: int| 0 <= q < first_above(order, keys, k) implies keys[#[trigger] order[q]] <= k by {
            if q > 0 {
                assert(order[q] == rest[q - 1]);
            }
        }
        lemma_first_above_bound(rest, keys, k);
        let f = first_above(rest, keys, k);
        assert(first_above(order, keys, k) == 1 + f);
        if 1 + f < order.len() {
            assert(order[1 + f] == rest[f]);
        }
    }
}

/// The stable order of `0..n` by `keys` is a permutation of `0..n` whose
/// keys never decrease.
pub proof fn lemma_stable_order_sorted(keys: Seq<nat>, n: nat)
    ensures
        stable_order(keys, n).len() == n,
        forall|q: int| 0 <= q < n ==> 0 <= #[trigger] stable_order(keys, n)[q] < n,
        forall|a: int, b: int|
            0 <= a < b < n ==> stable_order(keys, n)[a] != stable_order(keys, n)[b],
        forall|x: int| 0 <= x < n ==> stable_order(keys, n).contains(x),
        forall|a: int, b: int|
            0 <= a <= b < n ==> keys[stable_order(keys, n)[a]] <= keys[stable_order(keys, n)[b]],
    decreases n,
{
    lemma_stable_order_len(keys, n);
    if n > 0 {
        let m = (n - 1) as nat;
        let o = stable_order(keys, m);
        lemma_stable_order_sorted(keys, m);
        let k = keys[m as int];
        lemma_first_above_bound(o, keys, k);
        lemma_first_above_split(o, keys, k);
        let p = first_above(o, keys, k);
        let r = o.insert(p, m as int);
        assert(r == stable_order(keys, n));
        assert forall|a: int| 0 <= a < n implies #[trigger] r[a] == (if a < p {
            o[a]
        } else if a == p {
            m as int
        } else {
            o[a - 1]
        }) by {}
        assert forall|a: int, b: int| 0 <= a < b < n implies r[a] != r[b] by {
            if a != p && b != p {
                let a1 = if a < p { a } else { a - 1 };
                let b1 = if b < p { b } else { b - 1 };
                assert(o[a1] != o[b1]);
            }
        }
        assert forall|x: int| 0 <= x < n implies r.contains(x) by {
            if x == m {
                assert(r[p] == x);
            } else {
                assert(o.contains(x));
                let i = choose|i: int| 0 <= i < o.len() && o[i] == x;
                if i < p {
                    assert(r[i] == x);
                } else {
                    assert(r[i + 1] == x);
                }
            }
        }
        assert forall|a: int, b: int| 0 <= a <= b < n implies keys[r[a]] <= keys[r[b]] by {
            if a == p && b > p {
                assert(keys[o[b - 1]] >= keys[o[p]]);
            } else if b == p && a < p {
                assert(keys[o[a]] <= k);
            } else if a != p && b != p {
                let a1 = if a < p { a } else { a - 1 };
                let b1 = if b < p { b } else { b - 1 };
                assert(keys[o[a1]] <= keys[o[b1]]);
            }
        }
    }
}

/// The stable order keeps equal keys in their input order.
pub proof fn lemma_stable_order_stable(keys: Seq<nat>, n: nat)
    ensures
        forall|a: int, b: int|
            0 <= a < b < n && keys[stable_order(keys, n)[a]] == keys[stable_order(keys, n)[b]]
                ==> stable_order(keys, n)[a] < stable_order(keys, n)[b],
    decreases n,
{
    lemma_stable_order_sorted(keys, n);
    if n > 0 {
        let m = (n - 1) as nat;
        let o = stable_order(keys, m);
        lemma_stable_order_sorted(keys, m);
        lemma_stable_order_stable(keys, m);
        let k = keys[m as int];
        lemma_first_above_bound(o, keys, k);
        lemma_first_above_split(o, keys, k);
        let p = first_above(o, keys, k);
        let r = o.insert(p, m as int);
        assert(r == stable_order(keys, n));
        assert forall|a: int| 0 <= a < n implies #[trigger] r[a] == (if a < p {
            o[a]
        } else if a == p {
            m as int
        } else {
            o[a - 1]
        }) by {}
        assert forall|a: int, b: int| 0 <= a < b < n && keys[r[a]] == keys[r[b]] implies r[a] < r[b] by {
            if a == p {
                assert(keys[o[b - 1]] >= keys[o[p]]);
                assert(keys[o[p]] > k);
            } else if b == p {
                assert(o[a] < m);
            } else {
                let a1 = if a < p { a } else { a - 1 };
                let b1 = if b < p { b } else { b - 1 };
                assert(a1 < b1);
            }
        }
    }
}

} // verus!
