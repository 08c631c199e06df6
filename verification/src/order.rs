//! Ordering lists by a text key: the order of `str::cmp` (code points,
//! lexicographically), a stable sort, and the removal of neighbours whose keys
//! are equal up to ASCII case (`Vec::dedup_by`).
//!
//! The sort and the removal are computed on keys and give back positions, so
//! that any list can be reordered by them.

use vstd::prelude::*;
use crate::text::{ascii_lower, eq_ignore_ascii_case};

verus! {

/// `a` sorts strictly before `b` (`str::cmp` is `Less`).
pub open spec fn lex_lt(a: Seq<char>, b: Seq<char>) -> bool
    decreases a.len(),
{
    if b.len() == 0 {
        false
    } else if a.len() == 0 {
        true
    } else if (a[0] as u32) < (b[0] as u32) {
        true
    } else if a[0] == b[0] {
        lex_lt(a.drop_first(), b.drop_first())
    } else {
        false
    }
}

/// Whether `a` sorts strictly before `b`.
pub fn lex_lt_exec(a: &[char], b: &[char]) -> (r: bool)
    ensures
        r == lex_lt(a@, b@),
{
    let mut i: usize = 0;
    assert(a@.skip(0) =~= a@);
    assert(b@.skip(0) =~= b@);
    while i < a.len() && i < b.len()
        invariant
            i <= a@.len(),
            i <= b@.len(),
            lex_lt(a@, b@) == lex_lt(a@.skip(i as int), b@.skip(i as int)),
        decreases a@.len() - i,
    {
        assert(a@.skip(i as int)[0] == a@[i as int]);
        assert(b@.skip(i as int)[0] == b@[i as int]);
        assert(a@.skip(i as int).drop_first() =~= a@.skip(i + 1));
        assert(b@.skip(i as int).drop_first() =~= b@.skip(i + 1));
        if (a[i] as u32) < (b[i] as u32) {
            return true;
        }
        if a[i] != b[i] {
            return false;
        }
        i = i + 1;
    }
    i < b.len()
}

/// `lex_lt` is transitive.
pub proof fn lemma_lex_trans(a: Seq<char>, b: Seq<char>, c: Seq<char>)
    requires
        lex_lt(a, b),
        lex_lt(b, c),
    ensures
        lex_lt(a, c),
    decreases a.len(),
{
    if a.len() > 0 && b.len() > 0 && c.len() > 0 && a[0] == b[0] && b[0] == c[0] {
        lemma_lex_trans(a.drop_first(), b.drop_first(), c.drop_first());
    }
}

/// Of two different texts, one sorts before the other; none sorts before
/// itself or before a text that sorts before it.
pub proof fn lemma_lex_total(a: Seq<char>, b: Seq<char>)
    ensures
        a == b || lex_lt(a, b) || lex_lt(b, a),
        !(lex_lt(a, b) && lex_lt(b, a)),
        !lex_lt(a, a),
    decreases a.len(),
{
    if a.len() > 0 && b.len() > 0 && a[0] == b[0] {
        lemma_lex_total(a.drop_first(), b.drop_first());
        if a.drop_first() == b.drop_first() {
            assert(a =~= seq![a[0]] + a.drop_first());
            assert(b =~= seq![b[0]] + b.drop_first());
        }
    }
    if a.len() > 0 {
        lemma_lex_total(a.drop_first(), a.drop_first());
    }
    if a.len() == 0 && b.len() == 0 {
        assert(a =~= b);
    }
    if a.len() > 0 && b.len() > 0 && a[0] != b[0] {
        vstd::utf8::char_u32_cast(a[0], a[0] as u32);
        vstd::utf8::char_u32_cast(b[0], b[0] as u32);
    }
}

/// Where key `k` joins `order` (positions into `keys`, already sorted): after
/// every entry whose key does not sort after `k`.
pub open spec fn key_insert_pos(keys: Seq<Seq<char>>, order: Seq<int>, k: Seq<char>) -> int
    decreases order.len(),
{
    if order.len() == 0 {
        0
    } else if !lex_lt(k, keys[order.last()]) {
        order.len() as int
    } else {
        key_insert_pos(keys, order.drop_last(), k)
    }
}

/// The positions of `keys` in stably sorted order (`sort_by` on the keys):
/// each position joins the sorted prefix after the keys that do not sort
/// after it.
pub open spec fn stable_order(keys: Seq<Seq<char>>) -> Seq<int>
    decreases keys.len(),
{
    if keys.len() == 0 {
        seq![]
    } else {
        let o = stable_order(keys.drop_last());
        o.insert(key_insert_pos(keys, o, keys.last()), keys.len() - 1)
    }
}

/// `order` without each entry whose key equals, up to ASCII case, that of
/// the last entry kept (`Vec::dedup_by`).
pub open spec fn dedup_ascii(keys: Seq<Seq<char>>, order: Seq<int>) -> Seq<int>
    decreases order.len(),
{
    if order.len() == 0 {
        seq![]
    } else {
        let d = dedup_ascii(keys, order.drop_last());
        if d.len() > 0 && ascii_lower(keys[order.last()]) == ascii_lower(keys[d.last()]) {
            d
        } else {
            d.push(order.last())
        }
    }
}

pub open spec fn positions_below(order: Seq<int>, n: int) -> bool {
    forall|j: int| 0 <= j < order.len() ==> 0 <= #[trigger] order[j] < n
}

proof fn lemma_key_insert_pos_range(keys: Seq<Seq<char>>, order: Seq<int>, k: Seq<char>)
    ensures
        0 <= key_insert_pos(keys, order, k) <= order.len(),
    decreases order.len(),
{
    if order.len() > 0 {
        lemma_key_insert_pos_range(keys, order.drop_last(), k);
    }
}

proof fn lemma_key_insert_pos_prefix(keys: Seq<Seq<char>>, longer: Seq<Seq<char>>, order: Seq<int>, k: Seq<char>)
    requires
        positions_below(order, keys.len() as int),
        keys.len() <= longer.len(),
        forall|j: int| 0 <= j < keys.len() ==> keys[j] == longer[j],
    ensures
        key_insert_pos(keys, order, k) == key_insert_pos(longer, order, k),
    decreases order.len(),
{
    if order.len() > 0 {
        assert(order.last() == order[order.len() - 1]);
        lemma_key_insert_pos_prefix(keys, longer, order.drop_last(), k);
    }
}

proof fn lemma_stable_order_positions(keys: Seq<Seq<char>>)
    ensures
        stable_order(keys).len() == keys.len(),
        positions_below(stable_order(keys), keys.len() as int),
    decreases keys.len(),
{
    if keys.len() > 0 {
        let o = stable_order(keys.drop_last());
        lemma_stable_order_positions(keys.drop_last());
        lemma_key_insert_pos_range(keys, o, keys.last());
        let p = key_insert_pos(keys, o, keys.last());
        let r = o.insert(p, keys.len() - 1);
        assert forall|j: int| 0 <= j < r.len() implies 0 <= #[trigger] r[j] < keys.len() by {
            if j < p {
                assert(r[j] == o[j]);
            } else if j > p {
                assert(r[j] == o[j - 1]);
            }
        }
    }
}

/// The positions of `keys` in stably sorted order.
pub fn sorted_positions(keys: &Vec<Vec<char>>) -> (r: Vec<usize>)
    ensures
        r@.len() == keys@.len(),
        forall|j: int| 0 <= j < r@.len() ==> #[trigger] r@[j] < keys@.len(),
        r@.map_values(|p: usize| p as int) == stable_order(crate::text::views(keys@)),
{
    let ghost ks = crate::text::views(keys@);
    let mut order: Vec<usize> = Vec::new();
    let mut i: usize = 0;
    assert(ks.take(0) =~= seq![]);
    assert(order@.map_values(|p: usize| p as int) =~= stable_order(ks.take(0)));
    while i < keys.len()
        invariant
            i <= keys@.len(),
            ks == crate::text::views(keys@),
            order@.len() == i,
            forall|j: int| 0 <= j < order@.len() ==> #[trigger] order@[j] < i,
            order@.map_values(|p: usize| p as int) == stable_order(ks.take(i as int)),
        decreases keys@.len() - i,
    {
        let ghost o = order@.map_values(|p: usize| p as int);
        let ghost pre = ks.take(i as int);
        let ghost ext = ks.take(i + 1);
        assert(ext.drop_last() =~= pre);
        assert(ext.last() == ks[i as int]);
        assert(ks[i as int] == keys@[i as int]@);
        proof {
            lemma_stable_order_positions(pre);
            assert forall|j: int| 0 <= j < pre.len() implies pre[j] == ext[j] by {}
            lemma_key_insert_pos_prefix(pre, ext, o, ks[i as int]);
        }
        // Find the insertion point from the back.
        let mut k: usize = order.len();
        assert(o.take(k as int) =~= o);
        while k > 0
            invariant
                k <= order@.len(),
                order@.len() == i,
                i < keys@.len(),
                ks == crate::text::views(keys@),
                ext == ks.take(i + 1),
                o == order@.map_values(|p: usize| p as int),
                forall|j: int| 0 <= j < order@.len() ==> #[trigger] order@[j] < i,
                key_insert_pos(ext, o, ks[i as int]) == key_insert_pos(ext, o.take(k as int), ks[i as int]),
            ensures
                k <= order@.len(),
                key_insert_pos(ext, o, ks[i as int]) == key_insert_pos(ext, o.take(k as int), ks[i as int]),
                k == 0 || !lex_lt(ks[i as int], ext[o[k - 1]]),
            decreases k,
        {
            let ghost ok = o.take(k as int);
            assert(ok.last() == o[k - 1]);
            assert(ok.drop_last() =~= o.take(k - 1));
            let pos = order[k - 1];
            assert(o[k - 1] == pos as int);
            assert(ext[pos as int] == keys@[pos as int]@);
            assert(ext[i as int] == ks[i as int]);
            if !lex_lt_exec(&keys[i], &keys[pos]) {
                break;
            }
            k = k - 1;
        }
        proof {
            if k > 0 {
                let ok = o.take(k as int);
                assert(ok.last() == o[k - 1]);
            }
            assert(key_insert_pos(ext, o, ks[i as int]) == k as int);
        }
        order.insert(k, i);
        proof {
            assert(order@.map_values(|p: usize| p as int) =~= o.insert(k as int, i as int));
            assert forall|j: int| 0 <= j < order@.len() implies #[trigger] order@[j] < i + 1 by {
                if j < k {
                } else if j > k {
                }
            }
        }
        i = i + 1;
    }
    assert(ks.take(i as int) =~= ks);
    order
}

/// `order` without the entries whose key equals, up to ASCII case, that of
/// the last entry kept.
pub fn dedup_positions(keys: &Vec<Vec<char>>, order: &Vec<usize>) -> (r: Vec<usize>)
    requires
        forall|j: int| 0 <= j < order@.len() ==> #[trigger] order@[j] < keys@.len(),
    ensures
        forall|j: int| 0 <= j < r@.len() ==> #[trigger] r@[j] < keys@.len(),
        r@.map_values(|p: usize| p as int) == dedup_ascii(
            crate::text::views(keys@),
            order@.map_values(|p: usize| p as int),
        ),
{
    let ghost ks = crate::text::views(keys@);
    let ghost o = order@.map_values(|p: usize| p as int);
    let mut out: Vec<usize> = Vec::new();
    let mut i: usize = 0;
    assert(o.take(0) =~= seq![]);
    assert(out@.map_values(|p: usize| p as int) =~= dedup_ascii(ks, o.take(0)));
    while i < order.len()
        invariant
            i <= order@.len(),
            ks == crate::text::views(keys@),
            o == order@.map_values(|p: usize| p as int),
            forall|j: int| 0 <= j < order@.len() ==> #[trigger] order@[j] < keys@.len(),
            forall|j: int| 0 <= j < out@.len() ==> #[trigger] out@[j] < keys@.len(),
            out@.map_values(|p: usize| p as int) == dedup_ascii(ks, o.take(i as int)),
        decreases order@.len() - i,
    {
        let ghost d = out@.map_values(|p: usize| p as int);
        assert(o.take(i + 1).drop_last() =~= o.take(i as int));
        assert(o.take(i + 1).last() == o[i as int]);
        let p = order[i];
        assert(ks[p as int] == keys@[p as int]@);
        let drop = if out.len() > 0 {
            let last = out[out.len() - 1];
            assert(d.last() == last as int);
            assert(ks[last as int] == keys@[last as int]@);
            eq_ignore_ascii_case(&keys[p], &keys[last])
        } else {
            false
        };
        if !drop {
            out.push(p);
            assert(out@.map_values(|p: usize| p as int) =~= d.push(p as int));
        }
        i = i + 1;
    }
    assert(o.take(i as int) =~= o);
    out
}

} // verus!
