//! Which recordings the history menu lists: the day folders newest first
//! (by name, `YYYY-MM-DD`), within a day the recordings newest first (by
//! timestamp), at most a given number in all. Reading the folders and the
//! metadata files is the caller's.

use vstd::prelude::*;
use crate::order::{lemma_lex_total, lemma_lex_trans, lex_lt, lex_lt_exec};
use crate::text::views;

verus! {

/// Where position `x` joins `order` in a stable sort by `before`: after
/// every entry that `x` does not sort strictly before.
pub open spec fn insert_pos_by(order: Seq<int>, before: spec_fn(int, int) -> bool, x: int) -> int
    decreases order.len(),
{
    if order.len() == 0 {
        0
    } else if !before(x, order.last()) {
        order.len() as int
    } else {
        insert_pos_by(order.drop_last(), before, x)
    }
}

/// The positions `0..n` stably sorted by `before` (what `sort_by` does:
/// entries that compare equal keep their order).
pub open spec fn stable_sort_by(n: nat, before: spec_fn(int, int) -> bool) -> Seq<int>
    decreases n,
{
    if n == 0 {
        seq![]
    } else {
        let o = stable_sort_by((n - 1) as nat, before);
        o.insert(insert_pos_by(o, before, n - 1), n - 1)
    }
}

/// Newest day first: a later name sorts before an earlier one.
pub open spec fn day_desc(names: Seq<Seq<char>>) -> spec_fn(int, int) -> bool {
    |i: int, j: int| lex_lt(names[j], names[i])
}

/// Newest recording first: a larger timestamp sorts before a smaller one.
pub open spec fn stamp_desc(stamps: Seq<u64>) -> spec_fn(int, int) -> bool {
    |i: int, j: int| stamps[i] > stamps[j]
}

/// The recordings of the days in `days` (in that order), each day's newest
/// first, as (day, recording) positions.
pub open spec fn entries_of_days(days: Seq<int>, stamps: Seq<Seq<u64>>) -> Seq<(int, int)>
    decreases days.len(),
{
    if days.len() == 0 {
        seq![]
    } else {
        let d = days.last();
        entries_of_days(days.drop_last(), stamps) + stable_sort_by(
            stamps[d].len(),
            stamp_desc(stamps[d]),
        ).map_values(|r: int| (d, r))
    }
}

/// The recordings listed: newest day first, newest recording first within
/// a day, the first `limit` of them.
pub open spec fn recent_of(names: Seq<Seq<char>>, stamps: Seq<Seq<u64>>, limit: nat) -> Seq<(int, int)> {
    let all = entries_of_days(stable_sort_by(names.len(), day_desc(names)), stamps);
    if all.len() > limit {
        all.take(limit as int)
    } else {
        all
    }
}

pub open spec fn positions_below(order: Seq<int>, n: int) -> bool {
    forall|j: int| 0 <= j < order.len() ==> 0 <= #[trigger] order[j] < n
}

proof fn lemma_insert_pos_range(order: Seq<int>, before: spec_fn(int, int) -> bool, x: int)
    ensures
        0 <= insert_pos_by(order, before, x) <= order.len(),
    decreases order.len(),
{
    if order.len() > 0 {
        lemma_insert_pos_range(order.drop_last(), before, x);
    }
}

proof fn lemma_sort_positions(n: nat, before: spec_fn(int, int) -> bool)
    ensures
        stable_sort_by(n, before).len() == n,
        positions_below(stable_sort_by(n, before), n as int),
    decreases n,
{
    if n > 0 {
        let o = stable_sort_by((n - 1) as nat, before);
        lemma_sort_positions((n - 1) as nat, before);
        lemma_insert_pos_range(o, before, n - 1);
        let p = insert_pos_by(o, before, n - 1);
        let r = o.insert(p, n - 1);
        assert forall|j: int| 0 <= j < r.len() implies 0 <= #[trigger] r[j] < n by {
            if j < p {
                assert(r[j] == o[j]);
            } else if j > p {
                assert(r[j] == o[j - 1]);
            }
        }
    }
}

proof fn lemma_insert_pos_props(order: Seq<int>, before: spec_fn(int, int) -> bool, x: int)
    ensures
        forall|k: int|
            insert_pos_by(order, before, x) <= k < order.len() ==> before(x, #[trigger] order[k]),
        insert_pos_by(order, before, x) > 0 ==> !before(
            x,
            order[insert_pos_by(order, before, x) - 1],
        ),
    decreases order.len(),
{
    lemma_insert_pos_range(order, before, x);
    if order.len() > 0 && before(x, order.last()) {
        let prev = order.drop_last();
        lemma_insert_pos_props(prev, before, x);
        lemma_insert_pos_range(prev, before, x);
        assert(insert_pos_by(order, before, x) == insert_pos_by(prev, before, x));
        assert forall|k: int| insert_pos_by(order, before, x) <= k < order.len() implies before(
            x,
            #[trigger] order[k],
        ) by {
            if k < order.len() - 1 {
                assert(order[k] == prev[k]);
            }
        }
        if insert_pos_by(order, before, x) > 0 {
            assert(order[insert_pos_by(order, before, x) - 1] == prev[insert_pos_by(
                prev,
                before,
                x,
            ) - 1]);
        }
    }
}

/// A stable sort by an ordering whose "not before" is transitive and whose
/// "before" is asymmetric leaves no entry sorting before an earlier one.
pub proof fn lemma_stable_sort_sorted(n: nat, before: spec_fn(int, int) -> bool)
    requires
        forall|a: int, b: int, c: int|
            #![trigger before(a, b), before(b, c)]
            !before(a, b) && !before(b, c) ==> !before(a, c),
        forall|a: int, b: int| #[trigger] before(a, b) ==> !before(b, a),
    ensures
        forall|i: int, j: int|
            0 <= i < j < n ==> !before(
                #[trigger] stable_sort_by(n, before)[j],
                #[trigger] stable_sort_by(n, before)[i],
            ),
    decreases n,
{
    if n > 0 {
        let o = stable_sort_by((n - 1) as nat, before);
        lemma_stable_sort_sorted((n - 1) as nat, before);
        lemma_sort_positions((n - 1) as nat, before);
        let x = n - 1;
        let p = insert_pos_by(o, before, x);
        lemma_insert_pos_range(o, before, x);
        lemma_insert_pos_props(o, before, x);
        let r = o.insert(p, x);
        assert(r == stable_sort_by(n, before));
        assert forall|i: int, j: int| 0 <= i < j < n implies !before(#[trigger] r[j], #[trigger] r[i]) by {
            if j < p {
                assert(r[i] == o[i] && r[j] == o[j]);
            } else if j == p {
                assert(r[j] == x);
                assert(r[i] == o[i]);
                if i < p - 1 {
                    assert(!before(o[p - 1], o[i]));
                }
            } else if i == p {
                assert(r[i] == x);
                assert(r[j] == o[j - 1]);
                assert(before(x, o[j - 1]));
            } else if i < p {
                assert(r[i] == o[i] && r[j] == o[j - 1]);
            } else {
                assert(r[i] == o[i - 1] && r[j] == o[j - 1]);
            }
        }
    }
}

/// Within a day, recordings are listed newest first: no recording has a
/// larger timestamp than one listed before it.
pub proof fn lemma_stamps_newest_first(stamps: Seq<u64>)
    ensures
        forall|i: int, j: int|
            0 <= i < j < stamps.len() ==> stamps[#[trigger] stable_sort_by(
                stamps.len(),
                stamp_desc(stamps),
            )[i]] >= stamps[#[trigger] stable_sort_by(stamps.len(), stamp_desc(stamps))[j]],
{
    lemma_stable_sort_sorted(stamps.len(), stamp_desc(stamps));
}

/// Day folders are listed newest first: no folder name sorts after the name
/// of a folder listed before it.
pub proof fn lemma_days_newest_first(names: Seq<Seq<char>>)
    ensures
        forall|i: int, j: int|
            0 <= i < j < names.len() ==> !lex_lt(
                names[#[trigger] stable_sort_by(names.len(), day_desc(names))[i]],
                names[#[trigger] stable_sort_by(names.len(), day_desc(names))[j]],
            ),
{
    let before = day_desc(names);
    assert forall|a: int, b: int, c: int|
        #![trigger before(a, b), before(b, c)]
        !before(a, b) && !before(b, c) implies !before(a, c) by {
        lemma_lex_total(names[a], names[b]);
        lemma_lex_total(names[b], names[c]);
        lemma_lex_total(names[a], names[c]);
        if lex_lt(names[c], names[a]) {
            if lex_lt(names[a], names[b]) {
                lemma_lex_trans(names[c], names[a], names[b]);
            }
            if lex_lt(names[b], names[c]) {
                lemma_lex_trans(names[b], names[c], names[a]);
            }
        }
    }
    assert forall|a: int, b: int| #[trigger] before(a, b) implies !before(b, a) by {
        lemma_lex_total(names[a], names[b]);
    }
    lemma_stable_sort_sorted(names.len(), before);
}

/// Positions of `names` sorted by name, latest first (stable).
fn days_newest_first(names: &Vec<Vec<char>>) -> (r: Vec<usize>)
    ensures
        r@.len() == names@.len(),
        forall|j: int| 0 <= j < r@.len() ==> #[trigger] r@[j] < names@.len(),
        r@.map_values(|p: usize| p as int) == stable_sort_by(
            names@.len() as nat,
            day_desc(views(names@)),
        ),
{
    let ghost ks = views(names@);
    let ghost before = day_desc(ks);
    let mut order: Vec<usize> = Vec::new();
    let mut i: usize = 0;
    assert(order@.map_values(|p: usize| p as int) =~= stable_sort_by(0, before));
    while i < names.len()
        invariant
            i <= names@.len(),
            ks == views(names@),
            before == day_desc(ks),
            order@.len() == i,
            forall|j: int| 0 <= j < order@.len() ==> #[trigger] order@[j] < i,
            order@.map_values(|p: usize| p as int) == stable_sort_by(i as nat, before),
        decreases names@.len() - i,
    {
        let ghost o = order@.map_values(|p: usize| p as int);
        let mut k: usize = order.len();
        assert(o.take(k as int) =~= o);
        while k > 0
            invariant
                k <= order@.len(),
                order@.len() == i,
                i < names@.len(),
                ks == views(names@),
                before == day_desc(ks),
                o == order@.map_values(|p: usize| p as int),
                forall|j: int| 0 <= j < order@.len() ==> #[trigger] order@[j] < i,
                insert_pos_by(o, before, i as int) == insert_pos_by(o.take(k as int), before, i as int),
            ensures
                k <= order@.len(),
                insert_pos_by(o, before, i as int) == insert_pos_by(o.take(k as int), before, i as int),
                k == 0 || !before(i as int, o[k - 1]),
            decreases k,
        {
            let ghost ok = o.take(k as int);
            assert(ok.last() == o[k - 1]);
            assert(ok.drop_last() =~= o.take(k - 1));
            let pos = order[k - 1];
            assert(o[k - 1] == pos as int);
            assert(ks[pos as int] == names@[pos as int]@);
            assert(ks[i as int] == names@[i as int]@);
            if !lex_lt_exec(&names[pos], &names[i]) {
                break;
            }
            k = k - 1;
        }
        proof {
            if k > 0 {
                let ok = o.take(k as int);
                assert(ok.last() == o[k - 1]);
            }
            assert(insert_pos_by(o, before, i as int) == k as int);
        }
        order.insert(k, i);
        proof {
            assert(order@.map_values(|p: usize| p as int) =~= o.insert(k as int, i as int));
            assert forall|j: int| 0 <= j < order@.len() implies #[trigger] order@[j] < i + 1 by {
                if j < k {
                } else if j > k {
                }
            }
        }
        i = i + 1;
    }
    order
}

/// Positions of `stamps` sorted by timestamp, largest first (stable).
fn stamps_newest_first(stamps: &Vec<u64>) -> (r: Vec<usize>)
    ensures
        r@.len() == stamps@.len(),
        forall|j: int| 0 <= j < r@.len() ==> #[trigger] r@[j] < stamps@.len(),
        r@.map_values(|p: usize| p as int) == stable_sort_by(
            stamps@.len() as nat,
            stamp_desc(stamps@),
        ),
{
    let ghost before = stamp_desc(stamps@);
    let mut order: Vec<usize> = Vec::new();
    let mut i: usize = 0;
    assert(order@.map_values(|p: usize| p as int) =~= stable_sort_by(0, before));
    while i < stamps.len()
        invariant
            i <= stamps@.len(),
            before == stamp_desc(stamps@),
            order@.len() == i,
            forall|j: int| 0 <= j < order@.len() ==> #[trigger] order@[j] < i,
            order@.map_values(|p: usize| p as int) == stable_sort_by(i as nat, before),
        decreases stamps@.len() - i,
    {
        let ghost o = order@.map_values(|p: usize| p as int);
        let mut k: usize = order.len();
        assert(o.take(k as int) =~= o);
        while k > 0
            invariant
                k <= order@.len(),
                order@.len() == i,
                i < stamps@.len(),
                before == stamp_desc(stamps@),
                o == order@.map_values(|p: usize| p as int),
                forall|j: int| 0 <= j < order@.len() ==> #[trigger] order@[j] < i,
                insert_pos_by(o, before, i as int) == insert_pos_by(o.take(k as int), before, i as int),
            ensures
                k <= order@.len(),
                insert_pos_by(o, before, i as int) == insert_pos_by(o.take(k as int), before, i as int),
                k == 0 || !before(i as int, o[k - 1]),
            decreases k,
        {
            let ghost ok = o.take(k as int);
            assert(ok.last() == o[k - 1]);
            assert(ok.drop_last() =~= o.take(k - 1));
            let pos = order[k - 1];
            assert(o[k - 1] == pos as int);
            if !(stamps[i] > stamps[pos]) {
                break;
            }
            k = k - 1;
        }
        proof {
            if k > 0 {
                let ok = o.take(k as int);
                assert(ok.last() == o[k - 1]);
            }
            assert(insert_pos_by(o, before, i as int) == k as int);
        }
        order.insert(k, i);
        proof {
            assert(order@.map_values(|p: usize| p as int) =~= o.insert(k as int, i as int));
            assert forall|j: int| 0 <= j < order@.len() implies #[trigger] order@[j] < i + 1 by {
                if j < k {
                } else if j > k {
                }
            }
        }
        i = i + 1;
    }
    order
}

/// The recordings one day folder yields: its name and the timestamps of the
/// recordings whose metadata could be read, in the order they were read.
#[derive(Debug, Clone)]
pub struct DayRecordings {
    pub name: String,
    pub timestamps: Vec<u64>,
}

pub open spec fn day_names(days: Seq<DayRecordings>) -> Seq<Seq<char>> {
    days.map_values(|d: DayRecordings| d.name@)
}

pub open spec fn day_stamps(days: Seq<DayRecordings>) -> Seq<Seq<u64>> {
    days.map_values(|d: DayRecordings| d.timestamps@)
}

pub open spec fn pairs_view(v: Seq<(usize, usize)>) -> Seq<(int, int)> {
    v.map_values(|p: (usize, usize)| (p.0 as int, p.1 as int))
}

proof fn lemma_take_of_longer_prefix(a: Seq<(int, int)>, b: Seq<(int, int)>, limit: int)
    requires
        0 <= limit <= a.len(),
    ensures
        (a + b).take(limit) == a.take(limit),
{
    assert((a + b).take(limit) =~= a.take(limit));
}

proof fn lemma_entries_prefix(days: Seq<int>, stamps: Seq<Seq<u64>>, i: int)
    requires
        0 <= i <= days.len(),
    ensures
        exists|rest: Seq<(int, int)>| entries_of_days(days, stamps) == entries_of_days(days.take(i), stamps)
            + rest,
    decreases days.len(),
{
    if i == days.len() {
        assert(days.take(i) =~= days);
        assert(entries_of_days(days, stamps) =~= entries_of_days(days.take(i), stamps) + seq![]);
    } else {
        let prev = days.drop_last();
        lemma_entries_prefix(prev, stamps, i);
        assert(prev.take(i) =~= days.take(i));
        let rest = choose|rest: Seq<(int, int)>| entries_of_days(prev, stamps) == entries_of_days(
            prev.take(i),
            stamps,
        ) + rest;
        let d = days.last();
        let tail = stable_sort_by(stamps[d].len(), stamp_desc(stamps[d])).map_values(
            |r: int| (d, r),
        );
        assert(entries_of_days(days, stamps) =~= entries_of_days(days.take(i), stamps) + (rest
            + tail));
    }
}

/// The recordings the history menu lists, as (day, recording) positions
/// into `days`: day folders by name, newest first; within a day by
/// timestamp, newest first (equal timestamps in the order read); at most
/// `limit` in all.
pub fn recent_recordings(days: &Vec<DayRecordings>, limit: usize) -> (r: Vec<(usize, usize)>)
    ensures
        pairs_view(r@) == recent_of(day_names(days@), day_stamps(days@), limit as nat),
{
    let mut names: Vec<Vec<char>> = Vec::new();
    let mut j: usize = 0;
    while j < days.len()
        invariant
            j <= days@.len(),
            views(names@) == day_names(days@).take(j as int),
        decreases days@.len() - j,
    {
        let ghost before = views(names@);
        let c = crate::text::chars_of(days[j].name.as_str());
        names.push(c);
        assert(views(names@) =~= before.push(days@[j as int].name@));
        assert(day_names(days@).take(j + 1) =~= day_names(days@).take(j as int).push(
            days@[j as int].name@,
        ));
        j = j + 1;
    }
    assert(day_names(days@).take(j as int) =~= day_names(days@));
    let order = days_newest_first(&names);
    let ghost ns = day_names(days@);
    let ghost st = day_stamps(days@);
    let ghost dorder = order@.map_values(|p: usize| p as int);
    proof {
        lemma_sort_positions(ns.len(), day_desc(ns));
    }
    let mut out: Vec<(usize, usize)> = Vec::new();
    let mut i: usize = 0;
    assert(dorder.take(0) =~= Seq::<int>::empty());
    while i < order.len()
        invariant_except_break
            i <= order@.len(),
            order@.len() == days@.len(),
            forall|k: int| 0 <= k < order@.len() ==> #[trigger] order@[k] < days@.len(),
            dorder == order@.map_values(|p: usize| p as int),
            st == day_stamps(days@),
            pairs_view(out@) == entries_of_days(dorder.take(i as int), st),
        ensures
            i <= order@.len(),
            pairs_view(out@) == entries_of_days(dorder.take(i as int), st),
            i < order@.len() ==> out@.len() >= limit,
        decreases order@.len() - i,
    {
        let d = order[i];
        let sorted = stamps_newest_first(&days[d].timestamps);
        let ghost base = pairs_view(out@);
        let ghost sv = sorted@.map_values(|p: usize| p as int);
        let mut k: usize = 0;
        while k < sorted.len()
            invariant
                k <= sorted@.len(),
                d < days@.len(),
                pairs_view(out@) == base + sv.take(k as int).map_values(|r: int| (d as int, r)),
                sv == sorted@.map_values(|p: usize| p as int),
            decreases sorted@.len() - k,
        {
            let ghost prev = out@;
            out.push((d, sorted[k]));
            proof {
                assert(pairs_view(out@) =~= pairs_view(prev).push((d as int, sorted@[k as int] as int)));
                assert(sv.take(k + 1) =~= sv.take(k as int).push(sorted@[k as int] as int));
                assert(sv.take(k + 1).map_values(|r: int| (d as int, r)) =~= sv.take(
                    k as int,
                ).map_values(|r: int| (d as int, r)).push((d as int, sorted@[k as int] as int)));
                assert(pairs_view(out@) =~= base + sv.take(k + 1).map_values(|r: int| (d as int, r)));
            }
            k = k + 1;
        }
        proof {
            assert(sv.take(k as int) =~= sv);
            assert(st[d as int] == days@[d as int].timestamps@);
            assert(dorder.take(i + 1).drop_last() =~= dorder.take(i as int));
            assert(dorder.take(i + 1).last() == d as int);
            assert(pairs_view(out@) =~= entries_of_days(dorder.take(i + 1), st));
        }
        i = i + 1;
        if out.len() >= limit {
            break;
        }
    }
    proof {
        lemma_entries_prefix(dorder, st, i as int);
        let rest = choose|rest: Seq<(int, int)>| entries_of_days(dorder, st) == entries_of_days(
            dorder.take(i as int),
            st,
        ) + rest;
        if i < order@.len() {
            lemma_take_of_longer_prefix(pairs_view(out@), rest, limit as int);
        } else {
            assert(dorder.take(i as int) =~= dorder);
        }
    }
    if out.len() > limit {
        out.truncate(limit);
        assert(pairs_view(out@) =~= recent_of(ns, st, limit as nat));
    }
    out
}

} // verus!
