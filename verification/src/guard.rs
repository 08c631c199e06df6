//! Detection of decoder-loop degradation in long transcripts: a transcript
//! whose tail collapses into repetition.

use vstd::prelude::*;
use crate::text::{
    char_is_alphanumeric, char_to_lowercase, chars_of, push_chars, split_whitespace, split_ws,
    unicode_char_lowercase, unicode_is_alphanumeric, views,
};

verus! {

/// A token reduced to its alphanumeric characters, each lowercased.
pub open spec fn guard_normalize(t: Seq<char>) -> Seq<char>
    decreases t.len(),
{
    if t.len() == 0 {
        seq![]
    } else {
        guard_normalize(t.drop_last()) + if unicode_is_alphanumeric(t.last()) {
            unicode_char_lowercase(t.last())
        } else {
            seq![]
        }
    }
}

/// Normalises a token for repetition checks: keeps alphanumerics, lowercased.
pub fn normalize_guard_token(token: &str) -> (r: String)
    ensures
        r@ == guard_normalize(token@),
{
    let t = chars_of(token);
    let n = guard_normalize_chars(&t);
    crate::text::string_from_chars(&n)
}

fn guard_normalize_chars(t: &[char]) -> (r: Vec<char>)
    ensures
        r@ == guard_normalize(t@),
{
    let mut out: Vec<char> = Vec::new();
    let mut i: usize = 0;
    assert(t@.take(0) =~= seq![]);
    while i < t.len()
        invariant
            i <= t@.len(),
            out@ == guard_normalize(t@.take(i as int)),
        decreases t@.len() - i,
    {
        assert(t@.take(i + 1).drop_last() == t@.take(i as int));
        assert(t@.take(i + 1).last() == t@[i as int]);
        if char_is_alphanumeric(t[i]) {
            let l = char_to_lowercase(t[i]);
            push_chars(&mut out, &l);
        } else {
            assert(out@ + seq![] =~= out@);
        }
        i = i + 1;
    }
    assert(t@.take(i as int) == t@);
    out
}

pub open spec fn guard_tokens_of(toks: Seq<Seq<char>>) -> Seq<Seq<char>>
    decreases toks.len(),
{
    if toks.len() == 0 {
        seq![]
    } else {
        let rest = guard_tokens_of(toks.drop_last());
        let n = guard_normalize(toks.last());
        if n.len() > 0 {
            rest.push(n)
        } else {
            rest
        }
    }
}

/// The non-empty normalised tokens of a transcript.
pub open spec fn guard_tokens(text: Seq<char>) -> Seq<Seq<char>> {
    guard_tokens_of(split_ws(text))
}

/// The last (at most) 420 tokens.
pub open spec fn tail_of(tokens: Seq<Seq<char>>) -> Seq<Seq<char>> {
    let w = if tokens.len() < 420 {
        tokens.len()
    } else {
        420
    };
    tokens.skip(tokens.len() - w)
}

pub open spec fn trigram_key(tail: Seq<Seq<char>>, i: int) -> Seq<char> {
    tail[i] + " "@ + tail[i + 1] + " "@ + tail[i + 2]
}

pub open spec fn trigram_slots(tail: Seq<Seq<char>>) -> int {
    if tail.len() >= 3 {
        tail.len() - 2
    } else {
        0
    }
}

/// How many of the first `n` trigrams equal `key`.
pub open spec fn trigram_count(tail: Seq<Seq<char>>, key: Seq<char>, n: int) -> nat
    decreases n,
{
    if n <= 0 {
        0
    } else {
        trigram_count(tail, key, n - 1) + if trigram_key(tail, n - 1) == key {
            1nat
        } else {
            0nat
        }
    }
}

/// The largest number of repetitions of one trigram among the first `n`
/// trigram positions.
pub open spec fn trigram_peak_upto(tail: Seq<Seq<char>>, n: int) -> nat
    decreases n,
{
    if n <= 0 {
        0
    } else {
        let m = trigram_peak_upto(tail, n - 1);
        let c = trigram_count(tail, trigram_key(tail, n - 1), trigram_slots(tail));
        if c > m {
            c
        } else {
            m
        }
    }
}

pub open spec fn trigram_peak(tail: Seq<Seq<char>>) -> nat {
    trigram_peak_upto(tail, trigram_slots(tail))
}

/// Length of the run of equal tokens that ends at position `i`.
pub open spec fn run_ending_at(tail: Seq<Seq<char>>, i: int) -> nat
    decreases i,
{
    if i <= 0 {
        1
    } else if tail[i] == tail[i - 1] {
        run_ending_at(tail, i - 1) + 1
    } else {
        1
    }
}

/// The longest run of equal consecutive tokens among positions `0..=i`
/// (at least 1).
pub open spec fn longest_run_upto(tail: Seq<Seq<char>>, i: int) -> nat
    decreases i,
{
    if i <= 0 {
        1
    } else {
        let m = longest_run_upto(tail, i - 1);
        let r = run_ending_at(tail, i);
        if r > m {
            r
        } else {
            m
        }
    }
}

pub open spec fn longest_run(tail: Seq<Seq<char>>) -> nat {
    if tail.len() == 0 {
        1
    } else {
        longest_run_upto(tail, tail.len() - 1)
    }
}

/// Why a transcript is considered degraded.
#[derive(Debug, Clone, Copy, PartialEq, Eq, Structural)]
pub enum TranscriptDegradation {
    /// Few distinct tokens in the tail (under 16%) together with a dominant
    /// trigram (10 repetitions or at least 22% of the trigrams).
    LowTailUniqueness {
        unique_tokens: usize,
        window: usize,
        trigram_peak: usize,
        trigram_total: usize,
        same_token_run: usize,
    },
    /// Seven or more equal tokens in a row.
    SameTokenRun { run: usize },
}

/// The verdict on a transcript. Transcripts with fewer than 220 tokens are
/// never flagged. The ratios are compared exactly (`unique/window < 0.16`
/// and `peak/total >= 0.22`).
pub open spec fn degradation(text: Seq<char>) -> Option<TranscriptDegradation> {
    let tokens = guard_tokens(text);
    let tail = tail_of(tokens);
    let window = tail.len();
    let unique = tail.to_set().len();
    let peak = trigram_peak(tail);
    let total = if window >= 3 {
        window - 2
    } else {
        1
    };
    let run = longest_run(tail);
    if tokens.len() < 220 {
        None
    } else if 25 * unique < 4 * window && (peak >= 10 || 50 * peak >= 11 * total) {
        Some(
            TranscriptDegradation::LowTailUniqueness {
                unique_tokens: unique as usize,
                window: window as usize,
                trigram_peak: peak as usize,
                trigram_total: total as usize,
                same_token_run: run as usize,
            },
        )
    } else if run >= 7 {
        Some(TranscriptDegradation::SameTokenRun { run: run as usize })
    } else {
        None
    }
}

fn guard_tokens_exec(text: &[char]) -> (r: Vec<Vec<char>>)
    ensures
        views(r@) == guard_tokens(text@),
{
    let toks = split_whitespace(text);
    let ghost tv = views(toks@);
    let mut out: Vec<Vec<char>> = Vec::new();
    let mut i: usize = 0;
    assert(tv.take(0) =~= seq![]);
    assert(views(out@) =~= seq![]);
    while i < toks.len()
        invariant
            i <= toks@.len(),
            tv == views(toks@),
            tv == split_ws(text@),
            views(out@) == guard_tokens_of(tv.take(i as int)),
        decreases toks@.len() - i,
    {
        assert(tv.take(i + 1).drop_last() == tv.take(i as int));
        assert(tv.take(i + 1).last() == toks@[i as int]@);
        let n = guard_normalize_chars(&toks[i]);
        if n.len() > 0 {
            let ghost before = out@;
            out.push(n);
            assert(views(out@) =~= views(before).push(n@));
        }
        i = i + 1;
    }
    assert(tv.take(i as int) == tv);
    out
}

/// Number of distinct tokens.
fn distinct_count(tail: &Vec<Vec<char>>) -> (r: usize)
    ensures
        r as nat == views(tail@).to_set().len(),
{
    broadcast use vstd::seq_lib::group_seq_properties, vstd::set::group_set_axioms;
    let ghost tv = views(tail@);
    let mut count: usize = 0;
    let mut i: usize = 0;
    assert(tv.take(0).to_set() =~= Set::<Seq<char>>::empty());
    while i < tail.len()
        invariant
            i <= tail@.len(),
            tv == views(tail@),
            count as nat == tv.take(i as int).to_set().len(),
            count <= i,
        decreases tail@.len() - i,
    {
        let mut seen = false;
        let mut j: usize = 0;
        while j < i
            invariant
                j <= i < tail@.len(),
                tv == views(tail@),
                seen == (exists|x: int| 0 <= x < j && tv[x] == tv[i as int]),
            decreases i - j,
        {
            assert(tv[j as int] == tail@[j as int]@);
            assert(tv[i as int] == tail@[i as int]@);
            if crate::text::chars_equal(&tail[j], &tail[i]) {
                seen = true;
            }
            j = j + 1;
        }
        proof {
            let pre = tv.take(i as int);
            assert(tv.take(i + 1) == pre.push(tv[i as int]));
            pre.lemma_push_to_set_commute(tv[i as int]);
            vstd::seq_lib::seq_to_set_is_finite(pre);
            vstd::set::axiom_set_insert_len(pre.to_set(), tv[i as int]);
            if seen {
                let x = choose|x: int| 0 <= x < i && tv[x] == tv[i as int];
                assert(pre[x] == tv[i as int]);
                assert(pre.to_set().contains(tv[i as int]));
            } else {
                assert(!pre.contains(tv[i as int]));
            }
        }
        if !seen {
            count = count + 1;
        }
        i = i + 1;
    }
    assert(tv.take(i as int) == tv);
    count
}

fn trigram_keys(tail: &Vec<Vec<char>>) -> (r: Vec<Vec<char>>)
    ensures
        r@.len() == trigram_slots(views(tail@)),
        forall|i: int| 0 <= i < r@.len() ==> #[trigger] r@[i]@ == trigram_key(views(tail@), i),
{
    let ghost tv = views(tail@);
    let mut keys: Vec<Vec<char>> = Vec::new();
    if tail.len() < 3 {
        return keys;
    }
    let n = tail.len() - 2;
    let mut i: usize = 0;
    while i < n
        invariant
            n + 2 == tail@.len(),
            n + 2 == tail.len(),
            i <= n,
            tv == views(tail@),
            keys@.len() == i,
            forall|x: int| 0 <= x < i ==> #[trigger] keys@[x]@ == trigram_key(tv, x),
        decreases n - i,
    {
        let mut k: Vec<char> = Vec::new();
        push_chars(&mut k, &tail[i]);
        crate::text::push_str(&mut k, " ");
        push_chars(&mut k, &tail[i + 1]);
        crate::text::push_str(&mut k, " ");
        push_chars(&mut k, &tail[i + 2]);
        assert(k@ =~= trigram_key(tv, i as int));
        keys.push(k);
        i = i + 1;
    }
    keys
}

fn peak_of(tail: &Vec<Vec<char>>) -> (r: usize)
    ensures
        r as nat == trigram_peak(views(tail@)),
        r as nat <= trigram_slots(views(tail@)),
{
    let ghost tv = views(tail@);
    let keys = trigram_keys(tail);
    let n = keys.len();
    let mut peak: usize = 0;
    let mut i: usize = 0;
    while i < n
        invariant
            n == keys@.len(),
            n == trigram_slots(tv),
            tv == views(tail@),
            forall|x: int| 0 <= x < keys@.len() ==> #[trigger] keys@[x]@ == trigram_key(tv, x),
            i <= n,
            peak as nat == trigram_peak_upto(tv, i as int),
            peak <= n,
        decreases n - i,
    {
        let mut c: usize = 0;
        let mut j: usize = 0;
        while j < n
            invariant
                n == keys@.len(),
                n == trigram_slots(tv),
                forall|x: int| 0 <= x < keys@.len() ==> #[trigger] keys@[x]@ == trigram_key(tv, x),
                i < n,
                j <= n,
                c as nat == trigram_count(tv, trigram_key(tv, i as int), j as int),
                c <= j,
            decreases n - j,
        {
            if crate::text::chars_equal(&keys[j], &keys[i]) {
                c = c + 1;
            }
            assert(keys@[j as int]@ == trigram_key(tv, j as int));
            assert(keys@[i as int]@ == trigram_key(tv, i as int));
            j = j + 1;
        }
        if c > peak {
            peak = c;
        }
        i = i + 1;
    }
    peak
}

fn longest_run_exec(tail: &Vec<Vec<char>>) -> (r: usize)
    ensures
        r as nat == longest_run(views(tail@)),
        1 <= r,
        tail@.len() > 0 ==> r <= tail@.len(),
{
    let ghost tv = views(tail@);
    if tail.len() == 0 {
        return 1;
    }
    let mut best: usize = 1;
    let mut cur: usize = 1;
    let mut i: usize = 1;
    while i < tail.len()
        invariant
            1 <= i <= tail@.len(),
            tv == views(tail@),
            cur as nat == run_ending_at(tv, i - 1),
            best as nat == longest_run_upto(tv, i - 1),
            1 <= cur <= i,
            1 <= best <= i,
        decreases tail@.len() - i,
    {
        if crate::text::chars_equal(&tail[i], &tail[i - 1]) {
            cur = cur + 1;
        } else {
            cur = 1;
        }
        if cur > best {
            best = cur;
        }
        i = i + 1;
    }
    best
}

/// Detects decoder-loop degradation in a long transcript.
pub fn detect_transcript_degradation(text: &str) -> (r: Option<TranscriptDegradation>)
    ensures
        r == degradation(text@),
{
    let chars = chars_of(text);
    let tokens = guard_tokens_exec(&chars);
    let ghost all = views(tokens@);
    if tokens.len() < 220 {
        return None;
    }
    let window: usize = if tokens.len() < 420 {
        tokens.len()
    } else {
        420
    };
    let start = tokens.len() - window;
    let mut tail: Vec<Vec<char>> = Vec::new();
    let mut k: usize = start;
    while k < tokens.len()
        invariant
            start <= k <= tokens@.len(),
            all == views(tokens@),
            views(tail@) == all.subrange(start as int, k as int),
        decreases tokens@.len() - k,
    {
        let ghost before = tail@;
        let len = tokens[k].len();
        let t = crate::text::slice_chars(&tokens[k], 0, len);
        assert(t@ =~= all[k as int]);
        tail.push(t);
        assert(views(tail@) =~= views(before).push(all[k as int]));
        assert(views(tail@) =~= all.subrange(start as int, k + 1));
        k = k + 1;
    }
    let ghost tv = views(tail@);
    assert(tv == tail_of(all));
    let unique = distinct_count(&tail);
    let peak = peak_of(&tail);
    let total: usize = if window >= 3 {
        window - 2
    } else {
        1
    };
    let run = longest_run_exec(&tail);
    if unique < window && 25 * unique < 4 * window && (peak >= 10 || 50 * peak >= 11 * total) {
        return Some(
            TranscriptDegradation::LowTailUniqueness {
                unique_tokens: unique,
                window,
                trigram_peak: peak,
                trigram_total: total,
                same_token_run: run,
            },
        );
    }
    proof {
        if 25 * unique < 4 * window {
            assert(unique < window);
        }
    }
    if run >= 7 {
        return Some(TranscriptDegradation::SameTokenRun { run });
    }
    None
}


/// Short transcripts are never flagged: fewer than 220 normalised tokens
/// means no degradation.
pub proof fn lemma_short_transcripts_pass(text: Seq<char>)
    requires
        guard_tokens(text).len() < 220,
    ensures
        degradation(text) is None,
{
}

/// Some trigram of `tail` occurs at least `k` times.
pub open spec fn trigram_repeated(tail: Seq<Seq<char>>, k: nat) -> bool {
    exists|i: int|
        0 <= i < trigram_slots(tail) && #[trigger] trigram_count(tail, trigram_key(tail, i), trigram_slots(tail)) >= k
}

/// The peak counts every trigram: no trigram occurs more often.
pub proof fn lemma_trigram_peak_bounds(tail: Seq<Seq<char>>, i: int, n: int)
    requires
        0 <= i < n,
    ensures
        trigram_count(tail, trigram_key(tail, i), trigram_slots(tail)) <= trigram_peak_upto(tail, n),
    decreases n,
{
    if i < n - 1 {
        lemma_trigram_peak_bounds(tail, i, n - 1);
    }
}

/// When a transcript is flagged, over its guard tokens and their tail (the
/// last 420 at most): fewer than 220 tokens are never flagged; otherwise,
/// fewer than 16% distinct tokens in the tail together with a trigram that
/// occurs 10 times, or one that makes up 22% of the trigrams (either
/// suffices), is low tail uniqueness; failing that, a run of 7 equal tokens
/// is a same-token run; anything else passes.
pub proof fn lemma_degradation_rules(text: Seq<char>)
    ensures
        ({
            let tokens = guard_tokens(text);
            let tail = tail_of(tokens);
            let window = tail.len();
            let unique = tail.to_set().len();
            let peak = trigram_peak(tail);
            let total: nat = if window >= 3 {
                (window - 2) as nat
            } else {
                1
            };
            let run = longest_run(tail);
            let low = 100 * unique < 16 * window && (trigram_repeated(tail, 10) || 100 * peak >= 22
                * total);
            &&& window == if tokens.len() < 420 {
                tokens.len()
            } else {
                420
            }
            &&& tokens.len() < 220 ==> degradation(text) is None
            &&& tokens.len() >= 220 && low ==> degradation(text) == Some(
                TranscriptDegradation::LowTailUniqueness {
                    unique_tokens: unique as usize,
                    window: window as usize,
                    trigram_peak: peak as usize,
                    trigram_total: total as usize,
                    same_token_run: run as usize,
                },
            )
            &&& tokens.len() >= 220 && !low && run >= 7 ==> degradation(text) == Some(
                TranscriptDegradation::SameTokenRun { run: run as usize },
            )
            &&& tokens.len() >= 220 && !low && run < 7 ==> degradation(text) is None
        }),
{
    let tokens = guard_tokens(text);
    let tail = tail_of(tokens);
    if trigram_repeated(tail, 10) {
        let i = choose|i: int|
            0 <= i < trigram_slots(tail) && #[trigger] trigram_count(tail, trigram_key(tail, i), trigram_slots(tail)) >= 10;
        lemma_trigram_peak_bounds(tail, i, trigram_slots(tail));
    }
    if trigram_peak(tail) >= 10 && trigram_slots(tail) > 0 {
        lemma_peak_attained(tail, trigram_slots(tail));
    }
}

/// The peak of positive length is the count of some trigram.
pub proof fn lemma_peak_attained(tail: Seq<Seq<char>>, n: int)
    requires
        n > 0,
    ensures
        exists|i: int|
            0 <= i < n && #[trigger] trigram_count(tail, trigram_key(tail, i), trigram_slots(tail))
                == trigram_peak_upto(tail, n),
    decreases n,
{
    let c = trigram_count(tail, trigram_key(tail, n - 1), trigram_slots(tail));
    if n == 1 {
        reveal_with_fuel(trigram_peak_upto, 2);
        assert(trigram_count(tail, trigram_key(tail, 0), trigram_slots(tail)) == trigram_peak_upto(tail, 1));
    } else {
        lemma_peak_attained(tail, n - 1);
        if c <= trigram_peak_upto(tail, n - 1) {
            let i = choose|i: int|
                0 <= i < n - 1 && #[trigger] trigram_count(tail, trigram_key(tail, i), trigram_slots(tail))
                    == trigram_peak_upto(tail, n - 1);
            assert(0 <= i < n);
        } else {
            assert(trigram_count(tail, trigram_key(tail, n - 1), trigram_slots(tail)) == trigram_peak_upto(tail, n));
        }
    }
}

/// The reason text of a same-token run: `same_token_run=<run>`. (The reason
/// for low tail uniqueness is written with ratios, which the caller formats.)
pub open spec fn run_message(run: usize) -> Seq<char> {
    "same_token_run="@ + crate::num::decimal_digits(run as nat)
}

/// The reason text for a same-token run.
pub fn same_token_run_message(run: usize) -> (r: String)
    ensures
        r@ == run_message(run),
{
    let mut v = chars_of("same_token_run=");
    let digits = crate::num::u64_to_decimal(run as u64);
    crate::text::push_chars(&mut v, &digits);
    crate::text::string_from_chars(&v)
}

} // verus!
