//! Post-recognition corrections dictionary: token-level replacement of known
//! misrecognitions, and learning new replacements from user edits.

use vstd::prelude::*;
use crate::config::CorrectionsConfig;
use crate::hardware::owned;
use crate::paths::path_join;
use crate::text::{
    char_is_alphanumeric, char_to_lowercase, chars_of, push_chars, slice_chars, split_whitespace,
    split_ws, string_from_chars, trim, trim_exec, unicode_char_lowercase, unicode_is_alphanumeric,
    views, ascii_lower_char, is_ascii_alnum, is_ascii_char, is_ascii_str,
};

verus! {

// ---------------------------------------------------------------------------
// Normalisation and token splitting.
// ---------------------------------------------------------------------------

/// The alphanumeric characters of `s`, in order.
pub open spec fn keep_alnum(s: Seq<char>) -> Seq<char>
    decreases s.len(),
{
    if s.len() == 0 {
        seq![]
    } else if unicode_is_alphanumeric(s.last()) {
        keep_alnum(s.drop_last()).push(s.last())
    } else {
        keep_alnum(s.drop_last())
    }
}

/// The ASCII letters and digits of `s`, in order: `keep_alnum` on ASCII
/// text.
pub open spec fn ascii_keep_alnum(s: Seq<char>) -> Seq<char>
    decreases s.len(),
{
    if s.len() == 0 {
        seq![]
    } else if is_ascii_alnum(s.last()) {
        ascii_keep_alnum(s.drop_last()).push(s.last())
    } else {
        ascii_keep_alnum(s.drop_last())
    }
}

/// An ASCII word lowercased, keeping only its letters and digits:
/// `normalize_word` on ASCII text.
pub open spec fn ascii_normalize_word(w: Seq<char>) -> Seq<char>
    decreases w.len(),
{
    if w.len() == 0 {
        seq![]
    } else {
        ascii_normalize_word(w.drop_last()) + ascii_keep_alnum(seq![ascii_lower_char(w.last())])
    }
}

/// A word lowercased character by character, keeping only alphanumerics.
pub open spec fn normalize_word(w: Seq<char>) -> Seq<char>
    decreases w.len(),
{
    if w.len() == 0 {
        seq![]
    } else {
        normalize_word(w.drop_last()) + keep_alnum(unicode_char_lowercase(w.last()))
    }
}

fn push_alnum(out: &mut Vec<char>, s: &[char])
    ensures
        final(out)@ == old(out)@ + keep_alnum(s@),
        is_ascii_str(s@) ==> final(out)@ == old(out)@ + ascii_keep_alnum(s@),
{
    let ghost base = out@;
    let mut i: usize = 0;
    assert(s@.take(0) =~= seq![]);
    while i < s.len()
        invariant
            i <= s@.len(),
            out@ == base + keep_alnum(s@.take(i as int)),
            is_ascii_str(s@) ==> out@ == base + ascii_keep_alnum(s@.take(i as int)),
        decreases s@.len() - i,
    {
        assert(s@.take(i + 1).drop_last() == s@.take(i as int));
        assert(s@.take(i + 1).last() == s@[i as int]);
        if char_is_alphanumeric(s[i]) {
            out.push(s[i]);
            assert(out@ =~= base + keep_alnum(s@.take(i + 1)));
            proof {
                if is_ascii_str(s@) {
                    assert(is_ascii_char(s@[i as int]));
                    assert(out@ =~= base + ascii_keep_alnum(s@.take(i + 1)));
                }
            }
        } else {
            proof {
                if is_ascii_str(s@) {
                    assert(is_ascii_char(s@[i as int]));
                }
            }
        }
        i = i + 1;
    }
    assert(s@.take(i as int) == s@);
}

/// Lowercases a word and keeps only its alphanumeric characters.
pub fn normalize_chars(w: &[char]) -> (r: Vec<char>)
    ensures
        r@ == normalize_word(w@),
        is_ascii_str(w@) ==> r@ == ascii_normalize_word(w@),
{
    let mut out: Vec<char> = Vec::new();
    let mut i: usize = 0;
    assert(w@.take(0) =~= seq![]);
    while i < w.len()
        invariant
            i <= w@.len(),
            out@ == normalize_word(w@.take(i as int)),
            is_ascii_str(w@) ==> out@ == ascii_normalize_word(w@.take(i as int)),
        decreases w@.len() - i,
    {
        assert(w@.take(i + 1).drop_last() == w@.take(i as int));
        assert(w@.take(i + 1).last() == w@[i as int]);
        let lower = char_to_lowercase(w[i]);
        proof {
            if is_ascii_str(w@) {
                assert(is_ascii_char(w@[i as int]));
                let c = ascii_lower_char(w@[i as int]);
                assert(is_ascii_char(c));
                assert(is_ascii_str(lower@));
            }
        }
        push_alnum(&mut out, &lower);
        i = i + 1;
    }
    assert(w@.take(i as int) == w@);
    out
}

/// Lowercases a word and keeps only its alphanumeric characters; for an
/// ASCII word, its letters and digits with ASCII letters lowercased.
pub fn normalize(word: &str) -> (r: String)
    ensures
        r@ == normalize_word(word@),
        is_ascii_str(word@) ==> r@ == ascii_normalize_word(word@),
{
    let w = chars_of(word);
    let n = normalize_chars(&w);
    string_from_chars(&n)
}

/// The normalised words of a text, without the empty ones.
pub open spec fn normalized_seq(tokens: Seq<Seq<char>>) -> Seq<Seq<char>>
    decreases tokens.len(),
{
    if tokens.len() == 0 {
        seq![]
    } else {
        let rest = normalized_seq(tokens.drop_last());
        let n = normalize_word(tokens.last());
        if n.len() > 0 {
            rest.push(n)
        } else {
            rest
        }
    }
}

pub open spec fn normalized_words_spec(text: Seq<char>) -> Seq<Seq<char>> {
    normalized_seq(split_ws(text))
}

/// Splits a text at whitespace and normalises each word, dropping the words
/// that normalise to nothing.
pub fn normalized_words(text: &[char]) -> (r: Vec<Vec<char>>)
    ensures
        views(r@) == normalized_words_spec(text@),
{
    let toks = split_whitespace(text);
    let ghost tv = views(toks@);
    let mut out: Vec<Vec<char>> = Vec::new();
    let mut i: usize = 0;
    assert(tv.take(0) =~= seq![]);
    assert(views(out@) =~= seq![]);
    while i < toks.len()
        invariant
            i <= toks@.len(),
            tv == views(toks@),
            tv == split_ws(text@),
            views(out@) == normalized_seq(tv.take(i as int)),
        decreases toks@.len() - i,
    {
        assert(tv.take(i + 1).drop_last() == tv.take(i as int));
        assert(tv.take(i + 1).last() == toks@[i as int]@);
        let n = normalize_chars(&toks[i]);
        if n.len() > 0 {
            let ghost before = out@;
            out.push(n);
            assert(views(out@) =~= views(before).push(n@));
        }
        i = i + 1;
    }
    assert(tv.take(i as int) == tv);
    out
}

/// Index of the first alphanumeric character of `t` (its length if none).
pub open spec fn first_alnum(t: Seq<char>) -> int
    decreases t.len(),
{
    if t.len() == 0 {
        0
    } else if unicode_is_alphanumeric(t[0]) {
        0
    } else {
        1 + first_alnum(t.drop_first())
    }
}

/// One past the last alphanumeric character of `t` (0 if none).
pub open spec fn end_alnum(t: Seq<char>) -> int
    decreases t.len(),
{
    if t.len() == 0 {
        0
    } else if unicode_is_alphanumeric(t.last()) {
        t.len() as int
    } else {
        end_alnum(t.drop_last())
    }
}

/// A token split into leading punctuation, core and trailing punctuation:
/// the core runs from the first to the last alphanumeric character. A token
/// with no alphanumeric character is all suffix.
pub open spec fn split_token_spec(t: Seq<char>) -> (Seq<char>, Seq<char>, Seq<char>) {
    let s = first_alnum(t);
    let e = end_alnum(t);
    if s >= e {
        (seq![], seq![], t)
    } else {
        (t.subrange(0, s), t.subrange(s, e), t.subrange(e, t.len() as int))
    }
}

/// `first_alnum` on ASCII text: index of the first ASCII letter or digit.
pub open spec fn first_ascii_alnum(t: Seq<char>) -> int
    decreases t.len(),
{
    if t.len() == 0 {
        0
    } else if is_ascii_alnum(t[0]) {
        0
    } else {
        1 + first_ascii_alnum(t.drop_first())
    }
}

/// `end_alnum` on ASCII text: one past the last ASCII letter or digit.
pub open spec fn end_ascii_alnum(t: Seq<char>) -> int
    decreases t.len(),
{
    if t.len() == 0 {
        0
    } else if is_ascii_alnum(t.last()) {
        t.len() as int
    } else {
        end_ascii_alnum(t.drop_last())
    }
}

/// `split_token_spec` on ASCII text: the core runs from the first to the
/// last ASCII letter or digit.
pub open spec fn ascii_split_token(t: Seq<char>) -> (Seq<char>, Seq<char>, Seq<char>) {
    let s = first_ascii_alnum(t);
    let e = end_ascii_alnum(t);
    if s >= e {
        (seq![], seq![], t)
    } else {
        (t.subrange(0, s), t.subrange(s, e), t.subrange(e, t.len() as int))
    }
}

proof fn lemma_first_alnum_bounds(t: Seq<char>)
    ensures
        0 <= first_alnum(t) <= t.len(),
    decreases t.len(),
{
    if t.len() > 0 && !unicode_is_alphanumeric(t[0]) {
        lemma_first_alnum_bounds(t.drop_first());
    }
}

proof fn lemma_end_alnum_bounds(t: Seq<char>)
    ensures
        0 <= end_alnum(t) <= t.len(),
    decreases t.len(),
{
    if t.len() > 0 && !unicode_is_alphanumeric(t.last()) {
        lemma_end_alnum_bounds(t.drop_last());
    }
}

fn split_token_bounds(t: &[char]) -> (r: (usize, usize))
    ensures
        r.0 as int == first_alnum(t@),
        r.1 as int == end_alnum(t@),
        is_ascii_str(t@) ==> r.0 as int == first_ascii_alnum(t@) && r.1 as int == end_ascii_alnum(
            t@,
        ),
{
    let mut s: usize = 0;
    assert(t@.skip(0) == t@);
    while s < t.len() && !char_is_alphanumeric(t[s])
        invariant
            s <= t@.len(),
            first_alnum(t@) == s + first_alnum(t@.skip(s as int)),
            is_ascii_str(t@) ==> first_ascii_alnum(t@) == s + first_ascii_alnum(t@.skip(s as int)),
        decreases t@.len() - s,
    {
        assert(t@.skip(s as int)[0] == t@[s as int]);
        assert(t@.skip(s as int).drop_first() == t@.skip(s + 1));
        proof {
            if is_ascii_str(t@) {
                assert(is_ascii_char(t@[s as int]));
            }
        }
        s = s + 1;
    }
    proof {
        if s < t@.len() {
            assert(t@.skip(s as int)[0] == t@[s as int]);
            if is_ascii_str(t@) {
                assert(is_ascii_char(t@[s as int]));
            }
        }
    }
    let mut e: usize = t.len();
    assert(t@.take(t@.len() as int) == t@);
    while e > 0 && !char_is_alphanumeric(t[e - 1])
        invariant
            e <= t@.len(),
            end_alnum(t@) == end_alnum(t@.take(e as int)),
            is_ascii_str(t@) ==> end_ascii_alnum(t@) == end_ascii_alnum(t@.take(e as int)),
        decreases e,
    {
        assert(t@.take(e as int).last() == t@[e - 1]);
        assert(t@.take(e as int).drop_last() == t@.take(e - 1));
        proof {
            if is_ascii_str(t@) {
                assert(is_ascii_char(t@[e - 1]));
            }
        }
        e = e - 1;
    }
    proof {
        if e > 0 {
            assert(t@.take(e as int).last() == t@[e - 1]);
            if is_ascii_str(t@) {
                assert(is_ascii_char(t@[e - 1]));
            }
        }
    }
    (s, e)
}

/// Splits a token into leading punctuation, core word and trailing
/// punctuation (for example `"GPU,` into `"`, `GPU`, `,`).
pub fn split_token_chars(t: &[char]) -> (r: (Vec<char>, Vec<char>, Vec<char>))
    ensures
        (r.0@, r.1@, r.2@) == split_token_spec(t@),
        is_ascii_str(t@) ==> (r.0@, r.1@, r.2@) == ascii_split_token(t@),
{
    let (s, e) = split_token_bounds(t);
    if s >= e {
        let all = slice_chars(t, 0, t.len());
        assert(all@ =~= t@);
        return (Vec::new(), Vec::new(), all);
    }
    proof {
        lemma_end_alnum_bounds(t@);
    }
    (slice_chars(t, 0, s), slice_chars(t, s, e), slice_chars(t, e, t.len()))
}

/// Splits a token into leading punctuation, core word and trailing
/// punctuation; for an ASCII token the core runs from the first to the last
/// ASCII letter or digit.
pub fn split_token(token: &str) -> (r: (String, String, String))
    ensures
        (r.0@, r.1@, r.2@) == split_token_spec(token@),
        is_ascii_str(token@) ==> (r.0@, r.1@, r.2@) == ascii_split_token(token@),
{
    let t = chars_of(token);
    let (p, c, s) = split_token_chars(&t);
    (string_from_chars(&p), string_from_chars(&c), string_from_chars(&s))
}

// ---------------------------------------------------------------------------
// The dictionary.
// ---------------------------------------------------------------------------

/// A learned or configured replacement.
#[derive(Debug, Clone)]
pub struct CorrectionEntry {
    pub from: String,
    pub to: String,
    pub hits: u64,
}

/// A replacement seen in user edits, counted until it is promoted.
#[derive(Debug, Clone)]
pub struct CandidateEntry {
    pub from: String,
    pub to: String,
    pub count: u32,
}

/// The dictionary document.
#[derive(Debug, Clone)]
pub struct CorrectionsDoc {
    pub schema_version: String,
    pub updated_at: String,
    pub entries: Vec<CorrectionEntry>,
    pub auto_candidates: Vec<CandidateEntry>,
}

impl CorrectionsDoc {
    /// An empty dictionary stamped with the current time (left empty when
    /// the clock cannot be read).
    pub fn new_empty() -> (d: Self)
        ensures
            d.schema_version@ == "dictator_corrections.v1"@,
            d.entries@.len() == 0,
            d.auto_candidates@.len() == 0,
    {
        CorrectionsDoc {
            schema_version: owned("dictator_corrections.v1"),
            updated_at: match crate::clock::now_rfc3339() {
                Some(t) => t,
                None => String::new(),
            },
            entries: Vec::new(),
            auto_candidates: Vec::new(),
        }
    }
}

/// The dictionary with its configuration and file location. Reading and
/// writing the file is left to the caller.
pub struct CorrectionsManager {
    pub config: CorrectionsConfig,
    pub path: String,
    pub doc: CorrectionsDoc,
}

/// The dictionary file: the configured one, else
/// `<models root>/shared_corrections.v1.json`.
pub fn resolve_dictionary_path(config: &CorrectionsConfig, models_root: &str) -> (r: String)
    ensures
        config.dictionary_path matches Some(p) ==> r@ == p@,
        config.dictionary_path is None ==> crate::text::ends_with(
            r@,
            "shared_corrections.v1.json"@,
        ),
        config.dictionary_path is None && crate::paths::no_verbatim(models_root@)
            ==> crate::paths::joined(r@, models_root@, "shared_corrections.v1.json"@)
            && crate::text::starts_with(r@, models_root@),
{
    match &config.dictionary_path {
        Some(p) => owned(p.as_str()),
        None => {
            proof {
                reveal_strlit("shared_corrections.v1.json");
                assert(crate::paths::plain_relative("shared_corrections.v1.json"@));
            }
            let r = path_join(models_root, "shared_corrections.v1.json");
            proof {
                if crate::paths::no_verbatim(models_root@) {
                    crate::paths::lemma_joined(r@, models_root@, "shared_corrections.v1.json"@);
                }
            }
            r
        },
    }
}

/// The lookup keys of the entries: their normalised source words.
pub open spec fn entry_keys(entries: Seq<CorrectionEntry>) -> Seq<Seq<char>> {
    entries.map_values(|e: CorrectionEntry| normalize_word(e.from@))
}

pub open spec fn entry_targets(entries: Seq<CorrectionEntry>) -> Seq<Seq<char>> {
    entries.map_values(|e: CorrectionEntry| e.to@)
}

/// The last index holding `key` (later entries win).
pub open spec fn last_match(keys: Seq<Seq<char>>, key: Seq<char>) -> Option<int>
    decreases keys.len(),
{
    if keys.len() == 0 {
        None
    } else if keys.last() == key {
        Some(keys.len() - 1)
    } else {
        last_match(keys.drop_last(), key)
    }
}

proof fn lemma_last_match_bounds(keys: Seq<Seq<char>>, key: Seq<char>)
    ensures
        last_match(keys, key) matches Some(j) ==> 0 <= j < keys.len() && keys[j] == key,
    decreases keys.len(),
{
    if keys.len() > 0 && keys.last() != key {
        lemma_last_match_bounds(keys.drop_last(), key);
    }
}

/// The entry that a token's core word selects, if any.
pub open spec fn token_target(t: Seq<char>, keys: Seq<Seq<char>>) -> Option<int> {
    let parts = split_token_spec(t);
    if parts.1.len() == 0 {
        None
    } else {
        last_match(keys, normalize_word(parts.1))
    }
}

/// A token with its core word replaced by the selected entry's target.
pub open spec fn token_out(t: Seq<char>, keys: Seq<Seq<char>>, targets: Seq<Seq<char>>) -> Seq<
    char,
> {
    let parts = split_token_spec(t);
    match token_target(t, keys) {
        Some(j) => parts.0 + targets[j] + parts.2,
        None => t,
    }
}

pub open spec fn tokens_out(toks: Seq<Seq<char>>, keys: Seq<Seq<char>>, targets: Seq<Seq<char>>) -> Seq<
    Seq<char>,
>
    decreases toks.len(),
{
    if toks.len() == 0 {
        seq![]
    } else {
        tokens_out(toks.drop_last(), keys, targets).push(token_out(toks.last(), keys, targets))
    }
}

/// How many tokens select entry `j`.
pub open spec fn hits_for(toks: Seq<Seq<char>>, keys: Seq<Seq<char>>, j: int) -> nat
    decreases toks.len(),
{
    if toks.len() == 0 {
        0
    } else {
        hits_for(toks.drop_last(), keys, j) + if token_target(toks.last(), keys) == Some(j) {
            1nat
        } else {
            0nat
        }
    }
}

/// How many tokens select some entry.
pub open spec fn replaced_count(toks: Seq<Seq<char>>, keys: Seq<Seq<char>>) -> nat
    decreases toks.len(),
{
    if toks.len() == 0 {
        0
    } else {
        replaced_count(toks.drop_last(), keys) + if token_target(toks.last(), keys) is Some {
            1nat
        } else {
            0nat
        }
    }
}

pub open spec fn saturating_add_u64(a: u64, n: nat) -> u64 {
    if a + n > u64::MAX {
        u64::MAX
    } else {
        (a + n) as u64
    }
}

/// The text that `apply` returns: each whitespace-separated token with its
/// core replaced, joined by single spaces; an untouched text when the
/// dictionary is disabled or the text is blank.
pub open spec fn applied_text(enabled: bool, text: Seq<char>, entries: Seq<CorrectionEntry>) -> Seq<
    char,
> {
    if !enabled || trim(text).len() == 0 {
        text
    } else {
        crate::text::join(
            tokens_out(split_ws(text), entry_keys(entries), entry_targets(entries)),
            " "@,
        )
    }
}

fn last_match_exec(keys: &Vec<Vec<char>>, key: &[char]) -> (r: Option<usize>)
    ensures
        match r {
            Some(j) => last_match(views(keys@), key@) == Some(j as int),
            None => last_match(views(keys@), key@) is None,
        },
{
    let ghost kv = views(keys@);
    let mut found: Option<usize> = None;
    let mut i: usize = 0;
    assert(kv.take(0) =~= seq![]);
    while i < keys.len()
        invariant
            i <= keys@.len(),
            kv == views(keys@),
            match found {
                Some(j) => last_match(kv.take(i as int), key@) == Some(j as int),
                None => last_match(kv.take(i as int), key@) is None,
            },
        decreases keys@.len() - i,
    {
        assert(kv.take(i + 1).drop_last() == kv.take(i as int));
        assert(kv.take(i + 1).last() == keys@[i as int]@);
        if crate::text::occurs_at_exec(&keys[i], key, 0) && keys[i].len() == key.len() {
            assert(keys@[i as int]@.subrange(0, key@.len() as int) == keys@[i as int]@);
            found = Some(i);
        } else {
            assert(keys@[i as int]@ != key@) by {
                if keys@[i as int]@ == key@ {
                    assert(keys@[i as int]@.subrange(0, key@.len() as int) =~= key@);
                }
            }
        }
        i = i + 1;
    }
    assert(kv.take(i as int) == kv);
    found
}

/// The lookup index of a dictionary: the normalised source word of each
/// entry, by position. A lookup takes the last position that holds a word
/// (`last_match`), as a map filled in entry order keeps the last entry.
pub fn build_index(entries: &Vec<CorrectionEntry>) -> (r: Vec<Vec<char>>)
    ensures
        views(r@) == entry_keys(entries@),
{
    let mut r: Vec<Vec<char>> = Vec::new();
    let mut i: usize = 0;
    while i < entries.len()
        invariant
            i <= entries@.len(),
            views(r@) == entry_keys(entries@).take(i as int),
        decreases entries@.len() - i,
    {
        let f = chars_of(entries[i].from.as_str());
        let k = normalize_chars(&f);
        let ghost before = r@;
        r.push(k);
        assert(f@ == entries@[i as int].from@);
        assert(entry_keys(entries@)[i as int] == normalize_word(entries@[i as int].from@));
        assert(views(r@) =~= views(before).push(k@));
        assert(entry_keys(entries@).take(i + 1) =~= entry_keys(entries@).take(i as int).push(
            entry_keys(entries@)[i as int],
        ));
        i = i + 1;
    }
    assert(entry_keys(entries@).take(i as int) =~= entry_keys(entries@));
    r
}

/// Entry `j` with one more hit (saturating).
fn bump_hits(entries: &mut Vec<CorrectionEntry>, j: usize)
    requires
        j < old(entries)@.len(),
    ensures
        final(entries)@ == old(entries)@.update(
            j as int,
            CorrectionEntry {
                hits: saturating_add_u64(old(entries)@[j as int].hits, 1),
                ..old(entries)@[j as int]
            },
        ),
{
    let e = entries.remove(j);
    let hits = if e.hits == u64::MAX {
        e.hits
    } else {
        e.hits + 1
    };
    let e2 = CorrectionEntry { hits, ..e };
    entries.insert(j, e2);
    assert(entries@ =~= old(entries)@.update(
        j as int,
        CorrectionEntry {
            hits: saturating_add_u64(old(entries)@[j as int].hits, 1),
            ..old(entries)@[j as int]
        },
    ));
}

impl CorrectionsManager {
    /// A manager over a loaded (or new) dictionary document.
    pub fn from_doc(config: &CorrectionsConfig, path: String, doc: CorrectionsDoc) -> (m: Self)
        ensures
            m.path == path,
            m.doc == doc,
            m.config.enabled == config.enabled,
            m.config.auto_learn == config.auto_learn,
            m.config.min_auto_learn_repeats == config.min_auto_learn_repeats,
    {
        let cfg = CorrectionsConfig {
            enabled: config.enabled,
            auto_learn: config.auto_learn,
            min_auto_learn_repeats: config.min_auto_learn_repeats,
            dictionary_path: match &config.dictionary_path {
                Some(p) => Some(owned(p.as_str())),
                None => None,
            },
        };
        CorrectionsManager { config: cfg, path, doc }
    }

    /// The dictionary file.
    pub fn dictionary_path(&self) -> (r: &str)
        ensures
            r@ == self.path@,
    {
        self.path.as_str()
    }

    /// Replaces known misrecognitions in `text`, counting each use of an
    /// entry. Also returns how many tokens were replaced; when any was, the
    /// document's time stamp is renewed and it should be saved.
    pub fn apply_counting(&mut self, text: &str) -> (r: (String, u64))
        ensures
            r.0@ == applied_text(old(self).config.enabled, text@, old(self).doc.entries@),
            final(self).config == old(self).config,
            final(self).path == old(self).path,
            final(self).doc.schema_version == old(self).doc.schema_version,
            final(self).doc.auto_candidates == old(self).doc.auto_candidates,
            final(self).doc.entries@.len() == old(self).doc.entries@.len(),
            (!old(self).config.enabled || trim(text@).len() == 0) ==> *final(self) == *old(self)
                && r.1 == 0,
            old(self).config.enabled && trim(text@).len() > 0 ==> {
                let toks = split_ws(text@);
                let keys = entry_keys(old(self).doc.entries@);
                &&& r.1 == replaced_count(toks, keys)
                &&& forall|j: int|
                    0 <= j < old(self).doc.entries@.len() ==> {
                        &&& (#[trigger] final(self).doc.entries@[j]).from == old(
                            self,
                        ).doc.entries@[j].from
                        &&& final(self).doc.entries@[j].to == old(self).doc.entries@[j].to
                        &&& final(self).doc.entries@[j].hits == saturating_add_u64(
                            old(self).doc.entries@[j].hits,
                            hits_for(toks, keys, j),
                        )
                    }
                &&& r.1 == 0 ==> final(self).doc.updated_at == old(self).doc.updated_at
            },
    {
        let tc = chars_of(text);
        let trimmed = trim_exec(&tc);
        if !self.config.enabled || trimmed.len() == 0 {
            return (owned(text), 0);
        }
        let keys = build_index(&self.doc.entries);
        let toks = split_whitespace(&tc);
        let ghost tv = views(toks@);
        let ghost kv = views(keys@);
        let ghost targets = entry_targets(self.doc.entries@);
        let ghost old_entries = self.doc.entries@;
        let mut outs: Vec<String> = Vec::new();
        let mut replaced: u64 = 0;
        let mut i: usize = 0;
        assert(tv.take(0) =~= seq![]);
        assert(crate::text::str_views(outs@) =~= seq![]);
        while i < toks.len()
            invariant
                i <= toks@.len(),
                tv == views(toks@),
                tv == split_ws(text@),
                kv == views(keys@),
                kv == entry_keys(old_entries),
                targets == entry_targets(old_entries),
                old_entries == old(self).doc.entries@,
                self.config == old(self).config,
                self.path == old(self).path,
                self.doc.schema_version == old(self).doc.schema_version,
                self.doc.updated_at == old(self).doc.updated_at,
                self.doc.auto_candidates == old(self).doc.auto_candidates,
                self.doc.entries@.len() == old_entries.len(),
                crate::text::str_views(outs@) == tokens_out(tv.take(i as int), kv, targets),
                replaced as nat == replaced_count(tv.take(i as int), kv),
                replaced as nat <= i,
                forall|j: int|
                    0 <= j < old_entries.len() ==> {
                        &&& (#[trigger] self.doc.entries@[j]).from == old_entries[j].from
                        &&& self.doc.entries@[j].to == old_entries[j].to
                        &&& self.doc.entries@[j].hits == saturating_add_u64(
                            old_entries[j].hits,
                            hits_for(tv.take(i as int), kv, j),
                        )
                    },
            decreases toks@.len() - i,
        {
            let ghost prefix = tv.take(i as int);
            assert(tv.take(i + 1).drop_last() == prefix);
            assert(tv.take(i + 1).last() == toks@[i as int]@);
            let token = &toks[i];
            let (p, c, s) = split_token_chars(token);
            let mut out_tok: Vec<char> = Vec::new();
            let ghost before_entries = self.doc.entries@;
            if c.len() == 0 {
                push_chars(&mut out_tok, token);
            } else {
                let key = normalize_chars(&c);
                match last_match_exec(&keys, &key) {
                    Some(j) => {
                        proof {
                            lemma_last_match_bounds(kv, key@);
                        }
                        bump_hits(&mut self.doc.entries, j);
                        replaced = replaced + 1;
                        push_chars(&mut out_tok, &p);
                        let target = chars_of(self.doc.entries[j].to.as_str());
                        push_chars(&mut out_tok, &target);
                        push_chars(&mut out_tok, &s);
                    },
                    None => {
                        push_chars(&mut out_tok, token);
                    },
                }
            }
            assert(out_tok@ =~= token_out(toks@[i as int]@, kv, targets));
            let ghost before_outs = outs@;
            outs.push(string_from_chars(&out_tok));
            assert(crate::text::str_views(outs@) =~= crate::text::str_views(before_outs).push(
                out_tok@,
            ));
            assert forall|j: int| 0 <= j < old_entries.len() implies {
                &&& (#[trigger] self.doc.entries@[j]).from == old_entries[j].from
                &&& self.doc.entries@[j].to == old_entries[j].to
                &&& self.doc.entries@[j].hits == saturating_add_u64(
                    old_entries[j].hits,
                    hits_for(tv.take(i + 1), kv, j),
                )
            } by {
                assert(hits_for(tv.take(i + 1), kv, j) == hits_for(prefix, kv, j) + if token_target(
                    toks@[i as int]@,
                    kv,
                ) == Some(j) {
                    1nat
                } else {
                    0nat
                });
            }
            i = i + 1;
        }
        assert(tv.take(i as int) == tv);
        if replaced > 0 {
            if let Some(t) = crate::clock::now_rfc3339() {
                self.doc.updated_at = t;
            }
        }
        let mut joined: Vec<char> = Vec::new();
        crate::text::push_joined(&mut joined, &outs, " ");
        assert(joined@ =~= applied_text(old(self).config.enabled, text@, old_entries));
        (string_from_chars(&joined), replaced)
    }

    /// Replaces known misrecognitions in `text`, counting each use of an
    /// entry (see `apply_counting`): the dictionary is unchanged when
    /// correction is off or the text is blank; otherwise each entry's hits
    /// grow by the tokens it replaced and the entries are otherwise kept.
    pub fn apply(&mut self, text: &str) -> (r: String)
        ensures
            r@ == applied_text(old(self).config.enabled, text@, old(self).doc.entries@),
            final(self).config == old(self).config,
            final(self).path == old(self).path,
            final(self).doc.schema_version == old(self).doc.schema_version,
            final(self).doc.auto_candidates == old(self).doc.auto_candidates,
            final(self).doc.entries@.len() == old(self).doc.entries@.len(),
            (!old(self).config.enabled || trim(text@).len() == 0) ==> *final(self) == *old(self),
            old(self).config.enabled && trim(text@).len() > 0 ==> {
                let toks = split_ws(text@);
                let keys = entry_keys(old(self).doc.entries@);
                &&& forall|j: int|
                    0 <= j < old(self).doc.entries@.len() ==> {
                        &&& (#[trigger] final(self).doc.entries@[j]).from == old(
                            self,
                        ).doc.entries@[j].from
                        &&& final(self).doc.entries@[j].to == old(self).doc.entries@[j].to
                        &&& final(self).doc.entries@[j].hits == saturating_add_u64(
                            old(self).doc.entries@[j].hits,
                            hits_for(toks, keys, j),
                        )
                    }
                &&& replaced_count(toks, keys) == 0 ==> final(self).doc.updated_at == old(
                    self,
                ).doc.updated_at
            },
    {
        let (out, _count) = self.apply_counting(text);
        out
    }
}

// ---------------------------------------------------------------------------
// Learning from user edits.
// ---------------------------------------------------------------------------

/// Bytes that the UTF-8 encoding of `c` takes.
pub open spec fn utf8_width(c: char) -> nat {
    if (c as u32) < 0x80 {
        1
    } else if (c as u32) < 0x800 {
        2
    } else if (c as u32) < 0x10000 {
        3
    } else {
        4
    }
}

/// Length in bytes of the UTF-8 encoding of `s` (`str::len`).
pub open spec fn utf8_len(s: Seq<char>) -> nat
    decreases s.len(),
{
    if s.len() == 0 {
        0
    } else {
        utf8_len(s.drop_last()) + utf8_width(s.last())
    }
}

/// A word pair is learned from when the words differ and both are at least
/// three bytes long.
pub open spec fn learnable(from: Seq<char>, to: Seq<char>) -> bool {
    from != to && utf8_len(from) >= 3 && utf8_len(to) >= 3
}

pub type CandidateView = (Seq<char>, Seq<char>, u32);

pub type EntryView = (Seq<char>, Seq<char>, u64);

pub open spec fn candidate_views(cs: Seq<CandidateEntry>) -> Seq<CandidateView> {
    cs.map_values(|c: CandidateEntry| (c.from@, c.to@, c.count))
}

pub open spec fn entry_views(es: Seq<CorrectionEntry>) -> Seq<EntryView> {
    es.map_values(|e: CorrectionEntry| (e.from@, e.to@, e.hits))
}

/// The last candidate for exactly this pair.
pub open spec fn last_pair(cs: Seq<CandidateView>, from: Seq<char>, to: Seq<char>) -> Option<int>
    decreases cs.len(),
{
    if cs.len() == 0 {
        None
    } else if cs.last().0 == from && cs.last().1 == to {
        Some(cs.len() - 1)
    } else {
        last_pair(cs.drop_last(), from, to)
    }
}

/// Counting one observed pair: its candidate's count grows by one
/// (saturating), or a new candidate with count 1 is appended.
pub open spec fn count_pair(cs: Seq<CandidateView>, from: Seq<char>, to: Seq<char>) -> Seq<
    CandidateView,
> {
    if !learnable(from, to) {
        cs
    } else {
        match last_pair(cs, from, to) {
            Some(i) => cs.update(
                i,
                (cs[i].0, cs[i].1, if cs[i].2 == u32::MAX {
                    u32::MAX
                } else {
                    (cs[i].2 + 1) as u32
                }),
            ),
            None => cs.push((from, to, 1u32)),
        }
    }
}

/// The candidates after counting the pairs `(from[k], to[k])` in order.
pub open spec fn count_pairs(cs: Seq<CandidateView>, from: Seq<Seq<char>>, to: Seq<Seq<char>>) -> Seq<
    CandidateView,
>
    decreases from.len(),
{
    if from.len() == 0 {
        cs
    } else {
        count_pair(count_pairs(cs, from.drop_last(), to.drop_last()), from.last(), to[from.len() - 1])
    }
}

pub open spec fn any_learnable(from: Seq<Seq<char>>, to: Seq<Seq<char>>) -> bool {
    exists|k: int| 0 <= k < from.len() && learnable(#[trigger] from[k], to[k])
}

/// The candidates that are promoted: seen at least `min` times, with a
/// source word that no entry already covers; they become entries with no hits.
pub open spec fn promoted(cs: Seq<CandidateView>, keys: Seq<Seq<char>>, min: u32) -> Seq<EntryView>
    decreases cs.len(),
{
    if cs.len() == 0 {
        seq![]
    } else {
        let rest = promoted(cs.drop_last(), keys, min);
        let c = cs.last();
        if c.2 >= min && !keys.contains(c.0) {
            rest.push((c.0, c.1, 0u64))
        } else {
            rest
        }
    }
}

pub open spec fn min_repeats(config: CorrectionsConfig) -> u32 {
    if config.min_auto_learn_repeats < 2 {
        2
    } else {
        config.min_auto_learn_repeats
    }
}

/// The entry `e` comes from a candidate seen at least `min` times whose
/// source word is not yet an entry.
pub open spec fn promoted_source(cs: Seq<CandidateView>, keys: Seq<Seq<char>>, min: u32, e: EntryView) -> bool {
    exists|i: int|
        0 <= i < cs.len() && #[trigger] cs[i].2 >= min && !keys.contains(cs[i].0) && e == (
            cs[i].0,
            cs[i].1,
            0u64,
        )
}

/// Promotion from the candidates: a candidate seen at least `min` times
/// whose source word is not yet an entry becomes an entry with no hits, and
/// every promoted entry is such a candidate; the threshold is the configured
/// number of repeats, but never under two.
pub proof fn lemma_promotion_threshold(cs: Seq<CandidateView>, keys: Seq<Seq<char>>, config: CorrectionsConfig)
    ensures
        min_repeats(config) >= 2,
        config.min_auto_learn_repeats >= 2 ==> min_repeats(config) == config.min_auto_learn_repeats,
        forall|i: int|
            0 <= i < cs.len() && #[trigger] cs[i].2 >= min_repeats(config) && !keys.contains(cs[i].0)
                ==> promoted(cs, keys, min_repeats(config)).contains((cs[i].0, cs[i].1, 0u64)),
        forall|k: int|
            0 <= k < promoted(cs, keys, min_repeats(config)).len() ==> promoted_source(
                cs,
                keys,
                min_repeats(config),
                #[trigger] promoted(cs, keys, min_repeats(config))[k],
            ),
{
    lemma_promoted_members(cs, keys, min_repeats(config));
}

proof fn lemma_promoted_members(cs: Seq<CandidateView>, keys: Seq<Seq<char>>, min: u32)
    ensures
        forall|i: int|
            0 <= i < cs.len() && #[trigger] cs[i].2 >= min && !keys.contains(cs[i].0)
                ==> promoted(cs, keys, min).contains((cs[i].0, cs[i].1, 0u64)),
        forall|k: int|
            0 <= k < promoted(cs, keys, min).len() ==> promoted_source(
                cs,
                keys,
                min,
                #[trigger] promoted(cs, keys, min)[k],
            ),
    decreases cs.len(),
{
    if cs.len() > 0 {
        let init = cs.drop_last();
        lemma_promoted_members(init, keys, min);
        let rest = promoted(init, keys, min);
        let p = promoted(cs, keys, min);
        let c = cs.last();
        assert forall|i: int|
            0 <= i < cs.len() && #[trigger] cs[i].2 >= min && !keys.contains(cs[i].0)
                implies p.contains((cs[i].0, cs[i].1, 0u64)) by {
            if i < init.len() {
                assert(init[i] == cs[i]);
                assert(rest.contains((init[i].0, init[i].1, 0u64)));
                let j = choose|j: int| 0 <= j < rest.len() && rest[j] == (init[i].0, init[i].1, 0u64);
                if c.2 >= min && !keys.contains(c.0) {
                    assert(p[j] == rest[j]);
                }
            } else {
                assert(p[p.len() - 1] == (c.0, c.1, 0u64));
            }
        }
        assert forall|k: int| 0 <= k < p.len() implies promoted_source(cs, keys, min, #[trigger] p[k]) by {
            if k < rest.len() {
                assert(p[k] == rest[k]);
                assert(promoted_source(init, keys, min, rest[k]));
                let i = choose|i: int|
                    0 <= i < init.len() && #[trigger] init[i].2 >= min && !keys.contains(init[i].0)
                        && rest[k] == (init[i].0, init[i].1, 0u64);
                assert(cs[i] == init[i]);
            } else {
                assert(cs[cs.len() - 1] == c);
            }
        }
    }
}

/// Whether `learn_from_pair` looks at a pair of texts at all.
pub open spec fn learns_from(config: CorrectionsConfig, transcript: Seq<char>, corrected: Seq<char>) -> bool {
    &&& config.auto_learn
    &&& trim(transcript).len() > 0
    &&& trim(corrected).len() > 0
    &&& normalized_words_spec(transcript).len() == normalized_words_spec(corrected).len()
}

fn utf8_len_exec(s: &[char]) -> (r: usize)
    requires
        s@.len() <= usize::MAX / 4,
    ensures
        r as nat == utf8_len(s@),
{
    let mut n: usize = 0;
    let mut i: usize = 0;
    assert(s@.take(0) =~= seq![]);
    while i < s.len()
        invariant
            i <= s@.len() <= usize::MAX / 4,
            n as nat == utf8_len(s@.take(i as int)),
            n <= 4 * i,
        decreases s@.len() - i,
    {
        assert(s@.take(i + 1).drop_last() == s@.take(i as int));
        assert(s@.take(i + 1).last() == s@[i as int]);
        let c = s[i] as u32;
        let w: usize = if c < 0x80 {
            1
        } else if c < 0x800 {
            2
        } else if c < 0x10000 {
            3
        } else {
            4
        };
        n = n + w;
        i = i + 1;
    }
    assert(s@.take(i as int) == s@);
    n
}

fn learnable_exec(from: &Vec<char>, to: &Vec<char>) -> (r: bool)
    ensures
        r == learnable(from@, to@),
{
    let same = from.len() == to.len() && crate::text::occurs_at_exec(from, to, 0);
    proof {
        if from@ == to@ {
            assert(from@.subrange(0, to@.len() as int) =~= to@);
        }
        if same {
            assert(from@.subrange(0, to@.len() as int) == from@);
        }
    }
    if same {
        return false;
    }
    proof {
        lemma_utf8_len_at_least_len(from@);
        lemma_utf8_len_at_least_len(to@);
    }
    let from_ok = from.len() >= 3 || utf8_len_exec(from) >= 3;
    let to_ok = to.len() >= 3 || utf8_len_exec(to) >= 3;
    from_ok && to_ok
}

proof fn lemma_utf8_len_at_least_len(s: Seq<char>)
    ensures
        utf8_len(s) >= s.len(),
    decreases s.len(),
{
    if s.len() > 0 {
        lemma_utf8_len_at_least_len(s.drop_last());
    }
}

fn last_pair_exec(cs: &Vec<CandidateEntry>, from: &Vec<char>, to: &Vec<char>) -> (r: Option<usize>)
    ensures
        match r {
            Some(i) => last_pair(candidate_views(cs@), from@, to@) == Some(i as int),
            None => last_pair(candidate_views(cs@), from@, to@) is None,
        },
{
    let ghost cv = candidate_views(cs@);
    let mut found: Option<usize> = None;
    let mut i: usize = 0;
    assert(cv.take(0) =~= seq![]);
    while i < cs.len()
        invariant
            i <= cs@.len(),
            cv == candidate_views(cs@),
            match found {
                Some(j) => last_pair(cv.take(i as int), from@, to@) == Some(j as int),
                None => last_pair(cv.take(i as int), from@, to@) is None,
            },
        decreases cs@.len() - i,
    {
        assert(cv.take(i + 1).drop_last() == cv.take(i as int));
        assert(cv.take(i + 1).last() == cv[i as int]);
        let f = chars_of(cs[i].from.as_str());
        let t = chars_of(cs[i].to.as_str());
        let same_from = f.len() == from.len() && crate::text::occurs_at_exec(&f, from, 0);
        let same_to = t.len() == to.len() && crate::text::occurs_at_exec(&t, to, 0);
        proof {
            if f@ == from@ {
                assert(f@.subrange(0, from@.len() as int) =~= from@);
            }
            if same_from {
                assert(f@.subrange(0, from@.len() as int) == f@);
            }
            if t@ == to@ {
                assert(t@.subrange(0, to@.len() as int) =~= to@);
            }
            if same_to {
                assert(t@.subrange(0, to@.len() as int) == t@);
            }
        }
        if same_from && same_to {
            found = Some(i);
        }
        i = i + 1;
    }
    assert(cv.take(i as int) == cv);
    found
}

proof fn lemma_last_pair_bounds(cs: Seq<CandidateView>, from: Seq<char>, to: Seq<char>)
    ensures
        last_pair(cs, from, to) matches Some(j) ==> 0 <= j < cs.len(),
    decreases cs.len(),
{
    if cs.len() > 0 && !(cs.last().0 == from && cs.last().1 == to) {
        lemma_last_pair_bounds(cs.drop_last(), from, to);
    }
}

fn count_pair_exec(cs: &mut Vec<CandidateEntry>, from: &Vec<char>, to: &Vec<char>)
    ensures
        candidate_views(final(cs)@) == count_pair(candidate_views(old(cs)@), from@, to@),
{
    if !learnable_exec(from, to) {
        return;
    }
    match last_pair_exec(cs, from, to) {
        Some(i) => {
            proof {
                lemma_last_pair_bounds(candidate_views(cs@), from@, to@);
            }
            let c = cs.remove(i);
            let count = if c.count == u32::MAX {
                c.count
            } else {
                c.count + 1
            };
            cs.insert(i, CandidateEntry { count, ..c });
            assert(candidate_views(cs@) =~= count_pair(candidate_views(old(cs)@), from@, to@));
        },
        None => {
            cs.push(
                CandidateEntry {
                    from: string_from_chars(from),
                    to: string_from_chars(to),
                    count: 1,
                },
            );
            assert(candidate_views(cs@) =~= count_pair(candidate_views(old(cs)@), from@, to@));
        },
    }
}

fn key_present(keys: &Vec<Vec<char>>, k: &[char]) -> (r: bool)
    ensures
        r == views(keys@).contains(k@),
{
    let ghost kv = views(keys@);
    let mut i: usize = 0;
    while i < keys.len()
        invariant
            i <= keys@.len(),
            kv == views(keys@),
            forall|j: int| 0 <= j < i ==> kv[j] != k@,
        decreases keys@.len() - i,
    {
        let same = keys[i].len() == k.len() && crate::text::occurs_at_exec(&keys[i], k, 0);
        proof {
            if keys@[i as int]@ == k@ {
                assert(keys@[i as int]@.subrange(0, k@.len() as int) =~= k@);
            }
            if same {
                assert(keys@[i as int]@.subrange(0, k@.len() as int) == keys@[i as int]@);
            }
        }
        if same {
            assert(kv[i as int] == k@);
            return true;
        }
        i = i + 1;
    }
    false
}

impl CorrectionsManager {
    /// Learns replacements from a transcript and its corrected version.
    /// Returns whether the dictionary changed (and should be saved).
    pub fn learn_from_pair_changed(&mut self, transcript: &str, corrected: &str) -> (changed: bool)
        ensures
            final(self).config == old(self).config,
            final(self).path == old(self).path,
            final(self).doc.schema_version == old(self).doc.schema_version,
            !learns_from(old(self).config, transcript@, corrected@) ==> *final(self) == *old(self)
                && !changed,
            learns_from(old(self).config, transcript@, corrected@) ==> {
                let o = normalized_words_spec(transcript@);
                let c = normalized_words_spec(corrected@);
                let cands = count_pairs(candidate_views(old(self).doc.auto_candidates@), o, c);
                let new_entries = promoted(
                    cands,
                    entry_keys(old(self).doc.entries@),
                    min_repeats(old(self).config),
                );
                &&& candidate_views(final(self).doc.auto_candidates@) == cands
                &&& entry_views(final(self).doc.entries@) == entry_views(old(self).doc.entries@)
                    + new_entries
                &&& changed == (any_learnable(o, c) || new_entries.len() > 0)
                &&& !changed ==> final(self).doc.updated_at == old(self).doc.updated_at
            },
    {
        let oc = chars_of(transcript);
        let cc = chars_of(corrected);
        let ot = trim_exec(&oc);
        let ct = trim_exec(&cc);
        if !self.config.auto_learn || ot.len() == 0 || ct.len() == 0 {
            return false;
        }
        let o = normalized_words(&oc);
        let c = normalized_words(&cc);
        if o.len() != c.len() {
            return false;
        }
        let ghost ov = views(o@);
        let ghost cv = views(c@);
        let ghost start = candidate_views(self.doc.auto_candidates@);
        let mut changed = false;
        let mut k: usize = 0;
        assert(ov.take(0) =~= seq![]);
        assert(cv.take(0) =~= seq![]);
        assert(count_pairs(start, ov.take(0), cv.take(0)) == start);
        while k < o.len()
            invariant
                k <= o@.len(),
                o@.len() == c@.len(),
                ov == views(o@),
                cv == views(c@),
                self.config == old(self).config,
                self.path == old(self).path,
                self.doc.schema_version == old(self).doc.schema_version,
                self.doc.updated_at == old(self).doc.updated_at,
                self.doc.entries == old(self).doc.entries,
                start == candidate_views(old(self).doc.auto_candidates@),
                candidate_views(self.doc.auto_candidates@) == count_pairs(
                    start,
                    ov.take(k as int),
                    cv.take(k as int),
                ),
                changed == any_learnable(ov.take(k as int), cv.take(k as int)),
            decreases o@.len() - k,
        {
            assert(ov.take(k + 1).drop_last() == ov.take(k as int));
            assert(cv.take(k + 1).drop_last() == cv.take(k as int));
            assert(ov.take(k + 1).last() == o@[k as int]@);
            assert(cv.take(k + 1)[k as int] == c@[k as int]@);
            let l = learnable_exec(&o[k], &c[k]);
            count_pair_exec(&mut self.doc.auto_candidates, &o[k], &c[k]);
            if l {
                changed = true;
            }
            proof {
                let a = ov.take(k + 1);
                let b = cv.take(k + 1);
                if l {
                    assert(learnable(a[k as int], b[k as int]));
                }
                assert(any_learnable(a, b) == (any_learnable(ov.take(k as int), cv.take(k as int))
                    || learnable(a[k as int], b[k as int]))) by {
                    if any_learnable(a, b) {
                        let w = choose|w: int| 0 <= w < a.len() && learnable(#[trigger] a[w], b[w]);
                        if w < k {
                            assert(ov.take(k as int)[w] == a[w]);
                            assert(cv.take(k as int)[w] == b[w]);
                        }
                    }
                    if any_learnable(ov.take(k as int), cv.take(k as int)) {
                        let w = choose|w: int|
                            0 <= w < k && learnable(
                                #[trigger] ov.take(k as int)[w],
                                cv.take(k as int)[w],
                            );
                        assert(a[w] == ov.take(k as int)[w]);
                        assert(b[w] == cv.take(k as int)[w]);
                    }
                }
            }
            k = k + 1;
        }
        assert(ov.take(k as int) == ov);
        assert(cv.take(k as int) == cv);
        // Promotion.
        let min: u32 = if self.config.min_auto_learn_repeats < 2 {
            2
        } else {
            self.config.min_auto_learn_repeats
        };
        let keys = build_index(&self.doc.entries);
        let ghost kv = views(keys@);
        let ghost cands = candidate_views(self.doc.auto_candidates@);
        let ghost base_entries = entry_views(self.doc.entries@);
        let mut promoted_any = false;
        let mut j: usize = 0;
        assert(cands.take(0) =~= seq![]);
        assert(base_entries + seq![] =~= base_entries);
        while j < self.doc.auto_candidates.len()
            invariant
                j <= self.doc.auto_candidates@.len(),
                cands == candidate_views(self.doc.auto_candidates@),
                kv == views(keys@),
                kv == entry_keys(old(self).doc.entries@),
                base_entries == entry_views(old(self).doc.entries@),
                entry_views(self.doc.entries@) == base_entries + promoted(
                    cands.take(j as int),
                    kv,
                    min,
                ),
                promoted_any == (promoted(cands.take(j as int), kv, min).len() > 0),
                self.config == old(self).config,
                self.path == old(self).path,
                self.doc.schema_version == old(self).doc.schema_version,
                self.doc.updated_at == old(self).doc.updated_at,
                min == min_repeats(old(self).config),
            decreases self.doc.auto_candidates@.len() - j,
        {
            assert(cands.take(j + 1).drop_last() == cands.take(j as int));
            assert(cands.take(j + 1).last() == cands[j as int]);
            let from = chars_of(self.doc.auto_candidates[j].from.as_str());
            if self.doc.auto_candidates[j].count >= min && !key_present(&keys, &from) {
                let e = CorrectionEntry {
                    from: string_from_chars(&from),
                    to: owned(self.doc.auto_candidates[j].to.as_str()),
                    hits: 0,
                };
                let ghost before = self.doc.entries@;
                self.doc.entries.push(e);
                assert(entry_views(self.doc.entries@) =~= entry_views(before).push(
                    (e.from@, e.to@, 0u64),
                ));
                promoted_any = true;
            }
            j = j + 1;
        }
        assert(cands.take(j as int) == cands);
        if promoted_any {
            changed = true;
        }
        if changed {
            if let Some(t) = crate::clock::now_rfc3339() {
                self.doc.updated_at = t;
            }
        }
        changed
    }

    /// Learns replacements from a transcript and its corrected version.
    pub fn learn_from_pair(&mut self, transcript: &str, corrected: &str)
        ensures
            !learns_from(old(self).config, transcript@, corrected@) ==> *final(self) == *old(self),
            learns_from(old(self).config, transcript@, corrected@) ==> {
                let o = normalized_words_spec(transcript@);
                let c = normalized_words_spec(corrected@);
                let cands = count_pairs(candidate_views(old(self).doc.auto_candidates@), o, c);
                &&& candidate_views(final(self).doc.auto_candidates@) == cands
                &&& entry_views(final(self).doc.entries@) == entry_views(old(self).doc.entries@)
                    + promoted(cands, entry_keys(old(self).doc.entries@), min_repeats(old(self).config))
            },
    {
        let _changed = self.learn_from_pair_changed(transcript, corrected);
    }
}

} // verus!
