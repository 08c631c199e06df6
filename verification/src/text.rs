//! Character and string utilities over `Seq<char>` views.
//!
//! Strings are processed as vectors of `char`; the Unicode classifications
//! that std provides (`char::is_whitespace`, `char::is_alphanumeric`,
//! `char::to_lowercase`, `str::to_lowercase`) are reached through small
//! trusted wrappers whose results are named here.

use vstd::prelude::*;

verus! {

// ---------------------------------------------------------------------------
// Names for what std's Unicode classifications return.
// ---------------------------------------------------------------------------

/// What `char::is_whitespace` returns for a character: whether it has the
/// Unicode `White_Space` property (tab to carriage return, space, next
/// line, no-break space, ogham space mark, en quad to hair space, line and
/// paragraph separators, narrow no-break space, medium mathematical space
/// and ideographic space).
pub open spec fn unicode_is_whitespace(c: char) -> bool {
    let u = c as u32;
    ||| 0x09 <= u <= 0x0D
    ||| u == 0x20
    ||| u == 0x85
    ||| u == 0xA0
    ||| u == 0x1680
    ||| 0x2000 <= u <= 0x200A
    ||| u == 0x2028
    ||| u == 0x2029
    ||| u == 0x202F
    ||| u == 0x205F
    ||| u == 0x3000
}

/// What `char::is_alphanumeric` returns for a character.
pub uninterp spec fn unicode_is_alphanumeric(c: char) -> bool;

/// The characters that `char::to_lowercase` yields for a character.
pub uninterp spec fn unicode_char_lowercase(c: char) -> Seq<char>;

/// What `str::to_lowercase` returns for a string.
pub uninterp spec fn unicode_str_lowercase(s: Seq<char>) -> Seq<char>;

// ---------------------------------------------------------------------------
// ASCII helpers (short, fully specified).
// ---------------------------------------------------------------------------

pub open spec fn is_ascii_char(c: char) -> bool {
    (c as u32) < 128
}

pub open spec fn is_ascii_upper(c: char) -> bool {
    'A' <= c && c <= 'Z'
}

pub open spec fn is_ascii_lower(c: char) -> bool {
    'a' <= c && c <= 'z'
}

pub open spec fn is_ascii_digit(c: char) -> bool {
    '0' <= c && c <= '9'
}

pub open spec fn is_ascii_alnum(c: char) -> bool {
    is_ascii_upper(c) || is_ascii_lower(c) || is_ascii_digit(c)
}

/// ASCII whitespace as `char::is_whitespace` sees it: space, tab, line feed,
/// vertical tab, form feed and carriage return.
pub open spec fn is_ascii_ws(c: char) -> bool {
    c == ' ' || c == '\t' || c == '\n' || c == '\r' || c == '\x0B' || c == '\x0C'
}

pub open spec fn ascii_lower_char(c: char) -> char {
    if is_ascii_upper(c) {
        ((c as u32) + 32) as char
    } else {
        c
    }
}

pub open spec fn ascii_lower(s: Seq<char>) -> Seq<char> {
    s.map_values(|c: char| ascii_lower_char(c))
}

pub open spec fn is_ascii_str(s: Seq<char>) -> bool {
    forall|i: int| 0 <= i < s.len() ==> is_ascii_char(#[trigger] s[i])
}

// ---------------------------------------------------------------------------
// Trusted wrappers around std.
// ---------------------------------------------------------------------------

/// Calls `char::is_whitespace`: whether the character has Unicode's
/// `White_Space` property, as `unicode_is_whitespace` lists it.
#[verifier::external_body]
pub(crate) fn char_is_whitespace(c: char) -> (b: bool)
    ensures
        b == unicode_is_whitespace(c),
        is_ascii_char(c) ==> (b <==> is_ascii_ws(c)),
{
    c.is_whitespace()
}

/// Calls `char::is_alphanumeric`. The contract names the result and states
/// that ASCII letters and digits, and no other ASCII character, qualify.
#[verifier::external_body]
pub(crate) fn char_is_alphanumeric(c: char) -> (b: bool)
    ensures
        b == unicode_is_alphanumeric(c),
        is_ascii_char(c) ==> (b <==> is_ascii_alnum(c)),
{
    c.is_alphanumeric()
}

/// Collects `char::to_lowercase`. The contract names the result and states
/// that an ASCII character lowers to the single ASCII lowercase character.
#[verifier::external_body]
pub(crate) fn char_to_lowercase(c: char) -> (v: Vec<char>)
    ensures
        v@ == unicode_char_lowercase(c),
        is_ascii_char(c) ==> v@ == seq![ascii_lower_char(c)],
{
    c.to_lowercase().collect()
}

/// Calls `str::to_lowercase` on the string made of `s`. The contract names the
/// result and states that an ASCII string lowers character by character.
#[verifier::external_body]
pub(crate) fn str_to_lowercase(s: &[char]) -> (v: Vec<char>)
    ensures
        v@ == unicode_str_lowercase(s@),
        is_ascii_str(s@) ==> v@ == ascii_lower(s@),
{
    let owned: String = s.iter().collect();
    owned.to_lowercase().chars().collect()
}

/// Builds a `String` from characters (std's `FromIterator<&char>` for `String`).
#[verifier::external_body]
pub(crate) fn string_from_chars(v: &[char]) -> (s: String)
    ensures
        s@ == v@,
{
    v.iter().collect()
}

// ---------------------------------------------------------------------------
// Verified conversions and helpers.
// ---------------------------------------------------------------------------

/// The characters of a string slice, as a vector.
pub fn chars_of(s: &str) -> (v: Vec<char>)
    ensures
        v@ == s@,
{
    let mut v: Vec<char> = Vec::new();
    for c in it: s.chars()
        invariant
            it.seq() == s@,
            v@ == it.seq().take(it.index() as int),
    {
        v.push(c);
    }
    v
}

/// ASCII lowercase of one character (`char::to_ascii_lowercase`).
pub fn ascii_lower_char_exec(c: char) -> (r: char)
    ensures
        r == ascii_lower_char(c),
{
    if 'A' <= c && c <= 'Z' {
        let b: u8 = c as u8;
        let r: char = (b + 32) as char;
        r
    } else {
        c
    }
}

/// ASCII lowercase of a string (`str::to_ascii_lowercase`).
pub fn to_ascii_lowercase(s: &[char]) -> (r: Vec<char>)
    ensures
        r@ == ascii_lower(s@),
{
    let mut r: Vec<char> = Vec::new();
    let mut i: usize = 0;
    while i < s.len()
        invariant
            i <= s@.len(),
            r@ == ascii_lower(s@.take(i as int)),
        decreases s@.len() - i,
    {
        let c = ascii_lower_char_exec(s[i]);
        r.push(c);
        assert(s@.take(i as int + 1) == s@.take(i as int).push(s@[i as int]));
        i = i + 1;
    }
    assert(s@.take(s@.len() as int) == s@);
    r
}

/// ASCII case-insensitive equality (`str::eq_ignore_ascii_case`).
pub fn eq_ignore_ascii_case(a: &[char], b: &[char]) -> (r: bool)
    ensures
        r == (ascii_lower(a@) == ascii_lower(b@)),
{
    if a.len() != b.len() {
        assert(ascii_lower(a@).len() != ascii_lower(b@).len());
        return false;
    }
    let mut i: usize = 0;
    while i < a.len()
        invariant
            a@.len() == b@.len(),
            i <= a@.len(),
            forall|j: int| 0 <= j < i ==> ascii_lower_char(a@[j]) == ascii_lower_char(b@[j]),
        decreases a@.len() - i,
    {
        if ascii_lower_char_exec(a[i]) != ascii_lower_char_exec(b[i]) {
            assert(ascii_lower(a@)[i as int] != ascii_lower(b@)[i as int]);
            return false;
        }
        i = i + 1;
    }
    assert(ascii_lower(a@) =~= ascii_lower(b@));
    true
}

// ---------------------------------------------------------------------------
// Searching.
// ---------------------------------------------------------------------------

/// `p` occurs in `s` at position `i`.
pub open spec fn occurs_at(s: Seq<char>, p: Seq<char>, i: int) -> bool {
    0 <= i && i + p.len() <= s.len() && s.subrange(i, i + p.len()) == p
}

/// `p` is a substring of `s` (`str::contains` with a string pattern).
pub open spec fn contains(s: Seq<char>, p: Seq<char>) -> bool {
    exists|i: int| occurs_at(s, p, i)
}

/// `s` begins with `p` (`str::starts_with`).
pub open spec fn starts_with(s: Seq<char>, p: Seq<char>) -> bool {
    p.len() <= s.len() && s.take(p.len() as int) == p
}

/// `s` ends with `p` (`str::ends_with`).
pub open spec fn ends_with(s: Seq<char>, p: Seq<char>) -> bool {
    p.len() <= s.len() && s.skip(s.len() - p.len()) == p
}

/// Whether `p` occurs in `s` at position `i`.
pub fn occurs_at_exec(s: &[char], p: &[char], i: usize) -> (r: bool)
    ensures
        r == occurs_at(s@, p@, i as int),
{
    if i > s.len() || p.len() > s.len() - i {
        return false;
    }
    let mut k: usize = 0;
    while k < p.len()
        invariant
            i + p@.len() <= s@.len(),
            s@.len() == s.len(),
            k <= p@.len(),
            forall|j: int| 0 <= j < k ==> s@[i + j] == p@[j],
        decreases p@.len() - k,
    {
        if s[i + k] != p[k] {
            assert(s@.subrange(i as int, i + p@.len())[k as int] != p@[k as int]);
            return false;
        }
        k = k + 1;
    }
    assert(s@.subrange(i as int, i + p@.len()) =~= p@);
    true
}

/// Equality of two character sequences.
pub fn chars_equal(a: &[char], b: &[char]) -> (r: bool)
    ensures
        r == (a@ == b@),
{
    let same = a.len() == b.len() && occurs_at_exec(a, b, 0);
    proof {
        if a@ == b@ {
            assert(a@.subrange(0, b@.len() as int) =~= b@);
        }
        if same {
            assert(a@.subrange(0, b@.len() as int) == a@);
        }
    }
    same
}

/// Equality of two strings.
pub fn str_equal(a: &str, b: &str) -> (r: bool)
    ensures
        r == (a@ == b@),
{
    let x = chars_of(a);
    let y = chars_of(b);
    chars_equal(&x, &y)
}

/// Substring test (`str::contains`).
pub fn contains_exec(s: &[char], p: &[char]) -> (r: bool)
    ensures
        r == contains(s@, p@),
{
    if p.len() > s.len() {
        assert forall|i: int| !occurs_at(s@, p@, i) by {}
        return false;
    }
    let last: usize = s.len() - p.len();
    let mut i: usize = 0;
    while i < last
        invariant
            p@.len() <= s@.len(),
            last == s@.len() - p@.len(),
            i <= last,
            forall|j: int| 0 <= j < i ==> !occurs_at(s@, p@, j),
        decreases last - i,
    {
        if occurs_at_exec(s, p, i) {
            return true;
        }
        i = i + 1;
    }
    let r = occurs_at_exec(s, p, last);
    assert(r ==> occurs_at(s@, p@, last as int));
    assert(!r ==> forall|j: int| !occurs_at(s@, p@, j)) by {
        if !r {
            assert forall|j: int| !occurs_at(s@, p@, j) by {
                if 0 <= j < i {
                }
            }
        }
    }
    r
}

/// Prefix test (`str::starts_with`).
pub fn starts_with_exec(s: &[char], p: &[char]) -> (r: bool)
    ensures
        r == starts_with(s@, p@),
{
    let r = occurs_at_exec(s, p, 0);
    proof {
        if p@.len() <= s@.len() {
            assert(s@.subrange(0, p@.len() as int) == s@.take(p@.len() as int));
        }
    }
    r
}

/// Suffix test (`str::ends_with`).
pub fn ends_with_exec(s: &[char], p: &[char]) -> (r: bool)
    ensures
        r == ends_with(s@, p@),
{
    if p.len() > s.len() {
        return false;
    }
    let r = occurs_at_exec(s, p, s.len() - p.len());
    proof {
        assert(s@.subrange(s@.len() - p@.len(), s@.len() as int) == s@.skip(s@.len() - p@.len()));
    }
    r
}

/// The sub-vector `s[lo..hi]`.
pub fn slice_chars(s: &[char], lo: usize, hi: usize) -> (r: Vec<char>)
    requires
        lo <= hi <= s@.len(),
    ensures
        r@ == s@.subrange(lo as int, hi as int),
{
    let mut r: Vec<char> = Vec::new();
    let mut i: usize = lo;
    while i < hi
        invariant
            lo <= i <= hi <= s@.len(),
            r@ == s@.subrange(lo as int, i as int),
        decreases hi - i,
    {
        r.push(s[i]);
        assert(s@.subrange(lo as int, i + 1) == s@.subrange(lo as int, i as int).push(s@[i as int]));
        i = i + 1;
    }
    r
}

// ---------------------------------------------------------------------------
// Trimming.
// ---------------------------------------------------------------------------

/// `s` without its leading whitespace (`str::trim_start`).
pub open spec fn trim_start(s: Seq<char>) -> Seq<char>
    decreases s.len(),
{
    if s.len() > 0 && unicode_is_whitespace(s[0]) {
        trim_start(s.drop_first())
    } else {
        s
    }
}

/// `s` without its trailing whitespace (`str::trim_end`).
pub open spec fn trim_end(s: Seq<char>) -> Seq<char>
    decreases s.len(),
{
    if s.len() > 0 && unicode_is_whitespace(s.last()) {
        trim_end(s.drop_last())
    } else {
        s
    }
}

/// `s` without leading and trailing whitespace (`str::trim`).
pub open spec fn trim(s: Seq<char>) -> Seq<char> {
    trim_end(trim_start(s))
}

/// Index of the first non-whitespace character at or after `from`.
fn skip_ws_forward(s: &[char], from: usize) -> (i: usize)
    requires
        from <= s@.len(),
    ensures
        from <= i <= s@.len(),
        trim_start(s@.skip(from as int)) == trim_start(s@.skip(i as int)),
        i < s@.len() ==> !unicode_is_whitespace(s@[i as int]),
{
    let mut i = from;
    while i < s.len() && char_is_whitespace(s[i])
        invariant
            from <= i <= s@.len(),
            trim_start(s@.skip(from as int)) == trim_start(s@.skip(i as int)),
        decreases s@.len() - i,
    {
        assert(s@.skip(i as int).drop_first() == s@.skip(i + 1));
        i = i + 1;
    }
    i
}

/// Trims whitespace at both ends (`str::trim`).
pub fn trim_exec(s: &[char]) -> (r: Vec<char>)
    ensures
        r@ == trim(s@),
{
    let start = skip_ws_forward(s, 0);
    assert(s@.skip(0) == s@);
    assert(trim_start(s@.skip(start as int)) == s@.skip(start as int));
    let mut end: usize = s.len();
    while end > start && char_is_whitespace(s[end - 1])
        invariant
            start <= end <= s@.len(),
            trim_end(s@.subrange(start as int, s@.len() as int)) == trim_end(
                s@.subrange(start as int, end as int),
            ),
        decreases end,
    {
        assert(s@.subrange(start as int, end as int).drop_last() == s@.subrange(
            start as int,
            end - 1,
        ));
        end = end - 1;
    }
    assert(s@.subrange(start as int, s@.len() as int) == s@.skip(start as int));
    let r = slice_chars(s, start, end);
    proof {
        let t = s@.subrange(start as int, end as int);
        if t.len() > 0 {
            assert(t.last() == s@[end - 1]);
        }
        assert(trim_end(t) == t);
    }
    r
}

// ---------------------------------------------------------------------------
// Splitting.
// ---------------------------------------------------------------------------

/// The views of a vector of character vectors.
pub open spec fn views(v: Seq<Vec<char>>) -> Seq<Seq<char>> {
    v.map_values(|t: Vec<char>| t@)
}

/// Whitespace-separated tokens of `s`, given the token `cur` read so far
/// (`str::split_whitespace`).
pub open spec fn split_ws_from(s: Seq<char>, cur: Seq<char>) -> Seq<Seq<char>>
    decreases s.len(),
{
    if s.len() == 0 {
        if cur.len() > 0 {
            seq![cur]
        } else {
            seq![]
        }
    } else if unicode_is_whitespace(s[0]) {
        (if cur.len() > 0 {
            seq![cur]
        } else {
            seq![]
        }) + split_ws_from(s.drop_first(), seq![])
    } else {
        split_ws_from(s.drop_first(), cur.push(s[0]))
    }
}

/// The maximal runs of non-whitespace characters of `s`, in order.
pub open spec fn split_ws(s: Seq<char>) -> Seq<Seq<char>> {
    split_ws_from(s, seq![])
}

proof fn lemma_views_push(v: Seq<Vec<char>>, t: Vec<char>)
    ensures
        views(v.push(t)) == views(v).push(t@),
{
    assert(views(v.push(t)) =~= views(v).push(t@));
}

/// Splits at runs of whitespace (`str::split_whitespace`).
pub fn split_whitespace(s: &[char]) -> (r: Vec<Vec<char>>)
    ensures
        views(r@) == split_ws(s@),
{
    let mut out: Vec<Vec<char>> = Vec::new();
    let mut cur: Vec<char> = Vec::new();
    let mut i: usize = 0;
    assert(s@.skip(0) == s@);
    while i < s.len()
        invariant
            i <= s@.len(),
            views(out@) + split_ws_from(s@.skip(i as int), cur@) == split_ws(s@),
        decreases s@.len() - i,
    {
        let c = s[i];
        assert(s@.skip(i as int).drop_first() == s@.skip(i + 1));
        assert(s@.skip(i as int)[0] == c);
        if char_is_whitespace(c) {
            if cur.len() > 0 {
                let ghost old_out = out@;
                let t = cur;
                proof {
                    lemma_views_push(old_out, t);
                }
                out.push(t);
                cur = Vec::new();
                assert(views(out@) + split_ws_from(s@.skip(i + 1), cur@) =~= views(old_out) + (seq![t@] + split_ws_from(s@.skip(i + 1), seq![])));
            } else {
                assert(cur@ =~= seq![]);
                assert(views(out@) + split_ws_from(s@.skip(i + 1), cur@) =~= views(out@) + (seq![] + split_ws_from(s@.skip(i + 1), seq![])));
            }
        } else {
            cur.push(c);
        }
        i = i + 1;
    }
    assert(s@.skip(i as int).len() == 0);
    if cur.len() > 0 {
        let ghost old_out = out@;
        proof {
            lemma_views_push(old_out, cur);
        }
        out.push(cur);
    } else {
        assert(views(out@) + seq![] =~= views(out@));
    }
    out
}

/// Pieces of `s` between occurrences of `sep`, given the piece `cur` read so
/// far (`str::split` with a `char` pattern).
pub open spec fn split_char_from(s: Seq<char>, sep: char, cur: Seq<char>) -> Seq<Seq<char>>
    decreases s.len(),
{
    if s.len() == 0 {
        seq![cur]
    } else if s[0] == sep {
        seq![cur] + split_char_from(s.drop_first(), sep, seq![])
    } else {
        split_char_from(s.drop_first(), sep, cur.push(s[0]))
    }
}

pub open spec fn split_char(s: Seq<char>, sep: char) -> Seq<Seq<char>> {
    split_char_from(s, sep, seq![])
}

/// Splits at each occurrence of `sep` (`str::split` with a `char`).
pub fn split_char_exec(s: &[char], sep: char) -> (r: Vec<Vec<char>>)
    ensures
        views(r@) == split_char(s@, sep),
{
    let mut out: Vec<Vec<char>> = Vec::new();
    let mut cur: Vec<char> = Vec::new();
    let mut i: usize = 0;
    assert(s@.skip(0) == s@);
    while i < s.len()
        invariant
            i <= s@.len(),
            views(out@) + split_char_from(s@.skip(i as int), sep, cur@) == split_char(s@, sep),
        decreases s@.len() - i,
    {
        let c = s[i];
        assert(s@.skip(i as int).drop_first() == s@.skip(i + 1));
        assert(s@.skip(i as int)[0] == c);
        if c == sep {
            let ghost old_out = out@;
            let t = cur;
            proof {
                lemma_views_push(old_out, t);
            }
            out.push(t);
            cur = Vec::new();
            assert(views(out@) + split_char_from(s@.skip(i + 1), sep, cur@) =~= views(old_out) + (seq![t@] + split_char_from(s@.skip(i + 1), sep, seq![])));
        } else {
            cur.push(c);
        }
        i = i + 1;
    }
    assert(s@.skip(i as int).len() == 0);
    let ghost old_out = out@;
    proof {
        lemma_views_push(old_out, cur);
    }
    out.push(cur);
    out
}

/// A line as `str::lines` yields it: a trailing carriage return of a
/// newline-terminated line is dropped.
pub open spec fn strip_cr(line: Seq<char>) -> Seq<char> {
    if line.len() > 0 && line.last() == '\r' {
        line.drop_last()
    } else {
        line
    }
}

/// Lines of `s` given the current partial line `cur` (`str::lines`): lines end
/// at `\n` or `\r\n`, and a final empty line is not yielded.
pub open spec fn lines_from(s: Seq<char>, cur: Seq<char>) -> Seq<Seq<char>>
    decreases s.len(),
{
    if s.len() == 0 {
        if cur.len() > 0 {
            seq![cur]
        } else {
            seq![]
        }
    } else if s[0] == '\n' {
        seq![strip_cr(cur)] + lines_from(s.drop_first(), seq![])
    } else {
        lines_from(s.drop_first(), cur.push(s[0]))
    }
}

pub open spec fn lines(s: Seq<char>) -> Seq<Seq<char>> {
    lines_from(s, seq![])
}

/// Splits into lines (`str::lines`).
pub fn lines_exec(s: &[char]) -> (r: Vec<Vec<char>>)
    ensures
        views(r@) == lines(s@),
{
    let mut out: Vec<Vec<char>> = Vec::new();
    let mut cur: Vec<char> = Vec::new();
    let mut i: usize = 0;
    assert(s@.skip(0) == s@);
    while i < s.len()
        invariant
            i <= s@.len(),
            views(out@) + lines_from(s@.skip(i as int), cur@) == lines(s@),
        decreases s@.len() - i,
    {
        let c = s[i];
        assert(s@.skip(i as int).drop_first() == s@.skip(i + 1));
        assert(s@.skip(i as int)[0] == c);
        if c == '\n' {
            let ghost old_out = out@;
            let ghost old_cur = cur@;
            if cur.len() > 0 && cur[cur.len() - 1] == '\r' {
                cur.pop();
            }
            assert(cur@ == strip_cr(old_cur));
            let t = cur;
            proof {
                lemma_views_push(old_out, t);
            }
            out.push(t);
            cur = Vec::new();
            assert(views(out@) + lines_from(s@.skip(i + 1), cur@) =~= views(old_out) + (seq![strip_cr(old_cur)] + lines_from(s@.skip(i + 1), seq![])));
        } else {
            cur.push(c);
        }
        i = i + 1;
    }
    assert(s@.skip(i as int).len() == 0);
    if cur.len() > 0 {
        let ghost old_out = out@;
        proof {
            lemma_views_push(old_out, cur);
        }
        out.push(cur);
    } else {
        assert(views(out@) + seq![] =~= views(out@));
    }
    out
}

// ---------------------------------------------------------------------------
// Building strings.
// ---------------------------------------------------------------------------

/// Appends characters.
pub fn push_chars(v: &mut Vec<char>, s: &[char])
    ensures
        final(v)@ == old(v)@ + s@,
{
    let ghost base = v@;
    let mut i: usize = 0;
    while i < s.len()
        invariant
            i <= s@.len(),
            v@ == base + s@.take(i as int),
        decreases s@.len() - i,
    {
        assert(s@.take(i + 1) == s@.take(i as int).push(s@[i as int]));
        v.push(s[i]);
        i = i + 1;
    }
    assert(s@.take(i as int) == s@);
}

/// Appends the characters of a string slice.
pub fn push_str(v: &mut Vec<char>, s: &str)
    ensures
        final(v)@ == old(v)@ + s@,
{
    let c = chars_of(s);
    push_chars(v, &c);
}

/// The strings of `list` joined by `sep` (`[String]::join`).
pub open spec fn join(list: Seq<Seq<char>>, sep: Seq<char>) -> Seq<char>
    decreases list.len(),
{
    if list.len() == 0 {
        seq![]
    } else if list.len() == 1 {
        list[0]
    } else {
        join(list.drop_last(), sep) + sep + list.last()
    }
}

/// The views of a vector of strings.
pub open spec fn str_views(v: Seq<String>) -> Seq<Seq<char>> {
    v.map_values(|s: String| s@)
}

/// Appends the strings of `list` joined by `sep`.
pub fn push_joined(v: &mut Vec<char>, list: &[String], sep: &str)
    ensures
        final(v)@ == old(v)@ + join(str_views(list@), sep@),
{
    let ghost base = v@;
    let ghost lv = str_views(list@);
    let mut i: usize = 0;
    while i < list.len()
        invariant
            i <= list@.len(),
            lv == str_views(list@),
            v@ == base + join(lv.take(i as int), sep@),
        decreases list@.len() - i,
    {
        let ghost before = v@;
        assert(lv.take(i + 1).drop_last() == lv.take(i as int));
        assert(lv.take(i + 1).last() == list@[i as int]@);
        if i > 0 {
            push_str(v, sep);
        } else {
            assert(lv.take(0) =~= Seq::<Seq<char>>::empty());
            assert(v@ =~= base);
        }
        push_str(v, list[i].as_str());
        proof {
            if i > 0 {
                assert(v@ =~= base + (join(lv.take(i as int), sep@) + sep@ + lv[i as int]));
            } else {
                assert(lv.take(1) =~= seq![lv[0]]);
                assert(v@ =~= base + lv[0]);
            }
        }
        i = i + 1;
    }
    assert(lv.take(i as int) == lv);
}

/// `"true"` or `"false"`, as `bool`'s `Display` prints it.
pub open spec fn bool_text(b: bool) -> Seq<char> {
    if b {
        "true"@
    } else {
        "false"@
    }
}

pub fn bool_str(b: bool) -> (r: &'static str)
    ensures
        r@ == bool_text(b),
{
    if b {
        "true"
    } else {
        "false"
    }
}

/// `s` with every occurrence of `pat` replaced by `rep`, scanning left to
/// right without overlaps (`str::replace`); `pat` is not empty.
pub open spec fn replace_all(s: Seq<char>, pat: Seq<char>, rep: Seq<char>) -> Seq<char>
    decreases s.len(),
{
    if s.len() == 0 || pat.len() == 0 {
        s
    } else if starts_with(s, pat) {
        rep + replace_all(s.skip(pat.len() as int), pat, rep)
    } else {
        seq![s[0]] + replace_all(s.drop_first(), pat, rep)
    }
}

/// Replaces every occurrence of `pat` by `rep` (`str::replace`).
pub fn replace_all_exec(s: &[char], pat: &[char], rep: &[char]) -> (r: Vec<char>)
    requires
        pat@.len() > 0,
    ensures
        r@ == replace_all(s@, pat@, rep@),
{
    let mut out: Vec<char> = Vec::new();
    let mut i: usize = 0;
    assert(s@.skip(0) =~= s@);
    while i < s.len()
        invariant
            i <= s@.len(),
            pat@.len() > 0,
            replace_all(s@, pat@, rep@) == out@ + replace_all(s@.skip(i as int), pat@, rep@),
        decreases s@.len() - i,
    {
        let ghost rest = s@.skip(i as int);
        if occurs_at_exec(s, pat, i) {
            assert(rest.take(pat@.len() as int) =~= s@.subrange(i as int, i + pat@.len()));
            assert(rest.skip(pat@.len() as int) =~= s@.skip(i + pat@.len()));
            let ghost before = out@;
            push_chars(&mut out, rep);
            assert(before + (rep@ + replace_all(s@.skip(i + pat@.len()), pat@, rep@)) =~= out@
                + replace_all(s@.skip(i + pat@.len()), pat@, rep@));
            i = i + pat.len();
        } else {
            proof {
                if starts_with(rest, pat@) {
                    assert(rest.take(pat@.len() as int) =~= s@.subrange(i as int, i + pat@.len()));
                }
            }
            assert(rest[0] == s@[i as int]);
            assert(rest.drop_first() =~= s@.skip(i + 1));
            let ghost before = out@;
            out.push(s[i]);
            assert(before + (seq![s@[i as int]] + replace_all(s@.skip(i + 1), pat@, rep@)) =~= out@
                + replace_all(s@.skip(i + 1), pat@, rep@));
            i = i + 1;
        }
    }
    assert(s@.skip(i as int) =~= seq![]);
    assert(out@ + seq![] =~= out@);
    out
}

} // verus!
