//! Platform directories (from the `dirs` crate) and path joining (std's `Path::join`).

use vstd::prelude::*;
use crate::text::{contains, ends_with, starts_with};

verus! {

/// A single plain path component that every platform appends as it is:
/// non-empty, not `.` or `..`, and free of separators, drive colons and `?`.
pub open spec fn plain_relative(part: Seq<char>) -> bool {
    &&& part.len() > 0
    &&& !(part.len() == 1 && part[0] == '.')
    &&& !(part.len() == 2 && part[0] == '.' && part[1] == '.')
    &&& forall|i: int|
        0 <= i < part.len() ==> #[trigger] part[i] != '/' && part[i] != '\\' && part[i] != ':'
            && part[i] != '?'
}

/// A path text without `?`, so not a Windows verbatim path (`\\?\...`),
/// whose components std rebuilds when it joins onto one.
pub open spec fn no_verbatim(s: Seq<char>) -> bool {
    forall|i: int| 0 <= i < s.len() ==> #[trigger] s[i] != '?'
}

/// A separator that joining may put between a base and a part: none (after
/// an empty base, a trailing separator or a bare drive), `/` or `\`.
pub open spec fn path_sep(sep: Seq<char>) -> bool {
    sep == Seq::<char>::empty() || sep == seq!['/'] || sep == seq!['\\']
}

/// `r` is `base` and then `part`, with a separator between them.
pub open spec fn joined(r: Seq<char>, base: Seq<char>, part: Seq<char>) -> bool {
    exists|sep: Seq<char>| #[trigger] path_sep(sep) && r == base + sep + part
}

/// Calls `std::path::Path::join`. For a plain single component `part` the
/// result ends with `part`; onto a base that is not verbatim, std appends
/// the part after the base's own text, with the platform's separator where
/// the base does not already end in one. Which separator is the platform's.
#[verifier::external_body]
pub(crate) fn path_join(base: &str, part: &str) -> (r: String)
    ensures
        plain_relative(part@) ==> ends_with(r@, part@),
        plain_relative(part@) && no_verbatim(base@) ==> joined(r@, base@, part@),
{
    std::path::Path::new(base).join(part).to_string_lossy().into_owned()
}

/// A join onto a base that is not verbatim begins with the base, ends with
/// the part and is again not verbatim.
pub proof fn lemma_joined(r: Seq<char>, base: Seq<char>, part: Seq<char>)
    requires
        joined(r, base, part),
        no_verbatim(base),
        plain_relative(part),
    ensures
        starts_with(r, base),
        ends_with(r, part),
        no_verbatim(r),
{
    let sep = choose|sep: Seq<char>| #[trigger] path_sep(sep) && r == base + sep + part;
    assert(r.take(base.len() as int) =~= base);
    assert(r.skip(r.len() - part.len()) =~= part);
    assert forall|i: int| 0 <= i < r.len() implies #[trigger] r[i] != '?' by {
        if i < base.len() {
            assert(r[i] == base[i]);
        } else if i < base.len() + sep.len() {
            assert(r[i] == sep[i - base.len()]);
        } else {
            assert(r[i] == part[i - base.len() - sep.len()]);
        }
    }
}

/// `r` is `base` joined with `p1` and then `p2`.
pub open spec fn joined2(r: Seq<char>, base: Seq<char>, p1: Seq<char>, p2: Seq<char>) -> bool {
    exists|a: Seq<char>| #[trigger] joined(a, base, p1) && joined(r, a, p2)
}

/// `r` is `base` joined with `p1`, `p2` and then `p3`.
pub open spec fn joined3(
    r: Seq<char>,
    base: Seq<char>,
    p1: Seq<char>,
    p2: Seq<char>,
    p3: Seq<char>,
) -> bool {
    exists|b: Seq<char>| #[trigger] joined2(b, base, p1, p2) && joined(r, b, p3)
}

/// Two joins onto a base that is not verbatim.
pub proof fn lemma_joined2(r: Seq<char>, a: Seq<char>, base: Seq<char>, p1: Seq<char>, p2: Seq<char>)
    requires
        joined(a, base, p1),
        no_verbatim(a) ==> joined(r, a, p2),
        no_verbatim(base),
        plain_relative(p1),
        plain_relative(p2),
    ensures
        joined2(r, base, p1, p2),
        starts_with(r, base),
        ends_with(r, p2),
        no_verbatim(r),
{
    lemma_joined(a, base, p1);
    lemma_joined(r, a, p2);
    assert(r.take(base.len() as int) =~= a.take(base.len() as int));
}

/// Three joins onto a base that is not verbatim.
pub proof fn lemma_joined3(
    r: Seq<char>,
    b: Seq<char>,
    a: Seq<char>,
    base: Seq<char>,
    p1: Seq<char>,
    p2: Seq<char>,
    p3: Seq<char>,
)
    requires
        joined(a, base, p1),
        no_verbatim(a) ==> joined(b, a, p2),
        no_verbatim(b) ==> joined(r, b, p3),
        no_verbatim(base),
        plain_relative(p1),
        plain_relative(p2),
        plain_relative(p3),
    ensures
        joined3(r, base, p1, p2, p3),
        starts_with(r, base),
        ends_with(r, p3),
        no_verbatim(r),
{
    lemma_joined2(b, a, base, p1, p2);
    lemma_joined(r, b, p3);
    assert(r.take(base.len() as int) =~= b.take(base.len() as int));
}

/// A leading piece of a text without `?` has none either.
pub proof fn lemma_prefix_no_verbatim(s: Seq<char>, p: Seq<char>)
    requires
        starts_with(s, p),
        no_verbatim(s),
    ensures
        no_verbatim(p),
{
    assert forall|i: int| 0 <= i < p.len() implies #[trigger] p[i] != '?' by {
        assert(p[i] == s.take(p.len() as int)[i]);
    }
}

/// Calls `dirs::document_dir`: the user's documents folder, if the platform
/// has one. It depends on the environment, so nothing is stated of it.
#[verifier::external_body]
pub(crate) fn document_dir() -> (r: Option<String>) {
    dirs::document_dir().map(|p| p.to_string_lossy().into_owned())
}

/// Calls `dirs::config_dir`: the user's configuration folder, if any. It
/// depends on the environment, so nothing is stated of it.
#[verifier::external_body]
pub(crate) fn config_dir() -> (r: Option<String>) {
    dirs::config_dir().map(|p| p.to_string_lossy().into_owned())
}

/// Calls `dirs::data_local_dir`: the user's local application-data folder,
/// if the platform has one. It depends on the environment, so nothing is
/// stated of it.
#[verifier::external_body]
pub(crate) fn data_local_dir() -> (r: Option<String>) {
    dirs::data_local_dir().map(|p| p.to_string_lossy().into_owned())
}

/// A single path component that every platform reads as a file name: not
/// empty, not `.` or `..`, and without separators or drive colons.
pub open spec fn plain_file_name(s: Seq<char>) -> bool {
    &&& s.len() > 0
    &&& s != "."@
    &&& s != ".."@
    &&& forall|i: int| 0 <= i < s.len() ==> #[trigger] s[i] != '/' && s[i] != '\\' && s[i] != ':'
}

/// Whether `c` separates path components on some platform.
pub open spec fn is_path_sep(c: char) -> bool {
    c == '/' || c == '\\'
}

/// A path text that no platform reads as a network or device path: it does
/// not begin with two separators, and holds no `?`.
pub open spec fn local_path_text(s: Seq<char>) -> bool {
    &&& no_verbatim(s)
    &&& !(s.len() >= 2 && is_path_sep(s[0]) && is_path_sep(s[1]))
}

/// Calls `Path::file_name` (on `Path::new(s)`): the final normal component, if
/// any. Which characters separate components depends on the platform: `/`
/// everywhere, `\` on Windows. The contract states that the name is a
/// non-empty piece of the path's text; that a plain single component is its
/// own file name; that a local path `p/n` with a plain last component `n`
/// has the file name `n` on every platform; and that for `p\n` the name
/// ends with `n` (it is `n` on Windows, the whole last `/`-component
/// elsewhere).
#[verifier::external_body]
pub(crate) fn path_file_name(s: &str) -> (r: Option<String>)
    ensures
        r is Some ==> r->0@.len() > 0 && contains(s@, r->0@),
        plain_file_name(s@) ==> r is Some && r->0@ == s@,
        forall|p: Seq<char>, n: Seq<char>|
            #![trigger p + seq!['/'] + n]
            s@ == p + seq!['/'] + n && plain_file_name(n) && local_path_text(s@) ==> r is Some
                && r->0@ == n,
        forall|p: Seq<char>, n: Seq<char>|
            #![trigger p + seq!['\\'] + n]
            s@ == p + seq!['\\'] + n && plain_file_name(n) && local_path_text(s@) ==> r is Some
                && ends_with(r->0@, n),
{
    std::path::Path::new(s).file_name().map(|n| n.to_string_lossy().into_owned())
}

/// The text after the last `/` or `\\` of `s` (all of `s` without one).
pub open spec fn last_component(s: Seq<char>) -> Seq<char>
    decreases s.len(),
{
    if s.len() == 0 {
        s
    } else if is_path_sep(s.last()) {
        Seq::empty()
    } else {
        last_component(s.drop_last()).push(s.last())
    }
}

/// Calls `Path::parent` (on `Path::new(s)`): the path without its final
/// component, or none where the path ends in a root or prefix, or is empty.
/// The contract states that a parent is a shorter leading piece of the
/// path's text, and that a local path `p/n`, with `n` a plain file name and
/// `p` ending in a plain component, has the parent `p` on every platform;
/// where components split otherwise depends on the platform and is left
/// unstated.
#[verifier::external_body]
pub(crate) fn path_parent(s: &str) -> (r: Option<String>)
    ensures
        s@.len() == 0 ==> r is None,
        r matches Some(p) ==> starts_with(s@, p@) && p@.len() < s@.len(),
        forall|p: Seq<char>, n: Seq<char>|
            #![trigger p + seq!['/'] + n]
            s@ == p + seq!['/'] + n && plain_file_name(n) && local_path_text(s@) && plain_file_name(
                last_component(p),
            ) ==> r is Some && r->0@ == p,
{
    std::path::Path::new(s).parent().map(|p| p.to_string_lossy().into_owned())
}

/// Calls `Path::exists`: whether the path names an existing file or
/// directory at the moment of the call. The answer depends on the disk, so
/// nothing is stated of it.
#[verifier::external_body]
pub(crate) fn path_exists(path: &str) -> (r: bool) {
    std::path::Path::new(path).exists()
}

/// Calls `Path::eq` on `Path::new(a)` and `Path::new(b)`, which compares
/// paths component by component. Equal texts give equal paths; which other
/// texts compare equal depends on the platform and is left unstated.
#[verifier::external_body]
pub(crate) fn paths_equal(a: &str, b: &str) -> (r: bool)
    ensures
        a@ == b@ ==> r,
{
    std::path::Path::new(a) == std::path::Path::new(b)
}

/// A prefix of a prefix is a prefix.
pub proof fn lemma_starts_with_trans(a: Seq<char>, b: Seq<char>, c: Seq<char>)
    requires
        starts_with(a, b),
        starts_with(b, c),
    ensures
        starts_with(a, c),
{
    assert(a.take(c.len() as int) =~= b.take(c.len() as int));
}

/// A plain component followed by a suffix of at least two characters that
/// holds no separator, colon or `?` is still plain.
pub proof fn lemma_plain_with_suffix(id: Seq<char>, ext: Seq<char>)
    requires
        plain_relative(id),
        ext.len() >= 2,
        forall|i: int|
            0 <= i < ext.len() ==> #[trigger] ext[i] != ':' && ext[i] != '/' && ext[i] != '\\'
                && ext[i] != '?',
    ensures
        plain_relative(id + ext),
{
    assert((id + ext).len() >= 3);
    assert forall|i: int| 0 <= i < (id + ext).len() implies #[trigger] (id + ext)[i] != ':' && (id
        + ext)[i] != '/' && (id + ext)[i] != '\\' && (id + ext)[i] != '?' by {
        if i < id.len() {
            assert((id + ext)[i] == id[i]);
        } else {
            assert((id + ext)[i] == ext[i - id.len()]);
        }
    }
}

/// The text after the last `/` of `s`, where it holds one.
pub open spec fn after_last_slash(s: Seq<char>) -> Option<Seq<char>>
    decreases s.len(),
{
    if s.len() == 0 {
        None
    } else if s.last() == '/' {
        Some(Seq::empty())
    } else {
        match after_last_slash(s.drop_last()) {
            Some(t) => Some(t.push(s.last())),
            None => None,
        }
    }
}

/// The text after the last `/` is what follows some `/` in `s`.
pub proof fn lemma_after_last_slash(s: Seq<char>)
    requires
        after_last_slash(s) is Some,
    ensures
        ({
            let n = after_last_slash(s)->0;
            &&& n.len() < s.len()
            &&& s == s.take(s.len() - n.len() - 1) + seq!['/'] + n
        }),
    decreases s.len(),
{
    if s.last() == '/' {
        assert(s =~= s.take(s.len() - 1) + seq!['/'] + Seq::<char>::empty());
    } else {
        lemma_after_last_slash(s.drop_last());
        let t = after_last_slash(s.drop_last())->0;
        let d = s.drop_last();
        assert(d == d.take(d.len() - t.len() - 1) + seq!['/'] + t);
        let a = d.take(d.len() - t.len() - 1);
        assert(s.take(s.len() - t.len() - 2) =~= a);
        assert(s =~= d.push(s.last()));
        assert(d.push(s.last()) =~= a + seq!['/'] + t.push(s.last()));
        assert(s.len() - t.push(s.last()).len() - 1 == s.len() - t.len() - 2);
    }
}

} // verus!
