//! Reading values out of `reg query` output (Windows probes): display
//! adapter names, the processor name and its clock.

use vstd::prelude::*;
use crate::hardware::{build_gpu_chars, GpuInfo};
use crate::probe::{concat_map_lines, gpus_built, lemma_concat_map_step, lemma_gpus_built_push};
use crate::text::{
    chars_of, contains, contains_exec, lines, lines_exec, occurs_at, occurs_at_exec, slice_chars,
    starts_with, string_from_chars, trim, trim_exec, views,
};

verus! {

/// The first position at or after `i` where `p` occurs in `s`.
pub open spec fn find_from(s: Seq<char>, p: Seq<char>, i: int) -> Option<int>
    decreases s.len() - i,
{
    if i < 0 || i > s.len() {
        None
    } else if occurs_at(s, p, i) {
        Some(i)
    } else if i == s.len() {
        None
    } else {
        find_from(s, p, i + 1)
    }
}

/// The second piece of `s` split at `p` (`s.split(p).nth(1)`): the text
/// between the first occurrence of `p` and the next one (or the end).
pub open spec fn second_piece(s: Seq<char>, p: Seq<char>) -> Option<Seq<char>> {
    match find_from(s, p, 0) {
        None => None,
        Some(i) => {
            let start = i + p.len();
            match find_from(s, p, start) {
                None => Some(s.subrange(start, s.len() as int)),
                Some(j) => Some(s.subrange(start, j)),
            }
        },
    }
}

proof fn lemma_find_from_range(s: Seq<char>, p: Seq<char>, i: int)
    ensures
        find_from(s, p, i) matches Some(j) ==> i <= j && occurs_at(s, p, j) && j + p.len()
            <= s.len(),
    decreases s.len() - i,
{
    if 0 <= i < s.len() && !occurs_at(s, p, i) {
        lemma_find_from_range(s, p, i + 1);
    }
}

fn find_from_exec(s: &[char], p: &[char], i: usize) -> (r: Option<usize>)
    ensures
        match r {
            Some(j) => find_from(s@, p@, i as int) == Some(j as int),
            None => find_from(s@, p@, i as int) is None,
        },
{
    if i > s.len() {
        return None;
    }
    let mut k: usize = i;
    while k <= s.len()
        invariant
            i <= k,
            k <= s@.len() + 1,
            find_from(s@, p@, i as int) == find_from(s@, p@, k as int),
        decreases s@.len() + 1 - k,
    {
        if occurs_at_exec(s, p, k) {
            return Some(k);
        }
        if k == s.len() {
            return None;
        }
        k = k + 1;
    }
    None
}

fn second_piece_exec(s: &[char], p: &[char]) -> (r: Option<Vec<char>>)
    ensures
        match r {
            Some(v) => second_piece(s@, p@) == Some(v@),
            None => second_piece(s@, p@) is None,
        },
{
    match find_from_exec(s, p, 0) {
        None => None,
        Some(i) => {
            proof {
                lemma_find_from_range(s@, p@, 0);
                assert(i + p@.len() <= s@.len());
            }
            let slen = s.len();
            let plen = p.len();
            assert(i + plen <= slen);
            let start = i + plen;
            match find_from_exec(s, p, start) {
                None => Some(slice_chars(s, start, s.len())),
                Some(j) => {
                    proof {
                        lemma_find_from_range(s@, p@, start as int);
                    }
                    Some(slice_chars(s, start, j))
                },
            }
        },
    }
}

/// The trimmed, non-blank value after `marker` on a line that mentions `key`.
pub open spec fn reg_value(line: Seq<char>, key: Seq<char>, marker: Seq<char>) -> Option<Seq<char>> {
    if contains(line, key) {
        match second_piece(line, marker) {
            Some(v) => if trim(v).len() > 0 {
                Some(trim(v))
            } else {
                None
            },
            None => None,
        }
    } else {
        None
    }
}

fn reg_value_exec(line: &[char], key: &[char], marker: &[char]) -> (r: Option<Vec<char>>)
    ensures
        match r {
            Some(v) => reg_value(line@, key@, marker@) == Some(v@),
            None => reg_value(line@, key@, marker@) is None,
        },
{
    if !contains_exec(line, key) {
        return None;
    }
    match second_piece_exec(line, marker) {
        Some(v) => {
            let t = trim_exec(&v);
            if t.len() > 0 {
                Some(t)
            } else {
                None
            }
        },
        None => None,
    }
}

/// A `DriverDesc ... REG_SZ <name>` line names a display adapter.
pub open spec fn driver_line_entry(line: Seq<char>) -> Seq<(Seq<char>, u64)> {
    match reg_value(line, "DriverDesc"@, "REG_SZ"@) {
        Some(name) => seq![(name, 0u64)],
        None => seq![],
    }
}

pub open spec fn driver_entries(raw: Seq<char>) -> Seq<(Seq<char>, u64)> {
    concat_map_lines(lines(raw), |l: Seq<char>| driver_line_entry(l))
}

/// The display adapters listed by
/// `reg query HKLM\SYSTEM\CurrentControlSet\Control\Video /s /v DriverDesc`.
pub fn parse_reg_display_adapters(raw: &str) -> (r: Vec<GpuInfo>)
    ensures
        gpus_built(r@, driver_entries(raw@)),
{
    let chars = chars_of(raw);
    let ls = lines_exec(&chars);
    let key = chars_of("DriverDesc");
    let marker = chars_of("REG_SZ");
    let ghost f = |l: Seq<char>| driver_line_entry(l);
    let ghost lv = views(ls@);
    let mut out: Vec<GpuInfo> = Vec::new();
    let mut i: usize = 0;
    while i < ls.len()
        invariant
            i <= ls@.len(),
            lv == views(ls@),
            lv == lines(raw@),
            key@ == "DriverDesc"@,
            marker@ == "REG_SZ"@,
            forall|l: Seq<char>| #[trigger] f(l) == driver_line_entry(l),
            gpus_built(out@, concat_map_lines(lv.take(i as int), f)),
        decreases ls@.len() - i,
    {
        proof {
            lemma_concat_map_step(lv, f, i as int);
        }
        assert(ls@[i as int]@ == lv[i as int]);
        match reg_value_exec(&ls[i], &key, &marker) {
            Some(name) => {
                let g = build_gpu_chars(&name, 0);
                proof {
                    lemma_gpus_built_push(out@, concat_map_lines(lv.take(i as int), f), g, name@, 0);
                }
                out.push(g);
            },
            None => {
                assert(f(lv[i as int]) =~= seq![]);
            },
        }
        i = i + 1;
    }
    assert(lv.take(i as int) == lv);
    out
}

/// The first value that a line mentioning `key` gives, scanning lines from
/// position `i`.
pub open spec fn first_reg_value(ls: Seq<Seq<char>>, key: Seq<char>, marker: Seq<char>, i: int) -> Option<
    Seq<char>,
>
    decreases ls.len() - i,
{
    if i < 0 || i >= ls.len() {
        None
    } else {
        match reg_value(ls[i], key, marker) {
            Some(v) => Some(v),
            None => first_reg_value(ls, key, marker, i + 1),
        }
    }
}

/// The processor name from
/// `reg query HKLM\HARDWARE\DESCRIPTION\System\CentralProcessor\0 /v ProcessorNameString`.
pub fn parse_reg_processor_name(raw: &str) -> (r: Option<String>)
    ensures
        match r {
            Some(s) => first_reg_value(lines(raw@), "ProcessorNameString"@, "REG_SZ"@, 0) == Some(s@),
            None => first_reg_value(lines(raw@), "ProcessorNameString"@, "REG_SZ"@, 0) is None,
        },
{
    let chars = chars_of(raw);
    let ls = lines_exec(&chars);
    let key = chars_of("ProcessorNameString");
    let marker = chars_of("REG_SZ");
    let ghost lv = views(ls@);
    let mut i: usize = 0;
    while i < ls.len()
        invariant
            i <= ls@.len(),
            lv == views(ls@),
            lv == lines(raw@),
            key@ == "ProcessorNameString"@,
            marker@ == "REG_SZ"@,
            first_reg_value(lv, key@, marker@, 0) == first_reg_value(lv, key@, marker@, i as int),
        decreases ls@.len() - i,
    {
        assert(ls@[i as int]@ == lv[i as int]);
        match reg_value_exec(&ls[i], &key, &marker) {
            Some(v) => {
                return Some(string_from_chars(&v));
            },
            None => {},
        }
        i = i + 1;
    }
    None
}

// ---------------------------------------------------------------------------
// Hexadecimal clock values.
// ---------------------------------------------------------------------------

/// `s` without every leading `0x` (`str::trim_start_matches("0x")`).
pub open spec fn strip_hex_prefixes(s: Seq<char>) -> Seq<char>
    decreases s.len(),
{
    if starts_with(s, "0x"@) && s.len() >= 2 {
        strip_hex_prefixes(s.skip(2))
    } else {
        s
    }
}

pub open spec fn hex_digit_value(c: char) -> Option<nat> {
    if '0' <= c && c <= '9' {
        Some((c as nat - '0' as nat) as nat)
    } else if 'a' <= c && c <= 'f' {
        Some((c as nat - 'a' as nat + 10) as nat)
    } else if 'A' <= c && c <= 'F' {
        Some((c as nat - 'A' as nat + 10) as nat)
    } else {
        None
    }
}

/// The value of hexadecimal digits, if every character is one.
pub open spec fn hex_value(s: Seq<char>) -> Option<nat>
    decreases s.len(),
{
    if s.len() == 0 {
        Some(0)
    } else {
        match (hex_value(s.drop_last()), hex_digit_value(s.last())) {
            (Some(v), Some(d)) => Some(v * 16 + d),
            _ => None,
        }
    }
}

/// What `u32::from_str_radix(s, 16)` returns: an optional `+` and at least
/// one hexadecimal digit, with a value that fits in a `u32`.
pub open spec fn parse_hex_u32_spec(s: Seq<char>) -> Option<u32> {
    let d = if s.len() > 0 && s[0] == '+' {
        s.drop_first()
    } else {
        s
    };
    if d.len() > 0 {
        match hex_value(d) {
            Some(v) => if v <= u32::MAX {
                Some(v as u32)
            } else {
                None
            },
            None => None,
        }
    } else {
        None
    }
}

fn hex_digit_exec(c: char) -> (r: Option<u64>)
    ensures
        match r {
            Some(d) => hex_digit_value(c) == Some(d as nat) && d < 16,
            None => hex_digit_value(c) is None,
        },
{
    if '0' <= c && c <= '9' {
        Some((c as u32 - '0' as u32) as u64)
    } else if 'a' <= c && c <= 'f' {
        Some((c as u32 - 'a' as u32 + 10) as u64)
    } else if 'A' <= c && c <= 'F' {
        Some((c as u32 - 'A' as u32 + 10) as u64)
    } else {
        None
    }
}

proof fn lemma_hex_value_prefix_bound(s: Seq<char>, k: int)
    requires
        0 <= k <= s.len(),
        hex_value(s) is Some,
    ensures
        hex_value(s.take(k)) is Some,
        hex_value(s.take(k))->0 <= hex_value(s)->0,
    decreases s.len(),
{
    if k < s.len() {
        assert(s.drop_last().take(k) =~= s.take(k));
        lemma_hex_value_prefix_bound(s.drop_last(), k);
    } else {
        assert(s.take(k) =~= s);
    }
}

/// Parses a hexadecimal `u32` (`u32::from_str_radix(s, 16)`).
pub fn parse_hex_u32(s: &[char]) -> (r: Option<u32>)
    ensures
        r == parse_hex_u32_spec(s@),
{
    let start: usize = if s.len() > 0 && s[0] == '+' {
        1
    } else {
        0
    };
    let ghost d = if s@.len() > 0 && s@[0] == '+' {
        s@.drop_first()
    } else {
        s@
    };
    assert(d =~= s@.skip(start as int));
    if start >= s.len() {
        return None;
    }
    let mut acc: u64 = 0;
    let mut i: usize = start;
    assert(s@.subrange(start as int, start as int) =~= seq![]);
    while i < s.len()
        invariant
            start <= i <= s@.len(),
            d =~= s@.skip(start as int),
            d == (if s@.len() > 0 && s@[0] == '+' {
                s@.drop_first()
            } else {
                s@
            }),
            hex_value(s@.subrange(start as int, i as int)) == Some(acc as nat),
            acc <= u32::MAX,
        decreases s@.len() - i,
    {
        let ghost pre = s@.subrange(start as int, i as int);
        let ghost ext = s@.subrange(start as int, i + 1);
        assert(ext.drop_last() =~= pre);
        assert(ext.last() == s@[i as int]);
        match hex_digit_exec(s[i]) {
            Some(dv) => {
                let next = acc * 16 + dv;
                if next > 4294967295 {
                    proof {
                        assert(hex_value(ext) == Some(next as nat));
                        if hex_value(d) is Some {
                            assert(ext =~= d.take(i + 1 - start));
                            lemma_hex_value_prefix_bound(d, i + 1 - start);
                            assert(hex_value(d)->0 > u32::MAX);
                        }
                        assert(d.len() > 0);
                        assert(parse_hex_u32_spec(s@) is None);
                    }
                    return None;
                }
                acc = next;
            },
            None => {
                proof {
                    assert(hex_value(ext) is None);
                    if hex_value(d) is Some {
                        assert(ext =~= d.take(i + 1 - start));
                        lemma_hex_value_prefix_bound(d, i + 1 - start);
                    }
                    assert(parse_hex_u32_spec(s@) is None);
                }
                return None;
            },
        }
        i = i + 1;
    }
    assert(s@.subrange(start as int, i as int) =~= d);
    Some(acc as u32)
}

fn strip_hex_prefixes_exec(s: &[char]) -> (r: Vec<char>)
    ensures
        r@ == strip_hex_prefixes(s@),
{
    proof {
        reveal_strlit("0x");
    }
    let px = chars_of("0x");
    let mut i: usize = 0;
    assert(s@.skip(0) =~= s@);
    while s.len() - i >= 2 && crate::text::occurs_at_exec(s, &px, i)
        invariant
            i <= s@.len(),
            px@ == "0x"@,
            strip_hex_prefixes(s@) == strip_hex_prefixes(s@.skip(i as int)),
        decreases s@.len() - i,
    {
        proof {
            reveal_strlit("0x");
        }
        assert(s@.skip(i as int).take(2) =~= s@.subrange(i as int, i + 2));
        assert(s@.skip(i as int).skip(2) =~= s@.skip(i + 2));
        i = i + 2;
    }
    proof {
        reveal_strlit("0x");
        let t = s@.skip(i as int);
        if starts_with(t, "0x"@) && t.len() >= 2 {
            assert(t.take(2) =~= s@.subrange(i as int, i + 2));
        }
    }
    slice_chars(s, i, s.len())
}

/// A `~MHz ... REG_DWORD 0x<hex>` line gives a clock in MHz.
pub open spec fn mhz_line_value(line: Seq<char>) -> Option<u32> {
    if contains(line, "~MHz"@) {
        match second_piece(line, "REG_DWORD"@) {
            Some(v) => parse_hex_u32_spec(strip_hex_prefixes(trim(v))),
            None => None,
        }
    } else {
        None
    }
}

pub open spec fn first_mhz(ls: Seq<Seq<char>>, i: int) -> Option<u32>
    decreases ls.len() - i,
{
    if i < 0 || i >= ls.len() {
        None
    } else {
        match mhz_line_value(ls[i]) {
            Some(v) => Some(v),
            None => first_mhz(ls, i + 1),
        }
    }
}

/// The processor clock from
/// `reg query HKLM\HARDWARE\DESCRIPTION\System\CentralProcessor\0 /v ~MHz`.
pub fn parse_reg_cpu_mhz(raw: &str) -> (r: Option<u32>)
    ensures
        r == first_mhz(lines(raw@), 0),
{
    let chars = chars_of(raw);
    let ls = lines_exec(&chars);
    let key = chars_of("~MHz");
    let marker = chars_of("REG_DWORD");
    let ghost lv = views(ls@);
    let mut i: usize = 0;
    while i < ls.len()
        invariant
            i <= ls@.len(),
            lv == views(ls@),
            lv == lines(raw@),
            key@ == "~MHz"@,
            marker@ == "REG_DWORD"@,
            first_mhz(lv, 0) == first_mhz(lv, i as int),
        decreases ls@.len() - i,
    {
        assert(ls@[i as int]@ == lv[i as int]);
        if contains_exec(&ls[i], &key) {
            match second_piece_exec(&ls[i], &marker) {
                Some(v) => {
                    let t = trim_exec(&v);
                    let h = strip_hex_prefixes_exec(&t);
                    match parse_hex_u32(&h) {
                        Some(mhz) => {
                            return Some(mhz);
                        },
                        None => {},
                    }
                },
                None => {},
            }
        }
        i = i + 1;
    }
    None
}

} // verus!
