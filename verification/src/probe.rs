//! Parsers for the text that hardware probes print (`nvidia-smi`,
//! `system_profiler`, `lspci`, `lshw`, `vm_stat`).

use vstd::prelude::*;
use crate::hardware::{build_gpu_chars, gpu_built, GpuInfo};
use crate::num::{parse_u64, parse_u64_spec};
use crate::size::{parse_size_to_mb, size_to_mb};
use crate::order::{dedup_ascii, dedup_positions, sorted_positions, stable_order};
use crate::text::{
    chars_of, is_ascii_digit, lines, lines_exec, slice_chars, split_char, split_char_exec,
    starts_with, starts_with_exec, trim, trim_exec, views,
};

verus! {

/// The GPU records `gs` are those that `build_gpu` makes for `entries`
/// (name, VRAM in MiB), in order.
pub open spec fn gpus_built(gs: Seq<GpuInfo>, entries: Seq<(Seq<char>, u64)>) -> bool {
    &&& gs.len() == entries.len()
    &&& forall|i: int| 0 <= i < gs.len() ==> gpu_built(#[trigger] gs[i], entries[i].0, entries[i].1)
}

/// The entries found in each line, concatenated in line order.
pub open spec fn concat_map_lines(
    ls: Seq<Seq<char>>,
    f: spec_fn(Seq<char>) -> Seq<(Seq<char>, u64)>,
) -> Seq<(Seq<char>, u64)>
    decreases ls.len(),
{
    if ls.len() == 0 {
        seq![]
    } else {
        concat_map_lines(ls.drop_last(), f) + f(ls.last())
    }
}

pub proof fn lemma_concat_map_step(
    ls: Seq<Seq<char>>,
    f: spec_fn(Seq<char>) -> Seq<(Seq<char>, u64)>,
    i: int,
)
    requires
        0 <= i < ls.len(),
    ensures
        concat_map_lines(ls.take(i + 1), f) == concat_map_lines(ls.take(i), f) + f(ls[i]),
{
    assert(ls.take(i + 1).drop_last() == ls.take(i));
    assert(ls.take(i + 1).last() == ls[i]);
}

pub proof fn lemma_gpus_built_push(
    gs: Seq<GpuInfo>,
    entries: Seq<(Seq<char>, u64)>,
    g: GpuInfo,
    name: Seq<char>,
    vram: u64,
)
    requires
        gpus_built(gs, entries),
        gpu_built(g, name, vram),
    ensures
        gpus_built(gs.push(g), entries + seq![(name, vram)]),
{
    let e2 = entries + seq![(name, vram)];
    assert forall|i: int| 0 <= i < gs.push(g).len() implies gpu_built(
        #[trigger] gs.push(g)[i],
        e2[i].0,
        e2[i].1,
    ) by {
        if i < gs.len() {
            assert(gs.push(g)[i] == gs[i]);
            assert(e2[i] == entries[i]);
        }
    }
}

// ---------------------------------------------------------------------------
// nvidia-smi CSV: "name, memory.total" per line.
// ---------------------------------------------------------------------------

/// The entry that one `nvidia-smi` CSV line gives: a line with at least two
/// comma-separated fields and a non-blank first field names a GPU; the second
/// field is its VRAM in MiB, 0 when it is not a number.
pub open spec fn nvidia_line_entry(line: Seq<char>) -> Seq<(Seq<char>, u64)> {
    let parts = split_char(line, ',');
    if parts.len() >= 2 && trim(parts[0]).len() > 0 {
        seq![
            (trim(parts[0]), match parse_u64_spec(trim(parts[1])) {
                Some(v) => v,
                None => 0,
            }),
        ]
    } else {
        seq![]
    }
}

pub open spec fn nvidia_entries(raw: Seq<char>) -> Seq<(Seq<char>, u64)> {
    concat_map_lines(lines(raw), |l: Seq<char>| nvidia_line_entry(l))
}

/// Parses `nvidia-smi --query-gpu=name,memory.total --format=csv,noheader,nounits`.
pub fn parse_nvidia_smi_csv(raw: &str) -> (r: Vec<GpuInfo>)
    ensures
        gpus_built(r@, nvidia_entries(raw@)),
{
    let chars = chars_of(raw);
    let ls = lines_exec(&chars);
    let ghost f = |l: Seq<char>| nvidia_line_entry(l);
    let ghost lv = views(ls@);
    let mut out: Vec<GpuInfo> = Vec::new();
    let mut i: usize = 0;
    while i < ls.len()
        invariant
            i <= ls@.len(),
            lv == views(ls@),
            lv == lines(raw@),
            forall|l: Seq<char>| #[trigger] f(l) == nvidia_line_entry(l),
            gpus_built(out@, concat_map_lines(lv.take(i as int), f)),
        decreases ls@.len() - i,
    {
        proof {
            lemma_concat_map_step(lv, f, i as int);
        }
        let line = &ls[i];
        assert(line@ == lv[i as int]);
        let parts = split_char_exec(line, ',');
        assert(views(parts@) == split_char(line@, ','));
        if parts.len() >= 2 {
            assert(parts@[0]@ == views(parts@)[0]);
            assert(parts@[1]@ == views(parts@)[1]);
            let name = trim_exec(&parts[0]);
            if name.len() > 0 {
                let field = trim_exec(&parts[1]);
                let vram: u64 = match parse_u64(&field) {
                    Some(v) => v,
                    None => 0,
                };
                let g = build_gpu_chars(&name, vram);
                proof {
                    lemma_gpus_built_push(
                        out@,
                        concat_map_lines(lv.take(i as int), f),
                        g,
                        name@,
                        vram,
                    );
                }
                out.push(g);
            } else {
                assert(f(lv[i as int]) =~= seq![]);
            }
        } else {
            assert(f(lv[i as int]) =~= seq![]);
        }
        i = i + 1;
    }
    assert(lv.take(i as int) == lv);
    out
}

// ---------------------------------------------------------------------------
// system_profiler text, lspci.
// ---------------------------------------------------------------------------

/// A trimmed `Chipset Model: <name>` line names a GPU by its non-blank rest.
pub open spec fn macos_text_line_entry(line: Seq<char>) -> Seq<(Seq<char>, u64)> {
    let t = trim(line);
    let key = "Chipset Model:"@;
    if starts_with(t, key) && trim(t.skip(key.len() as int)).len() > 0 {
        seq![(trim(t.skip(key.len() as int)), 0u64)]
    } else {
        seq![]
    }
}

pub open spec fn macos_text_entries(raw: Seq<char>) -> Seq<(Seq<char>, u64)> {
    concat_map_lines(lines(raw), |l: Seq<char>| macos_text_line_entry(l))
}

/// Parses the text output of `system_profiler SPDisplaysDataType`.
pub fn parse_macos_system_profiler_text(raw: &str) -> (r: Vec<GpuInfo>)
    ensures
        gpus_built(r@, macos_text_entries(raw@)),
{
    let chars = chars_of(raw);
    let ls = lines_exec(&chars);
    let key = chars_of("Chipset Model:");
    let ghost f = |l: Seq<char>| macos_text_line_entry(l);
    let ghost lv = views(ls@);
    let mut out: Vec<GpuInfo> = Vec::new();
    let mut i: usize = 0;
    while i < ls.len()
        invariant
            i <= ls@.len(),
            lv == views(ls@),
            lv == lines(raw@),
            key@ == "Chipset Model:"@,
            forall|l: Seq<char>| #[trigger] f(l) == macos_text_line_entry(l),
            gpus_built(out@, concat_map_lines(lv.take(i as int), f)),
        decreases ls@.len() - i,
    {
        proof {
            lemma_concat_map_step(lv, f, i as int);
        }
        let line = &ls[i];
        assert(line@ == lv[i as int]);
        let t = trim_exec(line);
        if starts_with_exec(&t, &key) {
            let rest = slice_chars(&t, key.len(), t.len());
            assert(rest@ == t@.skip(key@.len() as int));
            let name = trim_exec(&rest);
            if name.len() > 0 {
                let g = build_gpu_chars(&name, 0);
                proof {
                    lemma_gpus_built_push(
                        out@,
                        concat_map_lines(lv.take(i as int), f),
                        g,
                        name@,
                        0,
                    );
                }
                out.push(g);
            } else {
                assert(f(lv[i as int]) =~= seq![]);
            }
        } else {
            assert(f(lv[i as int]) =~= seq![]);
        }
        i = i + 1;
    }
    assert(lv.take(i as int) == lv);
    out
}

/// Every non-blank line of `lspci` output names a GPU by its trimmed text.
pub open spec fn lspci_line_entry(line: Seq<char>) -> Seq<(Seq<char>, u64)> {
    if trim(line).len() > 0 {
        seq![(trim(line), 0u64)]
    } else {
        seq![]
    }
}

pub open spec fn lspci_entries(raw: Seq<char>) -> Seq<(Seq<char>, u64)> {
    concat_map_lines(lines(raw), |l: Seq<char>| lspci_line_entry(l))
}

/// Parses `lspci | grep -Ei 'vga|3d|display'`.
pub fn parse_linux_lspci(raw: &str) -> (r: Vec<GpuInfo>)
    ensures
        gpus_built(r@, lspci_entries(raw@)),
{
    let chars = chars_of(raw);
    let ls = lines_exec(&chars);
    let ghost f = |l: Seq<char>| lspci_line_entry(l);
    let ghost lv = views(ls@);
    let mut out: Vec<GpuInfo> = Vec::new();
    let mut i: usize = 0;
    while i < ls.len()
        invariant
            i <= ls@.len(),
            lv == views(ls@),
            lv == lines(raw@),
            forall|l: Seq<char>| #[trigger] f(l) == lspci_line_entry(l),
            gpus_built(out@, concat_map_lines(lv.take(i as int), f)),
        decreases ls@.len() - i,
    {
        proof {
            lemma_concat_map_step(lv, f, i as int);
        }
        let line = &ls[i];
        assert(line@ == lv[i as int]);
        let name = trim_exec(line);
        if name.len() > 0 {
            let g = build_gpu_chars(&name, 0);
            proof {
                lemma_gpus_built_push(out@, concat_map_lines(lv.take(i as int), f), g, name@, 0);
            }
            out.push(g);
        } else {
            assert(f(lv[i as int]) =~= seq![]);
        }
        i = i + 1;
    }
    assert(lv.take(i as int) == lv);
    out
}

// ---------------------------------------------------------------------------
// vm_stat.
// ---------------------------------------------------------------------------

/// The ASCII digits of `s`, in order.
pub open spec fn ascii_digits_of(s: Seq<char>) -> Seq<char>
    decreases s.len(),
{
    if s.len() == 0 {
        seq![]
    } else if is_ascii_digit(s.last()) {
        ascii_digits_of(s.drop_last()).push(s.last())
    } else {
        ascii_digits_of(s.drop_last())
    }
}

/// The number of the first line that starts (after trimming) with `field`
/// and whose digits read as a `u64`; 0 when there is none.
pub open spec fn vm_stat_value(ls: Seq<Seq<char>>, field: Seq<char>) -> u64
    decreases ls.len(),
{
    if ls.len() == 0 {
        0
    } else {
        let t = trim(ls[0]);
        if starts_with(t, field) && parse_u64_spec(ascii_digits_of(t)) is Some {
            parse_u64_spec(ascii_digits_of(t))->0
        } else {
            vm_stat_value(ls.drop_first(), field)
        }
    }
}

fn ascii_digits_exec(s: &[char]) -> (r: Vec<char>)
    ensures
        r@ == ascii_digits_of(s@),
{
    let mut r: Vec<char> = Vec::new();
    let mut i: usize = 0;
    while i < s.len()
        invariant
            i <= s@.len(),
            r@ == ascii_digits_of(s@.take(i as int)),
        decreases s@.len() - i,
    {
        assert(s@.take(i + 1).drop_last() == s@.take(i as int));
        if '0' <= s[i] && s[i] <= '9' {
            r.push(s[i]);
        }
        i = i + 1;
    }
    assert(s@.take(i as int) == s@);
    r
}

/// Reads the page count of a `vm_stat` field such as `Pages free`.
pub fn parse_vm_stat_pages(raw: &str, field: &str) -> (r: u64)
    ensures
        r == vm_stat_value(lines(raw@), field@),
{
    let chars = chars_of(raw);
    let fld = chars_of(field);
    let ls = lines_exec(&chars);
    let ghost lv = views(ls@);
    let mut i: usize = 0;
    assert(lv.skip(0) == lv);
    while i < ls.len()
        invariant
            i <= ls@.len(),
            lv == views(ls@),
            lv == lines(raw@),
            fld@ == field@,
            vm_stat_value(lv, field@) == vm_stat_value(lv.skip(i as int), field@),
        decreases ls@.len() - i,
    {
        let t = trim_exec(&ls[i]);
        assert(ls@[i as int]@ == lv[i as int]);
        assert(lv.skip(i as int)[0] == lv[i as int]);
        assert(lv.skip(i as int).drop_first() == lv.skip(i + 1));
        if starts_with_exec(&t, &fld) {
            let digits = ascii_digits_exec(&t);
            match parse_u64(&digits) {
                Some(v) => {
                    return v;
                },
                None => {},
            }
        }
        i = i + 1;
    }
    0
}

// ---------------------------------------------------------------------------
// lshw -C display.
// ---------------------------------------------------------------------------

pub open spec fn opt_chars_view(o: Option<Vec<char>>) -> Option<Seq<char>> {
    match o {
        Some(v) => Some(v@),
        None => None,
    }
}

pub open spec fn opt_str_view(o: Option<String>) -> Option<Seq<char>> {
    match o {
        Some(v) => Some(v@),
        None => None,
    }
}

/// The GPU name made from an `lshw` vendor and product: both trimmed and
/// joined by a space when both are present and non-blank; the one that is
/// present when only one is, if non-blank; otherwise none.
pub open spec fn compose_name(vendor: Option<Seq<char>>, product: Option<Seq<char>>) -> Option<
    Seq<char>,
> {
    match (vendor, product) {
        (Some(v), Some(p)) => if trim(v).len() > 0 && trim(p).len() > 0 {
            Some(trim(v) + " "@ + trim(p))
        } else {
            None
        },
        (None, Some(p)) => if trim(p).len() > 0 {
            Some(trim(p))
        } else {
            None
        },
        (Some(v), None) => if trim(v).len() > 0 {
            Some(trim(v))
        } else {
            None
        },
        (None, None) => None,
    }
}

fn compose_chars(vendor: &Option<Vec<char>>, product: &Option<Vec<char>>) -> (r: Option<Vec<char>>)
    ensures
        opt_chars_view(r) == compose_name(opt_chars_view(*vendor), opt_chars_view(*product)),
{
    match (vendor, product) {
        (Some(v), Some(p)) => {
            let tv = trim_exec(v);
            let tp = trim_exec(p);
            if tv.len() > 0 && tp.len() > 0 {
                let mut out = tv;
                let sp = chars_of(" ");
                let mut k: usize = 0;
                let ghost base = out@;
                while k < sp.len()
                    invariant
                        k <= sp@.len(),
                        out@ == base + sp@.take(k as int),
                    decreases sp@.len() - k,
                {
                    assert(sp@.take(k + 1) == sp@.take(k as int).push(sp@[k as int]));
                    out.push(sp[k]);
                    k = k + 1;
                }
                assert(sp@.take(k as int) == sp@);
                let ghost mid = out@;
                let mut m: usize = 0;
                while m < tp.len()
                    invariant
                        m <= tp@.len(),
                        out@ == mid + tp@.take(m as int),
                    decreases tp@.len() - m,
                {
                    assert(tp@.take(m + 1) == tp@.take(m as int).push(tp@[m as int]));
                    out.push(tp[m]);
                    m = m + 1;
                }
                assert(tp@.take(m as int) == tp@);
                Some(out)
            } else {
                None
            }
        },
        (None, Some(p)) => {
            let tp = trim_exec(p);
            if tp.len() > 0 {
                Some(tp)
            } else {
                None
            }
        },
        (Some(v), None) => {
            let tv = trim_exec(v);
            if tv.len() > 0 {
                Some(tv)
            } else {
                None
            }
        },
        (None, None) => None,
    }
}

fn opt_string_chars(o: &Option<String>) -> (r: Option<Vec<char>>)
    ensures
        opt_chars_view(r) == opt_str_view(*o),
{
    match o {
        Some(s) => Some(chars_of(s.as_str())),
        None => None,
    }
}

/// Joins an `lshw` vendor and product into a GPU name.
pub fn compose_lshw_gpu_name(vendor: &Option<String>, product: &Option<String>) -> (r: Option<
    String,
>)
    ensures
        opt_str_view(r) == compose_name(opt_str_view(*vendor), opt_str_view(*product)),
{
    let v = opt_string_chars(vendor);
    let p = opt_string_chars(product);
    match compose_chars(&v, &p) {
        Some(n) => Some(crate::text::string_from_chars(&n)),
        None => None,
    }
}

/// State while scanning `lshw` output: vendor and product of the current
/// display node, its VRAM, and the GPUs completed so far.
pub type LshwScan = (Option<Seq<char>>, Option<Seq<char>>, u64, Seq<(Seq<char>, u64)>);

pub open spec fn entry_of(name: Option<Seq<char>>, vram: u64) -> Seq<(Seq<char>, u64)> {
    match name {
        Some(n) => seq![(n, vram)],
        None => seq![],
    }
}

/// One `lshw` line: `*-display` closes the current node and opens a new one;
/// `product:`, `vendor:` and `size:` (when it reads as a size) set the fields
/// of the current node; other lines change nothing.
pub open spec fn lshw_step(st: LshwScan, line: Seq<char>) -> LshwScan {
    let t = trim(line);
    if starts_with(t, "*-display"@) {
        (None, None, 0, st.3 + entry_of(compose_name(st.0, st.1), st.2))
    } else if starts_with(t, "product:"@) {
        (st.0, Some(trim(t.skip("product:"@.len() as int))), st.2, st.3)
    } else if starts_with(t, "vendor:"@) {
        (Some(trim(t.skip("vendor:"@.len() as int))), st.1, st.2, st.3)
    } else if starts_with(t, "size:"@) {
        match size_to_mb(trim(t.skip("size:"@.len() as int))) {
            Some(v) => (st.0, st.1, v, st.3),
            None => st,
        }
    } else {
        st
    }
}

pub open spec fn lshw_scan(ls: Seq<Seq<char>>) -> LshwScan
    decreases ls.len(),
{
    if ls.len() == 0 {
        (None, None, 0, seq![])
    } else {
        lshw_step(lshw_scan(ls.drop_last()), ls.last())
    }
}

/// The GPUs of `lshw -C display` output: every completed display node, then
/// the last one.
pub open spec fn lshw_entries(raw: Seq<char>) -> Seq<(Seq<char>, u64)> {
    let st = lshw_scan(lines(raw));
    st.3 + entry_of(compose_name(st.0, st.1), st.2)
}

fn rest_after(t: &[char], key: &[char]) -> (r: Vec<char>)
    requires
        key@.len() <= t@.len(),
    ensures
        r@ == trim(t@.skip(key@.len() as int)),
{
    let rest = slice_chars(t, key.len(), t.len());
    assert(rest@ == t@.skip(key@.len() as int));
    trim_exec(&rest)
}

fn push_entry(out: &mut Vec<GpuInfo>, name: Option<Vec<char>>, vram: u64, Ghost(done): Ghost<
    Seq<(Seq<char>, u64)>,
>)
    requires
        gpus_built(old(out)@, done),
    ensures
        gpus_built(final(out)@, done + entry_of(opt_chars_view(name), vram)),
{
    match name {
        Some(n) => {
            let g = build_gpu_chars(&n, vram);
            proof {
                lemma_gpus_built_push(out@, done, g, n@, vram);
            }
            out.push(g);
        },
        None => {
            assert(done + entry_of(opt_chars_view(name), vram) =~= done);
        },
    }
}

/// Parses `lshw -C display` output.
pub fn parse_linux_lshw_display(raw: &str) -> (r: Vec<GpuInfo>)
    ensures
        gpus_built(r@, lshw_entries(raw@)),
{
    let chars = chars_of(raw);
    let ls = lines_exec(&chars);
    let k_display = chars_of("*-display");
    let k_product = chars_of("product:");
    let k_vendor = chars_of("vendor:");
    let k_size = chars_of("size:");
    let ghost lv = views(ls@);
    let mut gpus: Vec<GpuInfo> = Vec::new();
    let mut product: Option<Vec<char>> = None;
    let mut vendor: Option<Vec<char>> = None;
    let mut vram: u64 = 0;
    let mut i: usize = 0;
    assert(lv.take(0).len() == 0);
    while i < ls.len()
        invariant
            i <= ls@.len(),
            lv == views(ls@),
            lv == lines(raw@),
            k_display@ == "*-display"@,
            k_product@ == "product:"@,
            k_vendor@ == "vendor:"@,
            k_size@ == "size:"@,
            opt_chars_view(vendor) == lshw_scan(lv.take(i as int)).0,
            opt_chars_view(product) == lshw_scan(lv.take(i as int)).1,
            vram == lshw_scan(lv.take(i as int)).2,
            gpus_built(gpus@, lshw_scan(lv.take(i as int)).3),
        decreases ls@.len() - i,
    {
        assert(lv.take(i + 1).drop_last() == lv.take(i as int));
        assert(lv.take(i + 1).last() == lv[i as int]);
        assert(ls@[i as int]@ == lv[i as int]);
        let t = trim_exec(&ls[i]);
        if starts_with_exec(&t, &k_display) {
            let name = compose_chars(&vendor, &product);
            push_entry(&mut gpus, name, vram, Ghost(lshw_scan(lv.take(i as int)).3));
            product = None;
            vendor = None;
            vram = 0;
        } else if starts_with_exec(&t, &k_product) {
            product = Some(rest_after(&t, &k_product));
        } else if starts_with_exec(&t, &k_vendor) {
            vendor = Some(rest_after(&t, &k_vendor));
        } else if starts_with_exec(&t, &k_size) {
            let rest = rest_after(&t, &k_size);
            let s = crate::text::string_from_chars(&rest);
            match parse_size_to_mb(s.as_str()) {
                Some(v) => {
                    vram = v;
                },
                None => {},
            }
        }
        i = i + 1;
    }
    assert(lv.take(i as int) == lv);
    let name = compose_chars(&vendor, &product);
    push_entry(&mut gpus, name, vram, Ghost(lshw_scan(lv).3));
    gpus
}

// ---------------------------------------------------------------------------
// Merging what several probes found.
// ---------------------------------------------------------------------------

/// `b` is a copy of `a`, field by field.
pub open spec fn gpu_copy(a: GpuInfo, b: GpuInfo) -> bool {
    &&& a.name@ == b.name@
    &&& a.vendor == b.vendor
    &&& a.is_integrated == b.is_integrated
    &&& a.vram_mb == b.vram_mb
    &&& a.cuda_compatible == b.cuda_compatible
    &&& a.metal_compatible == b.metal_compatible
    &&& a.directml_compatible == b.directml_compatible
}

pub open spec fn gpu_names(gs: Seq<GpuInfo>) -> Seq<Seq<char>> {
    gs.map_values(|g: GpuInfo| g.name@)
}

/// The positions of the GPUs kept by the merge: sorted by name, then each
/// name equal (up to ASCII case) to the previous kept one dropped.
pub open spec fn merged_gpu_positions(gs: Seq<GpuInfo>) -> Seq<int> {
    dedup_ascii(gpu_names(gs), stable_order(gpu_names(gs)))
}

fn copy_gpu(g: &GpuInfo) -> (r: GpuInfo)
    ensures
        gpu_copy(*g, r),
{
    GpuInfo {
        name: crate::hardware::owned(g.name.as_str()),
        vendor: g.vendor,
        is_integrated: g.is_integrated,
        vram_mb: g.vram_mb,
        cuda_compatible: g.cuda_compatible,
        metal_compatible: g.metal_compatible,
        directml_compatible: g.directml_compatible,
    }
}

/// The GPUs that the probes found, sorted by name (ties in probe order) and
/// with repeated names (up to ASCII case) listed once.
pub fn merge_detected_gpus(gpus: &Vec<GpuInfo>) -> (r: Vec<GpuInfo>)
    ensures
        r@.len() == merged_gpu_positions(gpus@).len(),
        forall|j: int|
            0 <= j < r@.len() ==> 0 <= merged_gpu_positions(gpus@)[j] < gpus@.len() && gpu_copy(
                gpus@[merged_gpu_positions(gpus@)[j]],
                #[trigger] r@[j],
            ),
{
    let mut keys: Vec<Vec<char>> = Vec::new();
    let mut i: usize = 0;
    while i < gpus.len()
        invariant
            i <= gpus@.len(),
            keys@.len() == i,
            forall|j: int| 0 <= j < i ==> #[trigger] keys@[j]@ == gpus@[j].name@,
        decreases gpus@.len() - i,
    {
        keys.push(chars_of(gpus[i].name.as_str()));
        i = i + 1;
    }
    assert(views(keys@) =~= gpu_names(gpus@));
    let order = sorted_positions(&keys);
    let kept = dedup_positions(&keys, &order);
    let ghost d = kept@.map_values(|p: usize| p as int);
    assert(d == merged_gpu_positions(gpus@));
    let mut out: Vec<GpuInfo> = Vec::new();
    let mut k: usize = 0;
    while k < kept.len()
        invariant
            k <= kept@.len(),
            d == kept@.map_values(|p: usize| p as int),
            d == merged_gpu_positions(gpus@),
            keys@.len() == gpus@.len(),
            forall|j: int| 0 <= j < kept@.len() ==> #[trigger] kept@[j] < keys@.len(),
            out@.len() == k,
            forall|j: int|
                0 <= j < k ==> 0 <= d[j] < gpus@.len() && gpu_copy(gpus@[d[j]], #[trigger] out@[j]),
        decreases kept@.len() - k,
    {
        let p = kept[k];
        assert(d[k as int] == p as int);
        out.push(copy_gpu(&gpus[p]));
        k = k + 1;
    }
    out
}

// ---------------------------------------------------------------------------
// system_profiler -json.
// ---------------------------------------------------------------------------

/// One entry of the `SPDisplaysDataType` array, as far as the GPU scan reads
/// it.
#[derive(Debug, Clone, PartialEq, Eq)]
pub struct DisplayEntry {
    /// The entry has an `sppci_model` key (whatever its value).
    pub has_model: bool,
    /// The `sppci_model` value, where it is a string.
    pub model: Option<String>,
    /// The `_name` value, where it is a string.
    pub name: Option<String>,
}

/// A display entry as plain values: `(has_model, model, name)`.
pub open spec fn display_entry_view(e: DisplayEntry) -> (bool, Option<Seq<char>>, Option<Seq<char>>) {
    (e.has_model, opt_str_view(e.model), opt_str_view(e.name))
}

pub open spec fn display_entries_view(es: Seq<DisplayEntry>) -> Seq<(bool, Option<Seq<char>>, Option<Seq<char>>)> {
    es.map_values(|e: DisplayEntry| display_entry_view(e))
}

/// The entries of the `SPDisplaysDataType` array of the JSON document `raw`,
/// as serde_json reads them; none where `raw` is not JSON or holds no such
/// array.
pub uninterp spec fn json_display_entries(raw: Seq<char>) -> Seq<(bool, Option<Seq<char>>, Option<Seq<char>>)>;

/// Parses `raw` with `serde_json::from_str` (an error reads as `null`), takes
/// the array under `SPDisplaysDataType` with `Value::get` and
/// `Value::as_array`, and reads each entry's `sppci_model` and `_name` keys
/// with `Value::get` and `Value::as_str`. The result is a function of `raw`
/// alone; what it is is left to serde_json's parser and is not stated.
#[verifier::external_body]
pub(crate) fn json_display_entries_exec(raw: &str) -> (r: Vec<DisplayEntry>)
    ensures
        display_entries_view(r@) == json_display_entries(raw@),
{
    let parsed: serde_json::Value = serde_json::from_str(raw).unwrap_or(serde_json::Value::Null);
    let mut out = Vec::new();
    if let Some(items) = parsed.get("SPDisplaysDataType").and_then(serde_json::Value::as_array) {
        for item in items {
            out.push(DisplayEntry {
                has_model: item.get("sppci_model").is_some(),
                model: item.get("sppci_model").and_then(serde_json::Value::as_str).map(String::from),
                name: item.get("_name").and_then(serde_json::Value::as_str).map(String::from),
            });
        }
    }
    out
}

/// The GPU name of a display entry: its `sppci_model` where that key is
/// present, else its `_name`, trimmed; empty where the chosen value is not a
/// string.
pub open spec fn display_entry_gpu_name(e: (bool, Option<Seq<char>>, Option<Seq<char>>)) -> Seq<char> {
    let chosen = if e.0 {
        e.1
    } else {
        e.2
    };
    match chosen {
        Some(s) => trim(s),
        None => Seq::empty(),
    }
}

/// The GPUs that the display entries name, in order; blank names are skipped.
pub open spec fn display_gpu_entries(es: Seq<(bool, Option<Seq<char>>, Option<Seq<char>>)>) -> Seq<(Seq<char>, u64)>
    decreases es.len(),
{
    if es.len() == 0 {
        Seq::empty()
    } else {
        let prev = display_gpu_entries(es.drop_last());
        let n = display_entry_gpu_name(es.last());
        if n.len() > 0 {
            prev.push((n, 0u64))
        } else {
            prev
        }
    }
}

/// Builds the GPU records that the display entries of `system_profiler -json`
/// name.
pub fn gpus_from_display_entries(entries: &[DisplayEntry]) -> (r: Vec<GpuInfo>)
    ensures
        gpus_built(r@, display_gpu_entries(display_entries_view(entries@))),
{
    let ghost ev = display_entries_view(entries@);
    let mut out: Vec<GpuInfo> = Vec::new();
    let mut i: usize = 0;
    while i < entries.len()
        invariant
            i <= entries@.len(),
            ev == display_entries_view(entries@),
            gpus_built(out@, display_gpu_entries(ev.take(i as int))),
        decreases entries@.len() - i,
    {
        let e = &entries[i];
        assert(ev[i as int] == display_entry_view(*e));
        assert(ev.take(i as int + 1).drop_last() == ev.take(i as int));
        let chosen: Option<&String> = if e.has_model {
            e.model.as_ref()
        } else {
            e.name.as_ref()
        };
        match chosen {
            Some(s) => {
                let cs = chars_of(s.as_str());
                let name = trim_exec(&cs);
                if name.len() > 0 {
                    let g = build_gpu_chars(&name, 0);
                    proof {
                        lemma_gpus_built_push(
                            out@,
                            display_gpu_entries(ev.take(i as int)),
                            g,
                            name@,
                            0,
                        );
                        assert(display_gpu_entries(ev.take(i as int)).push((name@, 0u64))
                            =~= display_gpu_entries(ev.take(i as int)) + seq![(name@, 0u64)]);
                    }
                    out.push(g);
                }
            },
            None => {},
        }
        i = i + 1;
    }
    assert(ev.take(i as int) == ev);
    out
}

/// Parses the JSON output of `system_profiler SPDisplaysDataType -json`.
pub fn parse_macos_system_profiler_json(raw: &str) -> (r: Vec<GpuInfo>)
    ensures
        gpus_built(r@, display_gpu_entries(json_display_entries(raw@))),
{
    let entries = json_display_entries_exec(raw);
    gpus_from_display_entries(&entries)
}

} // verus!
