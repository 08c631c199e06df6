//! Hardware profile: GPU classification, probe-output parsers and tier scoring.

use vstd::prelude::*;
use crate::text::{
    ascii_lower, chars_of, contains, contains_exec, is_ascii_str, str_to_lowercase, string_from_chars,
    unicode_str_lowercase,
};

verus! {

#[derive(Debug, Clone, Copy, PartialEq, Eq, Structural)]
pub enum HostOs {
    Windows,
    Macos,
    Linux,
    Unknown,
}

#[derive(Debug, Clone, Copy, PartialEq, Eq, Structural)]
pub enum HostArch {
    X86_64,
    Arm64,
    X86,
    Unknown,
}

#[derive(Debug, Clone, Copy, PartialEq, Eq, Structural)]
pub enum GpuVendor {
    Nvidia,
    Amd,
    Intel,
    Apple,
    Unknown,
}

#[derive(Debug, Clone, Copy, PartialEq, Eq, Structural)]
pub enum Tier {
    High,
    Medium,
    Low,
    Unknown,
}

#[derive(Debug, Clone)]
pub struct HostInfo {
    pub os: HostOs,
    pub arch: HostArch,
    pub os_version: Option<String>,
    pub device_name: Option<String>,
}

#[derive(Debug, Clone)]
pub struct CpuInfo {
    pub vendor: Option<String>,
    pub model: String,
    pub physical_cores: u32,
    pub logical_cores: u32,
    pub max_clock_mhz: Option<u32>,
}

#[derive(Debug, Clone, Copy, PartialEq, Eq, Structural)]
pub struct MemoryInfo {
    pub total_mb: u64,
    pub available_mb: Option<u64>,
}

#[derive(Debug, Clone)]
pub struct GpuInfo {
    pub name: String,
    pub vendor: GpuVendor,
    pub is_integrated: bool,
    pub vram_mb: u64,
    pub cuda_compatible: bool,
    pub metal_compatible: bool,
    pub directml_compatible: bool,
}

#[derive(Debug, Clone, Copy, PartialEq, Eq, Structural)]
pub struct Accelerators {
    pub cuda: bool,
    pub metal: bool,
    pub directml: bool,
    pub rocm: bool,
}

/// The machine profile. The classification confidence is kept in hundredths
/// (`90` stands for `0.90`).
#[derive(Debug, Clone)]
pub struct HardwareProfile {
    pub schema_version: String,
    pub generated_at_unix_s: u64,
    pub source_app: String,
    pub host: HostInfo,
    pub cpu: CpuInfo,
    pub memory: MemoryInfo,
    pub gpus: Vec<GpuInfo>,
    pub accelerators: Accelerators,
    pub tier: Tier,
    pub confidence_percent: u32,
    pub notes: Vec<String>,
}

// ---------------------------------------------------------------------------
// GPU classification.
// ---------------------------------------------------------------------------

/// The vendor that a lowercased GPU name designates.
pub open spec fn vendor_of(lower: Seq<char>) -> GpuVendor {
    if contains(lower, "nvidia"@) || contains(lower, "geforce"@) || contains(lower, "rtx"@)
        || contains(lower, "gtx"@) {
        GpuVendor::Nvidia
    } else if contains(lower, "amd"@) || contains(lower, "radeon"@) {
        GpuVendor::Amd
    } else if contains(lower, "intel"@) {
        GpuVendor::Intel
    } else if contains(lower, "apple"@) {
        GpuVendor::Apple
    } else {
        GpuVendor::Unknown
    }
}

/// A lowercased GPU name that names a CUDA-class product line.
pub open spec fn cuda_capable(lower: Seq<char>) -> bool {
    contains(lower, "rtx"@) || contains(lower, "gtx"@) || contains(lower, "tesla"@) || contains(
        lower,
        "quadro"@,
    )
}

/// `g` is the GPU record that `build_gpu(name, vram)` makes: classified by
/// the name lowercased as `str::to_lowercase` does, which for an ASCII name
/// is its ASCII lowercase.
pub open spec fn gpu_built(g: GpuInfo, name: Seq<char>, vram: u64) -> bool {
    &&& gpu_from_lower(g, name, unicode_str_lowercase(name), vram)
    &&& is_ascii_str(name) ==> gpu_from_lower(g, name, ascii_lower(name), vram)
}

/// `g` is the GPU record for `name`, classified by its lowercase `lower`.
pub open spec fn gpu_from_lower(g: GpuInfo, name: Seq<char>, lower: Seq<char>, vram: u64) -> bool {
    let vendor = vendor_of(lower);
    &&& g.name@ == name
    &&& g.vendor == vendor
    &&& g.is_integrated == (contains(lower, "integrated"@) || contains(lower, "iris"@))
    &&& g.vram_mb == vram
    &&& g.cuda_compatible == (vendor == GpuVendor::Nvidia && cuda_capable(lower))
    &&& g.metal_compatible == (vendor == GpuVendor::Apple)
    &&& g.directml_compatible == (vendor == GpuVendor::Nvidia || vendor == GpuVendor::Amd
        || vendor == GpuVendor::Intel)
}

/// Whether `pat` occurs in `s`.
pub fn has(s: &[char], pat: &str) -> (r: bool)
    ensures
        r == contains(s@, pat@),
{
    let p = chars_of(pat);
    contains_exec(s, &p)
}

/// Whether a lowercased GPU name names a CUDA-class product line.
pub fn is_probably_cuda_capable(lower_name: &str) -> (r: bool)
    ensures
        r == cuda_capable(lower_name@),
{
    let l = chars_of(lower_name);
    cuda_capable_chars(&l)
}

fn cuda_capable_chars(l: &[char]) -> (r: bool)
    ensures
        r == cuda_capable(l@),
{
    has(l, "rtx") || has(l, "gtx") || has(l, "tesla") || has(l, "quadro")
}

fn vendor_of_exec(l: &[char]) -> (v: GpuVendor)
    ensures
        v == vendor_of(l@),
{
    if has(l, "nvidia") || has(l, "geforce") || has(l, "rtx") || has(l, "gtx") {
        GpuVendor::Nvidia
    } else if has(l, "amd") || has(l, "radeon") {
        GpuVendor::Amd
    } else if has(l, "intel") {
        GpuVendor::Intel
    } else if has(l, "apple") {
        GpuVendor::Apple
    } else {
        GpuVendor::Unknown
    }
}

/// Classifies a GPU by its name.
pub fn build_gpu(name: &str, vram_mb: u64) -> (g: GpuInfo)
    ensures
        gpu_built(g, name@, vram_mb),
{
    let n = chars_of(name);
    build_gpu_chars(&n, vram_mb)
}

/// Classifies a GPU by its name, given as characters.
pub fn build_gpu_chars(name: &[char], vram_mb: u64) -> (g: GpuInfo)
    ensures
        gpu_built(g, name@, vram_mb),
{
    let lower = str_to_lowercase(name);
    let vendor = vendor_of_exec(&lower);
    let cuda = match vendor {
        GpuVendor::Nvidia => cuda_capable_chars(&lower),
        _ => false,
    };
    let metal = match vendor {
        GpuVendor::Apple => true,
        _ => false,
    };
    let directml = match vendor {
        GpuVendor::Nvidia | GpuVendor::Amd | GpuVendor::Intel => true,
        _ => false,
    };
    let integrated = has(&lower, "integrated") || has(&lower, "iris");
    GpuInfo {
        name: string_from_chars(name),
        vendor,
        is_integrated: integrated,
        vram_mb,
        cuda_compatible: cuda,
        metal_compatible: metal,
        directml_compatible: directml,
    }
}

// ---------------------------------------------------------------------------
// CPU vendor, memory units, accelerators and tier.
// ---------------------------------------------------------------------------

/// The vendor that a CPU model string designates (by its lowercase).
pub open spec fn cpu_vendor_of(model: Seq<char>) -> Option<Seq<char>> {
    cpu_vendor_in(unicode_str_lowercase(model))
}

/// The vendor that a lowercased CPU model string designates.
pub open spec fn cpu_vendor_in(l: Seq<char>) -> Option<Seq<char>> {
    if contains(l, "intel"@) {
        Some("intel"@)
    } else if contains(l, "amd"@) || contains(l, "ryzen"@) {
        Some("amd"@)
    } else if contains(l, "apple"@) || contains(l, "m1"@) || contains(l, "m2"@) || contains(
        l,
        "m3"@,
    ) {
        Some("apple"@)
    } else {
        None
    }
}

pub open spec fn opt_string_view(o: Option<String>) -> Option<Seq<char>> {
    match o {
        Some(s) => Some(s@),
        None => None,
    }
}

/// Guesses the CPU vendor from its model string.
pub fn detect_cpu_vendor(model: &str) -> (r: Option<String>)
    ensures
        opt_string_view(r) == cpu_vendor_of(model@),
        is_ascii_str(model@) ==> opt_string_view(r) == cpu_vendor_in(ascii_lower(model@)),
{
    let m = chars_of(model);
    let l = str_to_lowercase(&m);
    if has(&l, "intel") {
        Some(owned("intel"))
    } else if has(&l, "amd") || has(&l, "ryzen") {
        Some(owned("amd"))
    } else if has(&l, "apple") || has(&l, "m1") || has(&l, "m2") || has(&l, "m3") {
        Some(owned("apple"))
    } else {
        None
    }
}

/// An owned copy of a string slice.
pub fn owned(s: &str) -> (r: String)
    ensures
        r@ == s@,
{
    s.to_string()
}

/// Converts a raw memory amount to MiB: values above 4 GiB are taken as bytes,
/// smaller ones as KiB.
pub fn normalize_memory_to_mb(raw: u64) -> (r: u64)
    ensures
        raw > 4 * 1024 * 1024 * 1024 ==> r as nat == raw as nat / (1024 * 1024),
        raw <= 4 * 1024 * 1024 * 1024 ==> r as nat == raw as nat / 1024,
{
    if raw > 4 * 1024 * 1024 * 1024 {
        raw / (1024 * 1024)
    } else {
        raw / 1024
    }
}

/// The largest VRAM amount among `gpus` (0 for none).
pub open spec fn max_vram(gpus: Seq<GpuInfo>) -> u64
    decreases gpus.len(),
{
    if gpus.len() == 0 {
        0
    } else {
        let m = max_vram(gpus.drop_last());
        if gpus.last().vram_mb > m {
            gpus.last().vram_mb
        } else {
            m
        }
    }
}

/// Some GPU in `gpus` is CUDA compatible.
pub open spec fn any_cuda(gpus: Seq<GpuInfo>) -> bool {
    exists|i: int| 0 <= i < gpus.len() && #[trigger] gpus[i].cuda_compatible
}

pub open spec fn any_metal(gpus: Seq<GpuInfo>) -> bool {
    exists|i: int| 0 <= i < gpus.len() && #[trigger] gpus[i].metal_compatible
}

pub open spec fn any_directml(gpus: Seq<GpuInfo>) -> bool {
    exists|i: int| 0 <= i < gpus.len() && #[trigger] gpus[i].directml_compatible
}

/// The tier that RAM, the best VRAM and CUDA availability put a machine in.
pub open spec fn tier_for(ram_mb: u64, top_vram_mb: u64, has_cuda: bool) -> Tier {
    if has_cuda && (top_vram_mb >= 8192 || ram_mb >= 16384) {
        Tier::High
    } else if ram_mb >= 8192 || top_vram_mb >= 2048 {
        Tier::Medium
    } else if ram_mb > 0 {
        Tier::Low
    } else {
        Tier::Unknown
    }
}

/// The confidence, in hundredths, that goes with a tier.
pub open spec fn tier_confidence(t: Tier) -> u32 {
    match t {
        Tier::High => 90,
        Tier::Medium => 75,
        Tier::Low => 65,
        Tier::Unknown => 30,
    }
}

/// The note that explains a tier.
pub open spec fn tier_note(t: Tier) -> Seq<char> {
    match t {
        Tier::High => "high tier: cuda + strong memory"@,
        Tier::Medium => "medium tier: sufficient RAM or modest VRAM"@,
        Tier::Low => "low tier: limited local resources"@,
        Tier::Unknown => "unknown tier: insufficient probe data"@,
    }
}

/// The views of a vector of strings.
pub open spec fn string_views(v: Seq<String>) -> Seq<Seq<char>> {
    v.map_values(|s: String| s@)
}

/// Which accelerators the detected GPUs provide (ROCm is never claimed).
pub fn accelerators_of(gpus: &[GpuInfo]) -> (a: Accelerators)
    ensures
        a.cuda == any_cuda(gpus@),
        a.metal == any_metal(gpus@),
        a.directml == any_directml(gpus@),
        !a.rocm,
{
    let mut cuda = false;
    let mut metal = false;
    let mut directml = false;
    let mut i: usize = 0;
    while i < gpus.len()
        invariant
            i <= gpus@.len(),
            cuda == (exists|j: int| 0 <= j < i && #[trigger] gpus@[j].cuda_compatible),
            metal == (exists|j: int| 0 <= j < i && #[trigger] gpus@[j].metal_compatible),
            directml == (exists|j: int| 0 <= j < i && #[trigger] gpus@[j].directml_compatible),
        decreases gpus@.len() - i,
    {
        if gpus[i].cuda_compatible {
            cuda = true;
        }
        if gpus[i].metal_compatible {
            metal = true;
        }
        if gpus[i].directml_compatible {
            directml = true;
        }
        i = i + 1;
    }
    Accelerators { cuda, metal, directml, rocm: false }
}

/// The largest VRAM amount and whether any GPU is CUDA compatible.
fn vram_and_cuda(gpus: &[GpuInfo]) -> (r: (u64, bool))
    ensures
        r.0 == max_vram(gpus@),
        r.1 == any_cuda(gpus@),
{
    let mut top: u64 = 0;
    let mut cuda = false;
    let mut i: usize = 0;
    while i < gpus.len()
        invariant
            i <= gpus@.len(),
            top == max_vram(gpus@.take(i as int)),
            cuda == (exists|j: int| 0 <= j < i && #[trigger] gpus@[j].cuda_compatible),
        decreases gpus@.len() - i,
    {
        assert(gpus@.take(i + 1).drop_last() == gpus@.take(i as int));
        if gpus[i].vram_mb > top {
            top = gpus[i].vram_mb;
        }
        if gpus[i].cuda_compatible {
            cuda = true;
        }
        i = i + 1;
    }
    assert(gpus@.take(i as int) == gpus@);
    (top, cuda)
}

/// Classifies the machine into a tier, with the confidence in hundredths and
/// the note that explains the choice.
pub fn score_tier(memory: &MemoryInfo, gpus: &[GpuInfo]) -> (r: (Tier, u32, Vec<String>))
    ensures
        r.0 == tier_for(memory.total_mb, max_vram(gpus@), any_cuda(gpus@)),
        r.1 == tier_confidence(r.0),
        string_views(r.2@) == seq![tier_note(r.0)],
        strong_cuda_machine(memory.total_mb, gpus@) ==> r.0 == Tier::High && r.1 == 90 && string_views(
            r.2@,
        ) == seq!["high tier: cuda + strong memory"@],
        !strong_cuda_machine(memory.total_mb, gpus@) && modest_machine(memory.total_mb, gpus@) ==> r.0
            == Tier::Medium && r.1 == 75 && string_views(r.2@) == seq![
            "medium tier: sufficient RAM or modest VRAM"@,
        ],
        !strong_cuda_machine(memory.total_mb, gpus@) && !modest_machine(memory.total_mb, gpus@)
            && memory.total_mb > 0 ==> r.0 == Tier::Low && r.1 == 65 && string_views(r.2@) == seq![
            "low tier: limited local resources"@,
        ],
        memory.total_mb == 0 && !modest_machine(memory.total_mb, gpus@) ==> r.0 == Tier::Unknown
            && r.1 == 30 && string_views(r.2@) == seq!["unknown tier: insufficient probe data"@],
{
    proof {
        lemma_tier_rules(memory.total_mb, gpus@);
        reveal_strlit("low tier: limited local resources");
        reveal_strlit("unknown tier: insufficient probe data");
        reveal_strlit("high tier: cuda + strong memory");
        reveal_strlit("medium tier: sufficient RAM or modest VRAM");
    }
    let ram = memory.total_mb;
    let (top_vram, has_cuda) = vram_and_cuda(gpus);
    let mut notes: Vec<String> = Vec::new();
    if has_cuda && (top_vram >= 8192 || ram >= 16384) {
        notes.push(owned("high tier: cuda + strong memory"));
        assert(string_views(notes@) =~= seq![tier_note(Tier::High)]);
        return (Tier::High, 90, notes);
    }
    if ram >= 8192 || top_vram >= 2048 {
        notes.push(owned("medium tier: sufficient RAM or modest VRAM"));
        assert(string_views(notes@) =~= seq![tier_note(Tier::Medium)]);
        return (Tier::Medium, 75, notes);
    }
    if ram > 0 {
        notes.push(owned("low tier: limited local resources"));
        assert(string_views(notes@) =~= seq![tier_note(Tier::Low)]);
        return (Tier::Low, 65, notes);
    }
    notes.push(owned("unknown tier: insufficient probe data"));
    assert(string_views(notes@) =~= seq![tier_note(Tier::Unknown)]);
    (Tier::Unknown, 30, notes)
}


/// Some GPU of `gpus` has at least `mb` MiB of VRAM.
pub open spec fn some_vram_at_least(gpus: Seq<GpuInfo>, mb: u64) -> bool {
    exists|i: int| 0 <= i < gpus.len() && #[trigger] gpus[i].vram_mb >= mb
}

/// A CUDA-capable GPU, and either a GPU with 8 GiB (8192 MiB) of VRAM or
/// 16 GiB (16384 MiB) of RAM; either condition alone suffices.
pub open spec fn strong_cuda_machine(ram_mb: u64, gpus: Seq<GpuInfo>) -> bool {
    &&& exists|i: int| 0 <= i < gpus.len() && #[trigger] gpus[i].cuda_compatible
    &&& some_vram_at_least(gpus, 8192) || ram_mb >= 16384
}

/// 8 GiB of RAM, or a GPU with 2 GiB (2048 MiB) of VRAM.
pub open spec fn modest_machine(ram_mb: u64, gpus: Seq<GpuInfo>) -> bool {
    ram_mb >= 8192 || some_vram_at_least(gpus, 2048)
}

/// The largest VRAM reaches `mb` exactly when some GPU's does.
pub proof fn lemma_max_vram_at_least(gpus: Seq<GpuInfo>, mb: u64)
    ensures
        (max_vram(gpus) >= mb && mb > 0) ==> some_vram_at_least(gpus, mb),
        some_vram_at_least(gpus, mb) ==> max_vram(gpus) >= mb,
    decreases gpus.len(),
{
    if gpus.len() > 0 {
        let init = gpus.drop_last();
        lemma_max_vram_at_least(init, mb);
        if some_vram_at_least(init, mb) {
            let i = choose|i: int| 0 <= i < init.len() && #[trigger] init[i].vram_mb >= mb;
            assert(gpus[i] == init[i]);
        }
        if some_vram_at_least(gpus, mb) {
            let i = choose|i: int| 0 <= i < gpus.len() && #[trigger] gpus[i].vram_mb >= mb;
            if i < init.len() {
                assert(init[i] == gpus[i]);
            }
        }
        if max_vram(gpus) >= mb && mb > 0 && gpus.last().vram_mb > max_vram(init) {
            assert(gpus[gpus.len() - 1].vram_mb >= mb);
        }
    }
}

/// How a machine is tiered, over its RAM and GPUs: a CUDA GPU with 8 GiB of
/// VRAM or 16 GiB of RAM (either suffices) makes it high; otherwise 8 GiB of
/// RAM or a GPU with 2 GiB of VRAM makes it medium; otherwise any RAM makes
/// it low; a machine with no RAM reading and no such GPU is unknown.
pub proof fn lemma_tier_rules(ram_mb: u64, gpus: Seq<GpuInfo>)
    ensures
        strong_cuda_machine(ram_mb, gpus) ==> tier_for(ram_mb, max_vram(gpus), any_cuda(gpus))
            == Tier::High,
        !strong_cuda_machine(ram_mb, gpus) && modest_machine(ram_mb, gpus) ==> tier_for(
            ram_mb,
            max_vram(gpus),
            any_cuda(gpus),
        ) == Tier::Medium,
        !strong_cuda_machine(ram_mb, gpus) && !modest_machine(ram_mb, gpus) && ram_mb > 0
            ==> tier_for(ram_mb, max_vram(gpus), any_cuda(gpus)) == Tier::Low,
        ram_mb == 0 && !modest_machine(ram_mb, gpus) ==> tier_for(ram_mb, max_vram(gpus), any_cuda(gpus))
            == Tier::Unknown,
        tier_confidence(Tier::High) == 90 && tier_confidence(Tier::Medium) == 75
            && tier_confidence(Tier::Low) == 65 && tier_confidence(Tier::Unknown) == 30,
{
    lemma_max_vram_at_least(gpus, 8192);
    lemma_max_vram_at_least(gpus, 2048);
    if ram_mb == 0 && !modest_machine(ram_mb, gpus) {
        assert(!some_vram_at_least(gpus, 8192)) by {
            if some_vram_at_least(gpus, 8192) {
                let i = choose|i: int| 0 <= i < gpus.len() && #[trigger] gpus[i].vram_mb >= 8192;
                assert(gpus[i].vram_mb >= 2048);
            }
        }
    }
}

/// Tiers ranked from unknown (0) to high (3).
pub open spec fn tier_rank(t: Tier) -> int {
    match t {
        Tier::Unknown => 0,
        Tier::Low => 1,
        Tier::Medium => 2,
        Tier::High => 3,
    }
}

/// More RAM or more VRAM never lowers the tier, and neither does CUDA
/// support.
pub proof fn lemma_tier_monotone(
    ram: u64,
    vram: u64,
    cuda: bool,
    more_ram: u64,
    more_vram: u64,
    more_cuda: bool,
)
    requires
        ram <= more_ram,
        vram <= more_vram,
        cuda ==> more_cuda,
    ensures
        tier_rank(tier_for(ram, vram, cuda)) <= tier_rank(tier_for(more_ram, more_vram, more_cuda)),
{
}

} // verus!
