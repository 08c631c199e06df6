//! Assembling the hardware profile from what the probes found.

use vstd::prelude::*;
use crate::hardware::{
    accelerators_of, any_cuda, any_directml, any_metal, detect_cpu_vendor, max_vram, owned,
    score_tier, string_views, tier_confidence, tier_for, tier_note, Accelerators, CpuInfo,
    GpuInfo, HardwareProfile, HostArch, HostInfo, HostOs, MemoryInfo, Tier,
};
use crate::num::{parse_u64, parse_u64_spec};
use crate::probe::vm_stat_value;
use crate::text::{chars_of, lines, push_str, str_equal, string_from_chars, trim, trim_exec};

verus! {

pub const HARDWARE_PROFILE_SCHEMA: &'static str = "hardware_profile.v1";

/// The host OS named by `std::env::consts::OS`.
pub open spec fn host_os_named(name: Seq<char>) -> HostOs {
    if name == "windows"@ {
        HostOs::Windows
    } else if name == "macos"@ {
        HostOs::Macos
    } else if name == "linux"@ {
        HostOs::Linux
    } else {
        HostOs::Unknown
    }
}

/// The architecture named by `std::env::consts::ARCH`.
pub open spec fn host_arch_named(name: Seq<char>) -> HostArch {
    if name == "x86_64"@ {
        HostArch::X86_64
    } else if name == "aarch64"@ {
        HostArch::Arm64
    } else if name == "x86"@ {
        HostArch::X86
    } else {
        HostArch::Unknown
    }
}

/// The host OS for an OS name (`windows`, `macos`, `linux`, else unknown).
pub fn host_os_of(name: &str) -> (r: HostOs)
    ensures
        r == host_os_named(name@),
{
    if str_equal(name, "windows") {
        HostOs::Windows
    } else if str_equal(name, "macos") {
        HostOs::Macos
    } else if str_equal(name, "linux") {
        HostOs::Linux
    } else {
        HostOs::Unknown
    }
}

/// The architecture for an architecture name (`x86_64`, `aarch64`, `x86`,
/// else unknown).
pub fn host_arch_of(name: &str) -> (r: HostArch)
    ensures
        r == host_arch_named(name@),
{
    if str_equal(name, "x86_64") {
        HostArch::X86_64
    } else if str_equal(name, "aarch64") {
        HostArch::Arm64
    } else if str_equal(name, "x86") {
        HostArch::X86
    } else {
        HostArch::Unknown
    }
}

/// The CPU record from the probes: one logical core when the count is
/// unknown, as many physical cores as logical ones when that count is
/// unknown, `Unknown CPU` when the model is unknown, and the vendor read from
/// the model name.
pub fn cpu_info_from(
    logical_cores: Option<u32>,
    physical_cores: Option<u32>,
    model: Option<String>,
    max_clock_mhz: Option<u32>,
) -> (r: CpuInfo)
    ensures
        r.logical_cores == match logical_cores {
            Some(n) => n,
            None => 1,
        },
        r.physical_cores == match physical_cores {
            Some(n) => n,
            None => r.logical_cores,
        },
        r.model@ == match model {
            Some(m) => m@,
            None => "Unknown CPU"@,
        },
        crate::hardware::opt_string_view(r.vendor) == crate::hardware::cpu_vendor_of(r.model@),
        r.max_clock_mhz == max_clock_mhz,
{
    let logical = match logical_cores {
        Some(n) => n,
        None => 1,
    };
    let physical = match physical_cores {
        Some(n) => n,
        None => logical,
    };
    let model = match model {
        Some(m) => m,
        None => owned("Unknown CPU"),
    };
    let vendor = detect_cpu_vendor(model.as_str());
    CpuInfo { vendor, model, physical_cores: physical, logical_cores: logical, max_clock_mhz }
}

/// The notes of a profile: the tier's note, then warnings for what the
/// probes could not find, then where the shared models directory is.
pub open spec fn profile_notes(
    tier: Tier,
    memory: MemoryInfo,
    cpu_clock_known: bool,
    gpu_count: nat,
    models_dir: Seq<char>,
) -> Seq<Seq<char>> {
    seq![tier_note(tier)] + (if memory.total_mb == 0 {
        seq!["warning: total RAM detection failed"@]
    } else {
        seq![]
    }) + (if !cpu_clock_known {
        seq!["note: cpu max clock unavailable (fallback path used)"@]
    } else {
        seq![]
    }) + (if gpu_count == 0 {
        seq!["note: no GPU detected by current probes"@]
    } else {
        seq![]
    }) + seq!["default_audio_models_dir="@ + models_dir]
}

/// The hardware profile of a machine from what the probes found:
/// accelerators from the GPUs, the tier with its confidence, and the notes.
pub fn build_hardware_profile(
    source_app: &str,
    host: HostInfo,
    cpu: CpuInfo,
    memory: MemoryInfo,
    gpus: Vec<GpuInfo>,
    models_dir: &str,
    generated_at_unix_s: u64,
) -> (p: HardwareProfile)
    ensures
        p.schema_version@ == HARDWARE_PROFILE_SCHEMA@,
        p.generated_at_unix_s == generated_at_unix_s,
        p.source_app@ == source_app@,
        p.host == host,
        p.cpu == cpu,
        p.memory == memory,
        p.gpus == gpus,
        p.accelerators == (Accelerators {
            cuda: any_cuda(gpus@),
            metal: any_metal(gpus@),
            directml: any_directml(gpus@),
            rocm: false,
        }),
        p.tier == tier_for(memory.total_mb, max_vram(gpus@), any_cuda(gpus@)),
        p.confidence_percent == tier_confidence(p.tier),
        string_views(p.notes@) == profile_notes(
            p.tier,
            memory,
            cpu.max_clock_mhz is Some,
            gpus@.len(),
            models_dir@,
        ),
{
    let accelerators = accelerators_of(&gpus);
    let (tier, confidence, mut notes) = score_tier(&memory, &gpus);
    let ghost base = string_views(notes@);
    if memory.total_mb == 0 {
        notes.push(owned("warning: total RAM detection failed"));
    }
    let ghost a = string_views(notes@);
    assert(a =~= base + (if memory.total_mb == 0 {
        seq!["warning: total RAM detection failed"@]
    } else {
        seq![]
    }));
    if cpu.max_clock_mhz.is_none() {
        notes.push(owned("note: cpu max clock unavailable (fallback path used)"));
    }
    let ghost b = string_views(notes@);
    assert(b =~= a + (if cpu.max_clock_mhz is None {
        seq!["note: cpu max clock unavailable (fallback path used)"@]
    } else {
        seq![]
    }));
    if gpus.len() == 0 {
        notes.push(owned("note: no GPU detected by current probes"));
    }
    let ghost c = string_views(notes@);
    assert(c =~= b + (if gpus@.len() == 0 {
        seq!["note: no GPU detected by current probes"@]
    } else {
        seq![]
    }));
    let mut line: Vec<char> = Vec::new();
    push_str(&mut line, "default_audio_models_dir=");
    push_str(&mut line, models_dir);
    notes.push(string_from_chars(&line));
    assert(string_views(notes@) =~= c.push("default_audio_models_dir="@ + models_dir@));
    assert(string_views(notes@) =~= profile_notes(
        tier,
        memory,
        cpu.max_clock_mhz is Some,
        gpus@.len(),
        models_dir@,
    ));
    HardwareProfile {
        schema_version: owned(HARDWARE_PROFILE_SCHEMA),
        generated_at_unix_s,
        source_app: owned(source_app),
        host,
        cpu,
        memory,
        gpus,
        accelerators,
        tier,
        confidence_percent: confidence,
        notes,
    }
}

// ---------------------------------------------------------------------------
// Clock speed from command output.
// ---------------------------------------------------------------------------

/// A clock rate in Hz (as `sysctl hw.cpufrequency` prints it) in whole MHz,
/// cast to `u32` as the probe does.
pub open spec fn hz_text_to_mhz(raw: Seq<char>) -> Option<u32> {
    match parse_u64_spec(raw) {
        Some(hz) => Some((hz / 1_000_000u64) as u32),
        None => None,
    }
}

pub fn mhz_from_hz_text(raw: &str) -> (r: Option<u32>)
    ensures
        r == hz_text_to_mhz(raw@),
{
    match parse_u64(&chars_of(raw)) {
        Some(hz) => Some((hz / 1_000_000) as u32),
        None => None,
    }
}

// ---------------------------------------------------------------------------
// Memory from command output.
// ---------------------------------------------------------------------------

/// A trimmed number of KiB, in MiB (`/proc/meminfo` figures).
pub open spec fn kib_text_to_mib(raw: Seq<char>) -> Option<u64> {
    match parse_u64_spec(trim(raw)) {
        Some(kb) => Some((kb / 1024u64) as u64),
        None => None,
    }
}

/// A number of bytes printed by a probe, in MiB.
pub open spec fn bytes_text_to_mib(raw: Seq<char>) -> Option<u64> {
    match parse_u64_spec(trim(raw)) {
        Some(b) => Some((b / 1048576u64) as u64),
        None => None,
    }
}

/// Memory in MiB from a KiB figure printed by a probe.
pub fn mib_from_kib_text(raw: &str) -> (r: Option<u64>)
    ensures
        r == kib_text_to_mib(raw@),
{
    let t = trim_exec(&chars_of(raw));
    match parse_u64(&t) {
        Some(kb) => Some(kb / 1024),
        None => None,
    }
}

/// Memory in MiB from a byte count printed by a probe.
pub fn mib_from_bytes_text(raw: &str) -> (r: Option<u64>)
    ensures
        r == bytes_text_to_mib(raw@),
{
    let t = trim_exec(&chars_of(raw));
    match parse_u64(&t) {
        Some(b) => Some(b / (1024 * 1024)),
        None => None,
    }
}

/// The pages that `vm_stat` counts as available: free, inactive,
/// speculative and purgeable.
pub open spec fn vm_stat_available_pages(raw: Seq<char>) -> int {
    let ls = lines(raw);
    vm_stat_value(ls, "Pages free"@) + vm_stat_value(ls, "Pages inactive"@) + vm_stat_value(
        ls,
        "Pages speculative"@,
    ) + vm_stat_value(ls, "Pages purgeable"@)
}

/// Available memory in MiB on macOS from `vm_stat` output and the page size
/// (`sysctl -n hw.pagesize`): the available pages times the page size, when
/// the page size parses and some page is available.
pub open spec fn vm_stat_available_mib(vm_stat_raw: Seq<char>, page_size_raw: Seq<char>) -> Option<
    u64,
> {
    match parse_u64_spec(trim(page_size_raw)) {
        Some(page) => if vm_stat_available_pages(vm_stat_raw) > 0 {
            Some(((vm_stat_available_pages(vm_stat_raw) * page) / 1048576int) as u64)
        } else {
            None
        },
        None => None,
    }
}

/// Available memory in MiB from `vm_stat` output and the page size. The page
/// counts and their product with the page size must fit in 64 bits.
pub fn available_mib_from_vm_stat(vm_stat_raw: &str, page_size_raw: &str) -> (r: Option<u64>)
    requires
        vm_stat_available_pages(vm_stat_raw@) <= u64::MAX,
        parse_u64_spec(trim(page_size_raw@)) matches Some(page) ==> vm_stat_available_pages(
            vm_stat_raw@,
        ) * page <= u64::MAX,
    ensures
        r == vm_stat_available_mib(vm_stat_raw@, page_size_raw@),
{
    let t = trim_exec(&chars_of(page_size_raw));
    let page = match parse_u64(&t) {
        Some(p) => p,
        None => {
            return None;
        },
    };
    let free = crate::probe::parse_vm_stat_pages(vm_stat_raw, "Pages free");
    let inactive = crate::probe::parse_vm_stat_pages(vm_stat_raw, "Pages inactive");
    let speculative = crate::probe::parse_vm_stat_pages(vm_stat_raw, "Pages speculative");
    let purgeable = crate::probe::parse_vm_stat_pages(vm_stat_raw, "Pages purgeable");
    let pages = free + inactive + speculative + purgeable;
    if pages > 0 {
        assert(pages * page <= u64::MAX);
        Some((pages * page) / (1024 * 1024))
    } else {
        None
    }
}

} // verus!
