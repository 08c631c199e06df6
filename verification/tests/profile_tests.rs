use dictator::hardware::{build_gpu, CpuInfo, HostArch, HostInfo, HostOs, MemoryInfo, Tier};
use dictator::profile::{
    available_mib_from_vm_stat, build_hardware_profile, cpu_info_from, host_arch_of, host_os_of,
    mib_from_bytes_text, mib_from_kib_text,
};

#[test]
fn host_names() {
    assert_eq!(host_os_of("linux"), HostOs::Linux);
    assert_eq!(host_os_of("freebsd"), HostOs::Unknown);
    assert_eq!(host_arch_of("aarch64"), HostArch::Arm64);
    assert_eq!(host_arch_of("riscv64"), HostArch::Unknown);
}

#[test]
fn cpu_record_defaults() {
    let c = cpu_info_from(None, None, None, None);
    assert_eq!(c.logical_cores, 1);
    assert_eq!(c.physical_cores, 1);
    assert_eq!(c.model, "Unknown CPU");
    assert_eq!(c.vendor, None);
    let c = cpu_info_from(Some(16), Some(8), Some("AMD Ryzen 7".into()), Some(4200));
    assert_eq!(c.vendor, Some("amd".to_string()));
    assert_eq!(c.physical_cores, 8);
}

#[test]
fn profile_notes_and_tier() {
    let host = HostInfo { os: HostOs::Linux, arch: HostArch::X86_64, os_version: None, device_name: None };
    let cpu = CpuInfo { vendor: None, model: "x".into(), physical_cores: 1, logical_cores: 1, max_clock_mhz: None };
    let p = build_hardware_profile("dictator", host, cpu, MemoryInfo { total_mb: 0, available_mb: None }, vec![], "/m", 42);
    assert_eq!(p.schema_version, "hardware_profile.v1");
    assert_eq!(p.tier, Tier::Unknown);
    assert_eq!(p.confidence_percent, 30);
    assert_eq!(
        p.notes,
        vec![
            "unknown tier: insufficient probe data".to_string(),
            "warning: total RAM detection failed".to_string(),
            "note: cpu max clock unavailable (fallback path used)".to_string(),
            "note: no GPU detected by current probes".to_string(),
            "default_audio_models_dir=/m".to_string(),
        ]
    );
    let host = HostInfo { os: HostOs::Windows, arch: HostArch::X86_64, os_version: None, device_name: None };
    let cpu = CpuInfo { vendor: None, model: "x".into(), physical_cores: 1, logical_cores: 1, max_clock_mhz: Some(3000) };
    let p = build_hardware_profile("d", host, cpu, MemoryInfo { total_mb: 32768, available_mb: None }, vec![build_gpu("NVIDIA RTX 4090", 24564)], "/m", 1);
    assert_eq!(p.tier, Tier::High);
    assert!(p.accelerators.cuda && p.accelerators.directml && !p.accelerators.rocm);
    assert_eq!(p.notes.len(), 2);
}

#[test]
fn memory_from_probe_text() {
    assert_eq!(mib_from_kib_text(" 16384000 "), Some(16000));
    assert_eq!(mib_from_kib_text("n/a"), None);
    assert_eq!(mib_from_bytes_text("17179869184"), Some(16384));
    let vm = "Pages free: 1000.\nPages inactive: 2000.\nPages speculative: 48.\nPages purgeable: 24.\n";
    assert_eq!(available_mib_from_vm_stat(vm, "16384"), Some(48));
    assert_eq!(available_mib_from_vm_stat("", "16384"), None);
    assert_eq!(available_mib_from_vm_stat(vm, "x"), None);
}

#[test]
fn clock_rate_from_hz_text() {
    assert_eq!(dictator::profile::mhz_from_hz_text("3200000000"), Some(3200));
    assert_eq!(dictator::profile::mhz_from_hz_text("999999"), Some(0));
    assert_eq!(dictator::profile::mhz_from_hz_text("3.2GHz"), None);
}
