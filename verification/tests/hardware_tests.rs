use dictator::hardware::{
    build_gpu, detect_cpu_vendor, is_probably_cuda_capable, normalize_memory_to_mb, score_tier,
    GpuInfo, GpuVendor,
    MemoryInfo, Tier,
};
use dictator::probe::{
    compose_lshw_gpu_name, gpus_from_display_entries, merge_detected_gpus,
    parse_linux_lshw_display, parse_linux_lspci, parse_macos_system_profiler_json,
    parse_macos_system_profiler_text, parse_nvidia_smi_csv, parse_vm_stat_pages, DisplayEntry,
};
use dictator::size::parse_size_to_mb;

const MACOS_SPDISPLAYS_TXT: &str = "Graphics/Displays:

    Apple M3 Max:

      Chipset Model: Apple M3 Max
      Type: GPU
      Bus: Built-In
      Total Number of Cores: 40

    AMD Radeon Pro 5600M:

      Chipset Model: AMD Radeon Pro 5600M
      Type: GPU
      Bus: PCIe
      VRAM (Total): 8 GB
";

const MACOS_SPDISPLAYS_JSON: &str = r#"{
  "SPDisplaysDataType" : [
    {
      "_name" : "kHW_AppleM3MaxItem",
      "sppci_bus" : "spdisplays_builtin",
      "sppci_cores" : "40",
      "sppci_model" : "Apple M3 Max"
    },
    {
      "_name" : "kHW_AMDRadeonPro5600MItem",
      "sppci_bus" : "spdisplays_pcie_device",
      "sppci_model" : "AMD Radeon Pro 5600M",
      "spdisplays_vram" : "8 GB"
    }
  ]
}"#;

const LINUX_LSPCI_GPU: &str = "01:00.0 VGA compatible controller: NVIDIA Corporation GA102 [GeForce RTX 3090] (rev a1)
0a:00.0 VGA compatible controller: Advanced Micro Devices, Inc. [AMD/ATI] Navi 22 [Radeon RX 6700 XT] (rev c1)
";

const LINUX_LSHW_DISPLAY: &str = "  *-display
       description: VGA compatible controller
       product: GA102 [GeForce RTX 3090]
       vendor: NVIDIA Corporation
       physical id: 0
       size: 24GiB
  *-display
       description: VGA compatible controller
       product: Navi 22 [Radeon RX 6700 XT]
       vendor: Advanced Micro Devices, Inc. [AMD/ATI]
       physical id: 1
       size: 12GiB
";

const MACOS_VM_STAT: &str = "Mach Virtual Memory Statistics: (page size of 16384 bytes)
Pages free:                                    1024.
Pages active:                                 50000.
Pages inactive:                               64000.
Pages speculative:                              512.
Pages throttled:                                  0.
Pages wired down:                             20000.
Pages purgeable:                                128.
";

#[test]
fn fixture_parse_macos_system_profiler_text_is_stable() {
    let gpus = parse_macos_system_profiler_text(MACOS_SPDISPLAYS_TXT);
    assert_eq!(gpus.len(), 2);
    assert!(gpus.iter().all(|g| !matches!(g.vendor, GpuVendor::Unknown)));
}

#[test]
fn fixture_parse_linux_lspci_is_stable() {
    let gpus = parse_linux_lspci(LINUX_LSPCI_GPU);
    assert_eq!(gpus.len(), 2);
    assert!(gpus.iter().any(|g| matches!(g.vendor, GpuVendor::Nvidia)));
    assert!(gpus.iter().any(|g| matches!(g.vendor, GpuVendor::Amd)));
}

#[test]
fn fixture_parse_linux_lshw_is_stable() {
    let gpus = parse_linux_lshw_display(LINUX_LSHW_DISPLAY);
    assert_eq!(gpus.len(), 2);
    assert!(gpus.iter().any(|g| g.vram_mb >= 24 * 1024));
    assert!(gpus.iter().any(|g| g.vram_mb >= 12 * 1024));
}

#[test]
fn fixture_parse_vm_stat_pages_is_stable() {
    assert_eq!(parse_vm_stat_pages(MACOS_VM_STAT, "Pages free"), 1024);
    assert_eq!(parse_vm_stat_pages(MACOS_VM_STAT, "Pages inactive"), 64000);
    assert_eq!(parse_vm_stat_pages(MACOS_VM_STAT, "Pages purgeable"), 128);
}

#[test]
fn fixture_score_tier_is_stable() {
    let mem_high = MemoryInfo { total_mb: 32768, available_mb: Some(16000) };
    let gpu_high = vec![build_gpu("NVIDIA GeForce RTX 3090", 24576)];
    let (tier_h, _, _) = score_tier(&mem_high, &gpu_high);
    assert!(matches!(tier_h, Tier::High));

    let mem_mid = MemoryInfo { total_mb: 16384, available_mb: Some(8000) };
    let gpu_mid = vec![build_gpu("Intel Iris Xe", 1024)];
    let (tier_m, _, _) = score_tier(&mem_mid, &gpu_mid);
    assert!(matches!(tier_m, Tier::Medium));

    let mem_low = MemoryInfo { total_mb: 4096, available_mb: Some(1000) };
    let gpu_low = vec![build_gpu("Intel HD Graphics 4000", 0)];
    let (tier_l, _, _) = score_tier(&mem_low, &gpu_low);
    assert!(matches!(tier_l, Tier::Low));
}

#[test]
fn score_tier_confidence_and_notes() {
    let (t, c, notes) = score_tier(&MemoryInfo { total_mb: 0, available_mb: None }, &[]);
    assert_eq!(t, Tier::Unknown);
    assert_eq!(c, 30);
    assert_eq!(notes, vec!["unknown tier: insufficient probe data".to_string()]);
    let (t, c, _) = score_tier(&MemoryInfo { total_mb: 32768, available_mb: None }, &[]);
    assert_eq!(t, Tier::Medium);
    assert_eq!(c, 75);
}

#[test]
fn build_gpu_classifies_vendors() {
    let g = build_gpu("NVIDIA GeForce RTX 4090", 24564);
    assert_eq!(g.vendor, GpuVendor::Nvidia);
    assert!(g.cuda_compatible && g.directml_compatible && !g.metal_compatible);
    let a = build_gpu("Apple M2", 0);
    assert_eq!(a.vendor, GpuVendor::Apple);
    assert!(a.metal_compatible && !a.cuda_compatible);
    let i = build_gpu("Intel Iris Xe Graphics", 0);
    assert_eq!(i.vendor, GpuVendor::Intel);
    assert!(i.is_integrated);
    let u = build_gpu("Matrox G200", 16);
    assert_eq!(u.vendor, GpuVendor::Unknown);
    assert!(!u.directml_compatible);
}

#[test]
fn nvidia_smi_csv_lines() {
    let gpus = parse_nvidia_smi_csv("NVIDIA GeForce RTX 3090, 24576\n, 100\nbroken line\nTesla T4, abc\n");
    assert_eq!(gpus.len(), 2);
    assert_eq!(gpus[0].name, "NVIDIA GeForce RTX 3090");
    assert_eq!(gpus[0].vram_mb, 24576);
    assert_eq!(gpus[1].name, "Tesla T4");
    assert_eq!(gpus[1].vram_mb, 0);
}

#[test]
fn lshw_names_compose() {
    assert_eq!(
        compose_lshw_gpu_name(&Some(" NVIDIA ".into()), &Some(" RTX ".into())),
        Some("NVIDIA RTX".to_string())
    );
    assert_eq!(compose_lshw_gpu_name(&None, &Some("X".into())), Some("X".to_string()));
    assert_eq!(compose_lshw_gpu_name(&Some("  ".into()), &Some("  ".into())), None);
    assert_eq!(compose_lshw_gpu_name(&None, &None), None);
}

#[test]
fn size_units() {
    assert_eq!(parse_size_to_mb("24GiB"), Some(24576));
    assert_eq!(parse_size_to_mb(" 512MB "), Some(512));
    assert_eq!(parse_size_to_mb("2048KiB"), Some(2));
    assert_eq!(parse_size_to_mb("1.5GB"), Some(1536));
    assert_eq!(parse_size_to_mb("12"), None);
    assert_eq!(parse_size_to_mb("GB"), None);
}

#[test]
fn memory_units() {
    assert_eq!(normalize_memory_to_mb(16 * 1024 * 1024), 16384);
    assert_eq!(normalize_memory_to_mb(8 * 1024 * 1024 * 1024), 8192);
}

#[test]
fn cpu_vendors() {
    assert_eq!(detect_cpu_vendor("Intel(R) Core(TM) i7"), Some("intel".to_string()));
    assert_eq!(detect_cpu_vendor("AMD Ryzen 9"), Some("amd".to_string()));
    assert_eq!(detect_cpu_vendor("Apple M3 Max"), Some("apple".to_string()));
    assert_eq!(detect_cpu_vendor("Unknown CPU"), None);
}

#[test]
fn merged_gpus_are_sorted_and_unique() {
    let gpus: Vec<GpuInfo> = vec![
        build_gpu("NVIDIA GeForce RTX 3090", 24576),
        build_gpu("AMD Radeon", 0),
        build_gpu("nvidia geforce rtx 3090", 0),
    ];
    let merged = merge_detected_gpus(&gpus);
    let names: Vec<&str> = merged.iter().map(|g| g.name.as_str()).collect();
    assert_eq!(names, vec!["AMD Radeon", "NVIDIA GeForce RTX 3090"]);
    assert_eq!(merged[1].vram_mb, 24576);
}

#[test]
fn cuda_capable_product_lines() {
    assert!(is_probably_cuda_capable("nvidia geforce rtx 3090"));
    assert!(is_probably_cuda_capable("nvidia quadro p4000"));
    assert!(is_probably_cuda_capable("tesla t4"));
    assert!(!is_probably_cuda_capable("nvidia geforce mx150"));
    assert!(!is_probably_cuda_capable("intel iris xe"));
}

#[test]
fn fixture_parse_macos_system_profiler_json_is_stable() {
    let gpus = parse_macos_system_profiler_json(MACOS_SPDISPLAYS_JSON);
    assert_eq!(gpus.len(), 2);
    assert!(gpus.iter().any(|g| g.name.contains("Apple M3 Max")));
    assert!(gpus.iter().any(|g| g.name.contains("Radeon Pro 5600M")));
}

#[test]
fn macos_json_falls_back_to_entry_name_and_skips_blank() {
    let raw = r#"{"SPDisplaysDataType":[{"_name":"  NVIDIA GeForce GT 750M  "},{"sppci_model":"   "},{"sppci_model":7,"_name":"Ignored"}]}"#;
    let gpus = parse_macos_system_profiler_json(raw);
    assert_eq!(gpus.len(), 1);
    assert_eq!(gpus[0].name, "NVIDIA GeForce GT 750M");
    assert!(matches!(gpus[0].vendor, GpuVendor::Nvidia));
    assert_eq!(gpus[0].vram_mb, 0);
}

#[test]
fn macos_json_without_display_array_gives_nothing() {
    assert!(parse_macos_system_profiler_json("not json").is_empty());
    assert!(parse_macos_system_profiler_json("{}").is_empty());
    assert!(parse_macos_system_profiler_json(r#"{"SPDisplaysDataType":{}}"#).is_empty());
}

#[test]
fn display_entries_pick_model_else_name() {
    let entries = vec![
        DisplayEntry { has_model: true, model: Some(" Apple M2 ".to_string()), name: Some("x".to_string()) },
        DisplayEntry { has_model: false, model: None, name: Some("AMD Radeon RX 580".to_string()) },
        DisplayEntry { has_model: true, model: None, name: Some("unused".to_string()) },
    ];
    let gpus = gpus_from_display_entries(&entries);
    assert_eq!(gpus.len(), 2);
    assert_eq!(gpus[0].name, "Apple M2");
    assert!(matches!(gpus[1].vendor, GpuVendor::Amd));
}
