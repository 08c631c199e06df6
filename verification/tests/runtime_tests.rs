use dictator::config::{RuntimePreference, WhisperBackend};
use dictator::hardware::{
    Accelerators, CpuInfo, GpuInfo, GpuVendor, HardwareProfile, HostArch, HostInfo, HostOs,
    MemoryInfo, Tier,
};
use dictator::runtime::{
    backend_to_str, configured_embedded_filename, normalize_remote_model_ref, plan_runtime_policy,
    DevicePreference, ModelProfile,
};

fn profile_with_tier(tier: Tier, cuda: bool) -> HardwareProfile {
    HardwareProfile {
        schema_version: "hardware_profile.v1".to_string(),
        generated_at_unix_s: 0,
        source_app: "dictator-test".to_string(),
        host: HostInfo {
            os: HostOs::Windows,
            arch: HostArch::X86_64,
            os_version: None,
            device_name: None,
        },
        cpu: CpuInfo {
            vendor: Some("Test".to_string()),
            model: "Test CPU".to_string(),
            physical_cores: 8,
            logical_cores: 16,
            max_clock_mhz: Some(4200),
        },
        memory: MemoryInfo { total_mb: 16384, available_mb: Some(8192) },
        gpus: vec![GpuInfo {
            name: "Test GPU".to_string(),
            vendor: if cuda { GpuVendor::Nvidia } else { GpuVendor::Intel },
            is_integrated: !cuda,
            vram_mb: if cuda { 12288 } else { 0 },
            cuda_compatible: cuda,
            metal_compatible: false,
            directml_compatible: true,
        }],
        accelerators: Accelerators { cuda, metal: false, directml: true, rocm: false },
        tier,
        confidence_percent: 90,
        notes: vec![],
    }
}

#[test]
fn prefers_installed_model_from_candidates() {
    let profile = profile_with_tier(Tier::High, true);
    let installed = vec!["ggml-medium.bin".to_string()];
    let catalog = vec!["ggml-large-v3.bin".to_string(), "ggml-medium.bin".to_string()];
    let policy = plan_runtime_policy(
        &profile,
        WhisperBackend::Embedded,
        None,
        RuntimePreference::Auto,
        &installed,
        &catalog,
        &[],
    );
    assert_eq!(policy.preferred_model, "ggml-medium.bin");
    assert!(!policy.needs_model_download);
}

#[test]
fn keeps_configured_model_first_when_installed() {
    let profile = profile_with_tier(Tier::Medium, false);
    let installed = vec!["ggml-small.bin".to_string()];
    let catalog = vec!["ggml-medium.bin".to_string(), "ggml-small.bin".to_string()];
    let policy = plan_runtime_policy(
        &profile,
        WhisperBackend::Embedded,
        Some("ggml-small.bin"),
        RuntimePreference::Auto,
        &installed,
        &catalog,
        &[],
    );
    assert_eq!(policy.preferred_model, "ggml-small.bin");
}

#[test]
fn force_cpu_sets_cpu_device_and_fast_profile() {
    let profile = profile_with_tier(Tier::High, true);
    let installed = vec!["ggml-base.bin".to_string()];
    let catalog = vec!["ggml-base.bin".to_string(), "ggml-small.bin".to_string()];
    let policy = plan_runtime_policy(
        &profile,
        WhisperBackend::Embedded,
        None,
        RuntimePreference::ForceCpu,
        &installed,
        &catalog,
        &[],
    );
    assert_eq!(policy.device, DevicePreference::Cpu);
    assert_eq!(policy.model_profile, ModelProfile::Fast);
}

#[test]
fn remote_model_ref_switches_policy_to_server_backend() {
    let profile = profile_with_tier(Tier::High, true);
    let installed = vec!["ggml-base.bin".to_string()];
    let catalog = vec!["ggml-base.bin".to_string(), "ggml-small.bin".to_string()];
    let remote = vec!["nvidia/parakeet-tdt-0.6b-v2".to_string()];
    let policy = plan_runtime_policy(
        &profile,
        WhisperBackend::Embedded,
        Some("nvidia/parakeet-tdt-0.6b-v2"),
        RuntimePreference::Auto,
        &installed,
        &catalog,
        &remote,
    );
    assert_eq!(policy.backend, WhisperBackend::Server);
    assert_eq!(policy.preferred_model, "nvidia/parakeet-tdt-0.6b-v2");
    assert!(policy.enable_server_fallback);
}

#[test]
fn fallbacks_skip_preferred_and_uncatalogued() {
    let profile = profile_with_tier(Tier::High, true);
    let installed = vec!["ggml-medium.bin".to_string()];
    let catalog = vec![
        "ggml-large-v3.bin".to_string(),
        "ggml-medium.bin".to_string(),
        "ggml-base.bin".to_string(),
    ];
    let policy = plan_runtime_policy(
        &profile,
        WhisperBackend::Embedded,
        None,
        RuntimePreference::Auto,
        &installed,
        &catalog,
        &[],
    );
    assert_eq!(
        policy.fallback_models,
        vec!["ggml-large-v3.bin".to_string(), "ggml-base.bin".to_string()]
    );
    assert_eq!(
        policy.summary_line(),
        "backend=embedded device=cuda profile=quality model=ggml-medium.bin fallbacks=[ggml-large-v3.bin, ggml-base.bin] download_needed=false server_fallback=false cloud_fallback=false"
    );
}

#[test]
fn missing_model_asks_for_download() {
    let profile = profile_with_tier(Tier::Low, false);
    let policy = plan_runtime_policy(
        &profile,
        WhisperBackend::Embedded,
        None,
        RuntimePreference::Auto,
        &[],
        &["ggml-base.bin".to_string()],
        &[],
    );
    assert_eq!(policy.preferred_model, "ggml-base.bin");
    assert!(policy.needs_model_download);
    assert!(policy.enable_server_fallback);
    assert!(policy.enable_cloud_fallback);
    assert_eq!(policy.device, DevicePreference::DirectMl);
    assert!(policy
        .reasons
        .contains(&"preferred model is not installed; download recommended".to_string()));
}

#[test]
fn remote_refs_and_file_names() {
    assert_eq!(normalize_remote_model_ref(" org/model "), Some("org/model".to_string()));
    assert_eq!(normalize_remote_model_ref("models/ggml-base.bin"), Some("models/ggml-base.bin".to_string()));
    assert_eq!(normalize_remote_model_ref("./models/x"), None);
    assert_eq!(normalize_remote_model_ref("C:\\models\\x"), None);
    assert_eq!(normalize_remote_model_ref("plain"), None);
    let catalog = vec!["GGML-SMALL.BIN".to_string()];
    assert_eq!(
        configured_embedded_filename("ggml-small.bin", &catalog),
        Some("ggml-small.bin".to_string())
    );
    assert_eq!(configured_embedded_filename("ggml-tiny.bin", &catalog), None);
    assert_eq!(backend_to_str(&WhisperBackend::Server), "server");
    assert_eq!(DevicePreference::DirectMl.as_str(), "directml");
    assert_eq!(ModelProfile::Balanced.as_str(), "balanced");
    assert_eq!(RuntimePreference::ForceGpu.as_str(), "force_gpu");
}

#[test]
fn configured_full_path_matches_catalog_file() {
    let profile = profile_with_tier(Tier::Medium, false);
    let installed = vec!["ggml-small.bin".to_string()];
    let catalog = vec!["ggml-medium.bin".to_string(), "ggml-small.bin".to_string()];
    let policy = plan_runtime_policy(
        &profile,
        WhisperBackend::Embedded,
        Some("C:/Users/me/AudioModels/ggml-small.bin"),
        RuntimePreference::Auto,
        &installed,
        &catalog,
        &[],
    );
    assert_eq!(policy.preferred_model, "ggml-small.bin");
    assert_eq!(policy.backend, WhisperBackend::Embedded);
    let relative = plan_runtime_policy(
        &profile,
        WhisperBackend::Embedded,
        Some("./models/ggml-small.bin"),
        RuntimePreference::Auto,
        &installed,
        &catalog,
        &[],
    );
    assert_eq!(relative.preferred_model, "ggml-small.bin");
}

#[test]
fn equal_inputs_plan_equal_policies() {
    let profile = profile_with_tier(Tier::Medium, false);
    let installed = vec!["ggml-small.bin".to_string()];
    let catalog = vec!["ggml-medium.bin".to_string(), "ggml-small.bin".to_string()];
    let plan = || {
        plan_runtime_policy(
            &profile,
            WhisperBackend::Embedded,
            Some("C:\\Users\\me\\AudioModels\\ggml-small.bin"),
            RuntimePreference::Auto,
            &installed,
            &catalog,
            &[],
        )
    };
    let (a, b) = (plan(), plan());
    assert_eq!(a.preferred_model, b.preferred_model);
    assert_eq!(a.fallback_models, b.fallback_models);
    assert_eq!(a.reasons, b.reasons);
    assert_eq!(a.backend, b.backend);
    assert_eq!(a.device, b.device);
    assert_eq!(a.needs_model_download, b.needs_model_download);
}
