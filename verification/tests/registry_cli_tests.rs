use dictator::cli::{
    is_first_run, onboarding_marker_path, onboarding_marker_under, parse_cli, updater_enabled, CliAction,
};
use dictator::model_store::{CatalogModel, ModelCatalog};
use dictator::registry::{parse_hex_u32, parse_reg_cpu_mhz, parse_reg_display_adapters, parse_reg_processor_name};
use dictator::runtime::{catalog_remote_model_refs, next_fallback_position};

const REG_VIDEO: &str = "
HKEY_LOCAL_MACHINE\\SYSTEM\\CurrentControlSet\\Control\\Video\\{1}\\0000
    DriverDesc    REG_SZ    NVIDIA GeForce RTX 3060

HKEY_LOCAL_MACHINE\\SYSTEM\\CurrentControlSet\\Control\\Video\\{2}\\0000
    DriverDesc    REG_SZ    Intel(R) UHD Graphics 770
    DriverDesc    REG_SZ
";

#[test]
fn registry_display_adapters() {
    let gpus = parse_reg_display_adapters(REG_VIDEO);
    let names: Vec<&str> = gpus.iter().map(|g| g.name.as_str()).collect();
    assert_eq!(names, vec!["NVIDIA GeForce RTX 3060", "Intel(R) UHD Graphics 770"]);
    assert!(gpus[0].cuda_compatible);
}

#[test]
fn registry_processor_values() {
    let raw = "\nHKEY_LOCAL_MACHINE\\HARDWARE\\DESCRIPTION\\System\\CentralProcessor\\0\n    ProcessorNameString    REG_SZ    13th Gen Intel(R) Core(TM) i7-13700K\n";
    assert_eq!(parse_reg_processor_name(raw), Some("13th Gen Intel(R) Core(TM) i7-13700K".to_string()));
    assert_eq!(parse_reg_processor_name("nothing here"), None);
    let mhz = "\nHKEY_LOCAL_MACHINE\\...\\0\n    ~MHz    REG_DWORD    0xd48\n";
    assert_eq!(parse_reg_cpu_mhz(mhz), Some(3400));
    assert_eq!(parse_reg_cpu_mhz("    ~MHz    REG_DWORD    0xzz\n"), None);
}

#[test]
fn hex_values() {
    let c = |s: &str| s.chars().collect::<Vec<char>>();
    assert_eq!(parse_hex_u32(&c("ff")), Some(255));
    assert_eq!(parse_hex_u32(&c("+1A")), Some(26));
    assert_eq!(parse_hex_u32(&c("")), None);
    assert_eq!(parse_hex_u32(&c("100000000")), None);
    assert_eq!(parse_hex_u32(&c("ffffffff")), Some(u32::MAX));
}

fn args(list: &[&str]) -> Vec<String> {
    list.iter().map(|s| s.to_string()).collect()
}

#[test]
fn command_line() {
    assert_eq!(parse_cli(&args(&[])), CliAction::Run);
    assert_eq!(parse_cli(&args(&["--foundation-fix", "--stop", "--toggle"])), CliAction::Stop);
    assert_eq!(
        parse_cli(&args(&["--foundation-check"])),
        CliAction::Diagnostics { fix: false, open_report: false }
    );
    assert_eq!(
        parse_cli(&args(&["--foundation-fix"])),
        CliAction::Diagnostics { fix: true, open_report: true }
    );
    assert_eq!(
        parse_cli(&args(&["--foundation-check", "--open-report"])),
        CliAction::Diagnostics { fix: false, open_report: true }
    );
    assert!(updater_enabled(Some("TRUE")));
    assert!(updater_enabled(Some("1")));
    assert!(!updater_enabled(Some("yes")));
    assert!(!updater_enabled(None));
}

#[test]
fn remote_refs_and_fallback_queue() {
    let m = |id: &str, file: Option<&str>, backends: &[&str]| CatalogModel {
        id: id.into(),
        family: "f".into(),
        display_name: id.into(),
        size_bytes: 0,
        quality_profile: "q".into(),
        speed_profile: "s".into(),
        supported_backends: backends.iter().map(|b| b.to_string()).collect(),
        recommended_tiers: vec![],
        download_filename: file.map(|f| f.to_string()),
        download_url: None,
        required_files: vec![],
    };
    let catalog = ModelCatalog {
        schema_version: "model_catalog.v1".into(),
        catalog_version: "1".into(),
        updated_at: "".into(),
        models: vec![
            m("nvidia/parakeet", None, &["Server"]),
            m("ggml", Some("ggml-base.bin"), &["server"]),
            m("local-only", None, &["embedded_whisper_rs"]),
        ],
    };
    assert_eq!(catalog_remote_model_refs(&catalog), vec!["nvidia/parakeet".to_string()]);
    assert_eq!(next_fallback_position(&[true, false, false], &[true, false, true]), Some(2));
    assert_eq!(next_fallback_position(&[true], &[true]), None);
}

#[test]
fn onboarding_marker_location() {
    let m = onboarding_marker_under("/data");
    assert!(m.starts_with("/data"));
    assert!(m.ends_with("onboarding_completed.marker"));
    assert!(m.contains("dictator") && m.contains("state"));
    assert!(onboarding_marker_path("/tmp").ends_with("onboarding_completed.marker"));
    let on_disk = |p: &str| std::path::Path::new(p).exists();
    assert!(is_first_run("/definitely/not/here/onboarding_completed.marker", &on_disk));
    assert!(!is_first_run("/data/dictator/state/onboarding_completed.marker", &|p: &str| p.ends_with(".marker")));
}
