use dictator::config::RuntimePreference;
use dictator::settings::{
    about_text, download_details_text, download_list_label, file_size_label_bytes,
    installed_model_label, model_details_text, model_profile_hints, runtime_details_text,
    runtime_prefers_gpu, runtime_recommendation_text, server_device_hint, settings_command,
    settings_from_controls, storage_info_text, InstalledModel, RuntimeStatus, SettingsCommand,
    SettingsPage,
};

fn float_label(bytes: u64) -> String {
    format!(" ({:.2} MB)", bytes as f64 / (1024.0 * 1024.0))
}

#[test]
fn size_labels_match_float_formatting() {
    let samples: Vec<u64> = vec![
        0,
        1,
        5242,
        1048576,
        131072,
        393216,
        655360,
        1572864,
        147_951_465,
        3_095_033_483,
        (1u64 << 53) + 1,
        (1u64 << 53) + 3,
        u64::MAX,
        u64::MAX - 2047,
        12_345_678_901_234_567,
    ];
    for b in samples {
        assert_eq!(file_size_label_bytes(b), float_label(b), "bytes = {}", b);
    }
    assert_eq!(file_size_label_bytes(1048576), " (1.00 MB)");
}

#[test]
fn profile_hints() {
    assert_eq!(model_profile_hints("ggml-TINY.bin"), ("Speed 10/10", "Accuracy 5/10"));
    assert_eq!(model_profile_hints("ggml-large-v3.bin"), ("Speed 2/10", "Accuracy 10/10"));
    assert_eq!(model_profile_hints("parakeet"), ("Speed --", "Accuracy --"));
}

#[test]
fn recommendation_text() {
    let rs = RuntimeStatus {
        backend: "embedded".into(),
        device: "CPU".into(),
        preferred_model: "".into(),
        fallback_chain: "".into(),
        server_fallback: false,
        cloud_fallback: false,
        last_stage: "".into(),
        hardware_summary: "".into(),
        storage_summary: "".into(),
    };
    assert_eq!(
        runtime_recommendation_text(&rs),
        "System profile: backend=embedded on CPU.\r\nRecommended: balanced model (Tiny/Base). Prioritize stability over maximum accuracy.\r\nIf speed is low, use a smaller model. If quality is low, use a larger model."
    );
}

#[test]
fn device_hints() {
    assert_eq!(server_device_hint(&RuntimePreference::ForceGpu), Some("cuda".to_string()));
    assert_eq!(server_device_hint(&RuntimePreference::Auto), Some("auto".to_string()));
    assert!(!runtime_prefers_gpu(&RuntimePreference::ForceCpu));
    assert!(runtime_prefers_gpu(&RuntimePreference::Auto));
}

fn installed(name: &str, size: &str, active: bool) -> InstalledModel {
    InstalledModel {
        path: format!("/models/{}", name),
        name: name.to_string(),
        size_label: size.to_string(),
        is_active: active,
    }
}

#[test]
fn settings_lists_and_details() {
    assert_eq!(installed_model_label(&installed("ggml-base.bin", " (141.11 MB)", true)), "ggml-base.bin (141.11 MB)  [active]");
    assert_eq!(installed_model_label(&installed("x.bin", "", false)), "x.bin");
    assert_eq!(download_list_label("base", 142, true), "base  |  142 MB  [installed]");
    assert_eq!(download_list_label("tiny", 75, false), "tiny  |  75 MB");
    assert_eq!(
        model_details_text(&installed("ggml-small.bin", "", false)),
        "Name: ggml-small.bin\r\nSize: unknown\r\nSpeed 6/10\r\nAccuracy 8/10\r\nBest for: manual switch available"
    );
    assert_eq!(
        download_details_text("large-v3", "ggml-large-v3.bin", 2952, false),
        "Name: large-v3\r\nFile: ggml-large-v3.bin\r\nSize: 2952 MB\r\nSpeed 2/10\r\nAccuracy 10/10\r\nStatus: not installed"
    );
}

#[test]
fn settings_panels() {
    let rs = RuntimeStatus {
        backend: "embedded".into(),
        device: "gpu".into(),
        preferred_model: "ggml-base.bin".into(),
        fallback_chain: "a -> b".into(),
        server_fallback: true,
        cloud_fallback: false,
        last_stage: "embedded_primary".into(),
        hardware_summary: "hw".into(),
        storage_summary: "st".into(),
    };
    assert_eq!(
        runtime_details_text(&rs),
        "Backend: embedded\r\nDevice: gpu\r\nPreferred model: ggml-base.bin\r\nFallback chain: a -> b\r\nServer fallback: enabled\r\nCloud fallback: disabled\r\nLast stage: embedded_primary\r\n\r\nHardware summary:\r\nhw"
    );
    assert_eq!(
        storage_info_text("/m", "/s.json", "st", 30),
        "Shared models directory:\r\n/m\r\n\r\nShared store metadata:\r\n/s.json\r\n\r\nst\r\n\r\nHistory retention: 30 days"
    );
    assert_eq!(
        about_text("Right Ctrl", false),
        "Dictator for Windows\r\nVersion: 0.3.x alpha\r\n\r\nHotkey profile:\r\nRight Ctrl\r\n\r\nHistory: disabled\r\n\r\nAll settings are applied instantly."
    );
}

#[test]
fn settings_read_back_from_controls() {
    let s = settings_from_controls(1, 2, true, "http://h:1", "m", " 12 ");
    assert_eq!(s.injection_method, "clipboard");
    assert_eq!(s.runtime_mode, "force_cpu");
    assert!(s.llm_enabled);
    assert_eq!(s.ollama_url, "http://h:1");
    assert_eq!(s.ollama_model, "m");
    assert_eq!(s.idle_unload_minutes, 12);
    let d = settings_from_controls(-1, 0, false, "", "", "soon");
    assert_eq!(d.injection_method, "direct");
    assert_eq!(d.runtime_mode, "auto");
    assert_eq!(d.idle_unload_minutes, 5);
    assert_eq!(settings_from_controls(2, 1, false, "", "", "4294967296").idle_unload_minutes, 5);
    assert_eq!(settings_from_controls(2, 1, false, "", "", "+7").idle_unload_minutes, 7);
    assert_eq!(settings_from_controls(2, 1, false, "", "", "").runtime_mode, "force_gpu");
}

#[test]
fn settings_commands_dispatch() {
    assert_eq!(settings_command(1001, 0), SettingsCommand::ShowPage(SettingsPage::Models));
    assert_eq!(settings_command(1005, 0), SettingsCommand::ShowPage(SettingsPage::About));
    assert_eq!(settings_command(1101, 1), SettingsCommand::ShowModelDetails);
    assert_eq!(settings_command(1101, 0), SettingsCommand::Ignore);
    assert_eq!(settings_command(1301, 1), SettingsCommand::ApplySettings);
    assert_eq!(settings_command(1301, 0), SettingsCommand::Ignore);
    assert_eq!(settings_command(1302, 0), SettingsCommand::ApplySettings);
    assert_eq!(settings_command(1305, 0x0200), SettingsCommand::ApplySettings);
    assert_eq!(settings_command(1305, 1), SettingsCommand::Ignore);
    assert_eq!(settings_command(1107, 0), SettingsCommand::DownloadSelectedModel);
    assert_eq!(settings_command(1502, 0), SettingsCommand::Close);
    assert_eq!(settings_command(9999, 0), SettingsCommand::Ignore);
}

#[test]
fn settings_host_arguments() {
    let args = dictator::settings::settings_host_args("c.toml", "m", "s.json", "h", "a", "t", true);
    assert_eq!(
        args,
        vec![
            "--config", "c.toml", "--models-dir", "m", "--store-path", "s.json", "--history-dir", "h",
            "--audio-dir", "a", "--transcripts-dir", "t", "--onboarding"
        ]
    );
    let plain = dictator::settings::settings_host_args("c", "m", "s", "h", "a", "t", false);
    assert_eq!(plain.len(), 12);
}
