use dictator::compact;
use dictator::config::{
    default_audio_models_dir, migrate_backend_name, Config, ModelsDirEnv, PlatformDirsEnv,
    WhisperBackend, WhisperConfig,
};
use dictator::hardware::HostOs;

#[test]
fn config_test_default_config() {
    let config = Config::default();
    assert_eq!(config.hotkey.key, "right_ctrl");
    assert_eq!(config.audio.sample_rate, 16000);
    assert_eq!(config.memory.idle_unload_minutes, 5);
}

#[test]
fn test_default_config() {
    let config = compact::Config::default();
    assert_eq!(config.hotkey.key, "D");
    assert_eq!(config.audio.sample_rate, 16000);
}

#[test]
fn compact_defaults_match_the_client() {
    let config = compact::Config::default();
    assert_eq!(config.hotkey.modifiers, vec!["ctrl".to_string(), "shift".to_string()]);
    assert_eq!(config.whisper.model_path, "models/ggml-large-v3.bin");
    assert_eq!(config.whisper.language, "ru");
    assert!(!config.streaming.enabled);
    assert_eq!(config.streaming.poll_interval, 3);
    let streaming = compact::StreamingConfig::default();
    assert_eq!(streaming.poll_interval, 3);
}

#[test]
fn compact_config_path_ends_with_file_name() {
    assert!(compact::Config::config_path().ends_with("config.toml"));
}

fn no_env() -> ModelsDirEnv {
    ModelsDirEnv {
        audio_models_dir: None,
        whisper_models_dir: None,
        canonical: "C:\\Users\\u\\AppData\\Local\\AudioModels".to_string(),
        canonical_exists: false,
        legacy_dir: Some("C:\\Users\\u\\AppData\\Local\\whisper-models".to_string()),
        legacy_exists: false,
    }
}

fn whisper(models_dir: Option<&str>) -> WhisperConfig {
    WhisperConfig {
        model_path: "models/ggml-large-v3.bin".to_string(),
        language: "ru".into(),
        models_dir: models_dir.map(|s| s.to_string()),
        backend: WhisperBackend::Embedded,
    }
}

#[test]
fn test_whisper_models_dir_env_var() {
    let mut env = no_env();
    env.whisper_models_dir = Some("C:\\models\\shared".to_string());
    let dir = whisper(None).effective_models_dir(&env);
    assert_eq!(dir, Some("C:\\models\\shared".to_string()));
}

#[test]
fn models_dir_prefers_configured_then_environment() {
    let mut env = no_env();
    env.audio_models_dir = Some("/a".to_string());
    env.whisper_models_dir = Some("/w".to_string());
    assert_eq!(whisper(Some("/cfg")).effective_models_dir(&env), Some("/cfg".to_string()));
    assert_eq!(whisper(None).effective_models_dir(&env), Some("/a".to_string()));
}

#[test]
fn models_dir_falls_back_to_existing_dirs() {
    let mut env = no_env();
    assert_eq!(whisper(None).effective_models_dir(&env), Some("models".to_string()));
    let mut bare = whisper(None);
    bare.model_path = String::new();
    assert_eq!(bare.effective_models_dir(&env), None);
    env.legacy_exists = true;
    assert_eq!(whisper(None).effective_models_dir(&env), env.legacy_dir.clone());
    env.canonical_exists = true;
    assert_eq!(whisper(None).effective_models_dir(&env), Some(env.canonical.clone()));
}

#[test]
fn audio_models_dir_per_platform() {
    let env = PlatformDirsEnv {
        local_app_data: Some("C:\\Local".to_string()),
        home: Some("/home/u".to_string()),
        xdg_data_home: None,
    };
    assert_eq!(default_audio_models_dir(HostOs::Unknown, &env), "./audio-models");
    let linux = default_audio_models_dir(HostOs::Linux, &env);
    assert!(linux.starts_with("/home/u"));
    assert!(linux.ends_with("audio-models"));
    assert!(linux.contains(".local"));
    let mac = default_audio_models_dir(HostOs::Macos, &env);
    assert!(mac.starts_with("/home/u"));
    assert!(mac.ends_with("AudioModels"));
    let xdg = PlatformDirsEnv { xdg_data_home: Some("/data".to_string()), ..env };
    let l2 = default_audio_models_dir(HostOs::Linux, &xdg);
    assert!(l2.starts_with("/data"));
    assert!(l2.ends_with("audio-models"));
}

#[test]
fn backend_name_migration() {
    assert_eq!(migrate_backend_name("backend = \"embedded\""), None);
    assert_eq!(
        migrate_backend_name("backend = \"embedded_whisper_rs\"\nx = \"embedded_whisper_rs\""),
        Some("backend = \"embedded\"\nx = \"embedded\"".to_string())
    );
}
