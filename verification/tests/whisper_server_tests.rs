use dictator::hardware::HostOs;
use dictator::whisper_server::{
    find_server_script, profile_marker_path, script_candidates_from, server_script_candidates, profile_metadata, python_candidates, resolve_profile_metadata,
    runtime_hint, server_model_arg, RuntimeProfileMarker, ServerError, ServerStart,
    WhisperServerManager,
};

fn marker(model_ref: Option<&str>, local: Option<&str>, python: Option<&str>) -> RuntimeProfileMarker {
    RuntimeProfileMarker {
        model_id: Some("m".to_string()),
        execution_model_ref: model_ref.map(|s| s.to_string()),
        local_model_path: local.map(|s| s.to_string()),
        python_path: python.map(|s| s.to_string()),
    }
}

#[test]
fn server_runtime_hint_for_transformers_families() {
    assert_eq!(runtime_hint(Some("  NVIDIA/Parakeet-TDT-0.6b-v2 ")), Some("transformers".to_string()));
    assert_eq!(runtime_hint(Some("nvidia/canary-1b")), Some("transformers".to_string()));
    assert_eq!(runtime_hint(Some("IBM-Granite/granite-speech")), Some("transformers".to_string()));
    assert_eq!(runtime_hint(Some("openai/whisper-large-v3")), None);
    assert_eq!(runtime_hint(Some("   ")), None);
    assert_eq!(runtime_hint(None), None);
}

#[test]
fn server_profile_metadata_decisions() {
    let m = marker(Some("nvidia/parakeet-tdt"), Some("/models/a.bin"), Some("/venv/python"));
    assert_eq!(
        profile_metadata(&m, true, true),
        (Some("/venv/python".to_string()), Some("transformers".to_string()))
    );
    // Another local file: no hint; a missing interpreter: none.
    assert_eq!(profile_metadata(&m, false, false), (None, None));
    let no_local = marker(Some("nvidia/parakeet-tdt"), None, None);
    assert_eq!(profile_metadata(&no_local, true, false), (None, Some("transformers".to_string())));
}

#[test]
fn server_resolve_profile_metadata_compares_paths() {
    let m = marker(Some("nvidia/canary"), Some("/models/a.bin"), Some("/definitely/not/here/python"));
    assert_eq!(resolve_profile_metadata("/models/a.bin", &m), (None, Some("transformers".to_string())));
    assert_eq!(resolve_profile_metadata("/models/b.bin", &m), (None, None));
}

#[test]
fn server_marker_path_and_candidates() {
    let p = profile_marker_path("/data/audio-models", "ggml-base.bin");
    assert!(p.starts_with("/data/audio-models"));
    assert!(p.ends_with("ggml-base.bin.json"));
    assert!(p.contains("runtimes"));
    assert!(p.contains("profiles"));
    assert_eq!(python_candidates(HostOs::Windows, None), vec!["pythonw", "pyw"]);
    assert_eq!(python_candidates(HostOs::Linux, Some("/venv/bin/python")), vec!["/venv/bin/python", "python3", "python"]);
    assert_eq!(server_model_arg("  "), None);
    assert_eq!(server_model_arg("/m/ggml.bin"), Some("/m/ggml.bin".to_string()));
}

#[test]
fn server_manager_launch_then_stop() {
    let mut m = WhisperServerManager::new("/models/runtime-models/whisper-large".to_string(), None);
    assert!(m.python_executable.is_none());
    assert!(!m.is_server_running());
    m.set_preferred_device(Some("cuda".to_string()));
    match m.start_if_needed(false, HostOs::Linux) {
        ServerStart::Launch(l) => {
            assert_eq!(l.model_arg.as_deref(), Some("/models/runtime-models/whisper-large"));
            assert_eq!(l.python_candidates, vec!["python3".to_string(), "python".to_string()]);
            assert_eq!(l.device.as_deref(), Some("cuda"));
            assert!(l.runtime.is_none());
        }
        other => panic!("expected a launch, got {:?}", other),
    }
    m.mark_spawned();
    assert!(m.is_server_running());
    assert!(matches!(m.start_if_needed(false, HostOs::Linux), ServerStart::AlreadyStarted));
    assert!(matches!(m.start_if_needed(true, HostOs::Linux), ServerStart::AlreadyHealthy));
    assert_eq!(m.poll_ready(false, false), Ok(false));
    assert_eq!(m.poll_ready(true, false), Ok(true));
    assert!(m.stop_if_owned());
    assert!(!m.is_server_running());
    assert!(!m.owns_process);
    assert!(!m.stop_if_owned());
}

#[test]
fn server_manager_early_exit_releases_process() {
    let mut m = WhisperServerManager::new("   ".to_string(), None);
    match m.start_if_needed(false, HostOs::Windows) {
        ServerStart::Launch(l) => {
            assert!(l.model_arg.is_none());
            assert_eq!(l.python_candidates, vec!["pythonw".to_string(), "pyw".to_string()]);
        }
        other => panic!("expected a launch, got {:?}", other),
    }
    m.mark_spawned();
    assert_eq!(m.poll_ready(false, true), Err(ServerError::ExitedEarly));
    assert!(!m.is_server_running());
    assert!(!m.stop_if_owned());
    assert_eq!(WhisperServerManager::startup_wait(19_750, 20_000), Ok(()));
    assert_eq!(WhisperServerManager::startup_wait(20_000, 20_000), Err(ServerError::TimedOut));
}

#[test]
fn server_manager_uses_marker_metadata() {
    let mk = marker(Some("nvidia/parakeet-tdt-0.6b"), None, None);
    let mut m = WhisperServerManager::new("/m/parakeet".to_string(), Some(&mk));
    assert_eq!(m.runtime_hint.as_deref(), Some("transformers"));
    match m.start_if_needed(false, HostOs::Linux) {
        ServerStart::Launch(l) => assert_eq!(l.runtime.as_deref(), Some("transformers")),
        other => panic!("expected a launch, got {:?}", other),
    }
    m.set_model_path("/m/other".to_string(), None);
    assert_eq!(m.model_path, "/m/other");
    assert!(m.runtime_hint.is_none());
}

#[test]
fn script_candidates_walk_up_to_the_root() {
    let c = script_candidates_from("/a/b/c");
    assert_eq!(
        c,
        vec![
            "/a/b/c/whisper_server.py".to_string(),
            "/a/b/c/shared/whisper-server/whisper_server.py".to_string(),
            "/a/b/whisper_server.py".to_string(),
            "/a/b/shared/whisper-server/whisper_server.py".to_string(),
            "/a/whisper_server.py".to_string(),
            "/a/shared/whisper-server/whisper_server.py".to_string(),
            "/whisper_server.py".to_string(),
            "/shared/whisper-server/whisper_server.py".to_string(),
        ]
    );
}

#[test]
fn script_candidates_stop_after_six_levels() {
    let c = script_candidates_from("/1/2/3/4/5/6/7/8");
    assert_eq!(c.len(), 12);
    assert_eq!(c[0], "/1/2/3/4/5/6/7/8/whisper_server.py");
    assert_eq!(c[10], "/1/2/3/whisper_server.py");
    let rel = script_candidates_from("x");
    assert_eq!(rel.len(), 4);
    assert_eq!(rel[2], "whisper_server.py");
}

#[test]
fn script_candidates_exe_dir_first_then_cwd() {
    let c = server_script_candidates(Some("/opt/app"), "/home");
    assert_eq!(c.len(), 10);
    assert_eq!(c[0], "/opt/app/whisper_server.py");
    assert_eq!(c[6], "/home/whisper_server.py");
    assert_eq!(server_script_candidates(None, "/home").len(), 4);
}

#[test]
fn missing_server_script_is_an_error() {
    let on_disk = |p: &str| std::path::Path::new(p).exists();
    let r = find_server_script(Some("/nonexistent-dictator-exe/dir"), "/nonexistent-dictator-cwd", &on_disk);
    assert_eq!(r, Err(ServerError::ScriptNotFound));
}

#[test]
fn server_script_is_the_first_candidate_found() {
    let present = |p: &str| p == "/a/whisper_server.py" || p == "/whisper_server.py";
    assert_eq!(find_server_script(None, "/a/b", &present), Ok("/a/whisper_server.py".to_string()));
    let shared = |p: &str| p == "/x/shared/whisper-server/whisper_server.py";
    assert_eq!(
        find_server_script(Some("/opt"), "/x", &shared),
        Ok("/x/shared/whisper-server/whisper_server.py".to_string())
    );
}
