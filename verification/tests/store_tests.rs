use dictator::config::WhisperBackend;
use dictator::model_store::{
    check_catalog_schema, check_store_schema, default_store, default_store_path,
    evaluate_model_health, model_health_verdict, upsert_model, upsert_runtime, CatalogModel,
    InstalledModel, InstalledRuntime, ModelCatalog, ModelStoreError, STORE_SCHEMA_VERSION,
};
use dictator::store_sync::{
    apply_store_sync, finalize_server_models, normalize_updated_by, plan_local_model,
    mark_active, server_runtime_root, sync_shared_model_store, LocalModelFile, ServerModelDir, StoreSyncInput,
};

#[test]
fn default_store_has_expected_schema() {
    let store = default_store("/tmp/models");
    assert_eq!(store.schema_version, STORE_SCHEMA_VERSION);
    assert_eq!(store.store_version, 1);
    assert_eq!(store.updated_by, "unknown");
    assert!(default_store_path("/tmp/models").ends_with("shared_model_store.v1.json"));
}

#[test]
fn schema_checks_refuse_other_versions() {
    let mut store = default_store("/m");
    assert!(check_store_schema(store.clone()).is_ok());
    store.schema_version = "shared_model_store.v2".to_string();
    match check_store_schema(store) {
        Err(ModelStoreError::UnexpectedStoreSchema(v)) => assert_eq!(v, "shared_model_store.v2"),
        _ => panic!("expected a schema error"),
    }
    let catalog = ModelCatalog {
        schema_version: "model_catalog.v0".into(),
        catalog_version: "1".into(),
        updated_at: "".into(),
        models: vec![],
    };
    assert!(matches!(
        check_catalog_schema(catalog),
        Err(ModelStoreError::UnexpectedCatalogSchema(_))
    ));
}

fn runtime(id: &str, path: &str) -> InstalledRuntime {
    InstalledRuntime {
        id: id.to_string(),
        display_name: id.to_string(),
        kind: "k".to_string(),
        version: None,
        entry_path: path.to_string(),
        disk_usage_bytes: None,
    }
}

fn model(id: &str, runtime_id: &str) -> InstalledModel {
    InstalledModel {
        id: id.to_string(),
        runtime_id: runtime_id.to_string(),
        directory_path: "/m".to_string(),
        size_bytes: None,
        is_default: None,
        health: "ok".to_string(),
        required_files: None,
        registered_at: None,
    }
}

#[test]
fn upserts_replace_by_id_ignoring_ascii_case() {
    let mut store = default_store("/m");
    upsert_runtime(&mut store, runtime("rt", "/a"));
    upsert_runtime(&mut store, runtime("RT", "/b"));
    assert_eq!(store.installed_runtimes.len(), 1);
    assert_eq!(store.installed_runtimes[0].entry_path, "/b");
    upsert_model(&mut store, model("m1", "rt"));
    upsert_model(&mut store, model("m2", "rt"));
    upsert_model(&mut store, model("M1", "other"));
    assert_eq!(store.installed_models.len(), 2);
    assert_eq!(store.installed_models[0].id, "M1");
    assert_eq!(store.installed_models[0].runtime_id, "other");
    let before = store.installed_models.len();
    upsert_model(&mut store, model("M1", "other"));
    assert_eq!(store.installed_models.len(), before);
}

#[test]
fn model_health_from_disk() {
    let on_disk = |p: &str| std::path::Path::new(p).exists();
    assert_eq!(evaluate_model_health("/definitely/not/a/dir/here", &["m.bin".to_string()], &on_disk), "missing_files");
    assert_eq!(model_health_verdict(true, &[true, true]), "ok");
    assert_eq!(model_health_verdict(true, &[true, false]), "missing_files");
    assert_eq!(model_health_verdict(false, &[]), "missing_files");
}

#[test]
fn updated_by_is_normalized() {
    assert_eq!(normalize_updated_by("contora"), "contora");
    assert_eq!(normalize_updated_by("manual"), "manual");
    assert_eq!(normalize_updated_by("someone"), "dictator");
}

fn catalog() -> ModelCatalog {
    ModelCatalog {
        schema_version: "model_catalog.v1".into(),
        catalog_version: "1".into(),
        updated_at: "".into(),
        models: vec![CatalogModel {
            id: "whisper-ggml-base".into(),
            family: "whisper_ggml".into(),
            display_name: "Base".into(),
            size_bytes: 147_951_465,
            quality_profile: "balanced".into(),
            speed_profile: "fast".into(),
            supported_backends: vec!["embedded_whisper_rs".into()],
            recommended_tiers: vec![],
            download_filename: Some("ggml-base.bin".into()),
            download_url: None,
            required_files: vec![],
        }],
    }
}

#[test]
fn local_models_take_catalog_ids() {
    let c = catalog();
    let (id, req) = plan_local_model("GGML-BASE.bin", Some(&c));
    assert_eq!(id, "whisper-ggml-base");
    assert_eq!(req, vec!["GGML-BASE.bin".to_string()]);
    let (id, req) = plan_local_model("custom.bin", Some(&c));
    assert_eq!(id, "custom.bin");
    assert_eq!(req, vec!["custom.bin".to_string()]);
}

fn input() -> StoreSyncInput {
    StoreSyncInput {
        updated_by: "dictator".into(),
        backend: WhisperBackend::Embedded,
        models_dir: "/models".into(),
        models_dir_size: Some(10),
        server_runtime_root: server_runtime_root("/models"),
        server_runtime_present: false,
        server_runtime_size: None,
        local_models: vec![
            LocalModelFile {
                path: "/models/ggml-base.bin".into(),
                file_name: Some("ggml-base.bin".into()),
                size_bytes: Some(5),
                is_active: true,
            },
            LocalModelFile { path: "/models/x".into(), file_name: None, size_bytes: None, is_active: false },
        ],
        server_models: vec![ServerModelDir {
            id: "parakeet".into(),
            path: "/models/runtime-models/parakeet".into(),
            exists: false,
            size_bytes: None,
            is_active: true,
        }],
        active_model_path: "/models/ggml-base.bin".into(),
        active_model_file_name: Some("ggml-base.bin".into()),
    }
}

#[test]
fn sync_rebuilds_managed_models() {
    let mut store = default_store("/old");
    upsert_model(&mut store, model("stale", "EMBEDDED_WHISPER_RS"));
    upsert_model(&mut store, model("kept", "contora_runtime"));
    let c = catalog();
    apply_store_sync(&mut store, &input(), Some(&c), &vec!["ok".to_string()], Some("2026-01-01T00:00:00Z"));
    assert_eq!(store.models_root_path, "/models");
    assert_eq!(store.active_runtime_id, Some("embedded_whisper_rs".to_string()));
    assert_eq!(store.active_model_id, Some("ggml-base.bin".to_string()));
    assert_eq!(store.updated_by, "dictator");
    assert_eq!(store.updated_at, Some("2026-01-01T00:00:00Z".to_string()));
    assert_eq!(store.installed_runtimes.len(), 1);
    assert_eq!(store.installed_runtimes[0].id, "embedded_whisper_rs");
    let ids: Vec<&str> = store.installed_models.iter().map(|m| m.id.as_str()).collect();
    assert_eq!(ids, vec!["kept", "whisper-ggml-base", "parakeet"]);
    assert_eq!(store.installed_models[1].is_default, Some(true));
    assert_eq!(store.installed_models[2].health, "missing_files");
    assert_eq!(store.installed_models[2].is_default, Some(false));
}

#[test]
fn sync_checks_health_on_disk() {
    let mut store = default_store("/old");
    sync_shared_model_store(&mut store, &input(), None, &|p: &str| std::path::Path::new(p).exists());
    assert_eq!(store.installed_models[0].id, "ggml-base.bin");
    assert_eq!(store.installed_models[0].health, "missing_files");
    let stamp = store.updated_at.clone().expect("sync stamps the store");
    assert_eq!(stamp.len(), 20);
    assert!(stamp.ends_with('Z'));
    assert_eq!(&stamp[10..11], "T");
}

#[test]
fn server_models_sorted_and_unique() {
    let found = vec![
        ("b".to_string(), "/1".to_string()),
        ("A".to_string(), "/2".to_string()),
        ("a".to_string(), "/3".to_string()),
    ];
    let out = finalize_server_models(&found);
    assert_eq!(out, vec![("A".to_string(), "/2".to_string()), ("b".to_string(), "/1".to_string())]);
}

#[test]
fn sync_without_clock_keeps_previous_stamp() {
    let mut store = default_store("/old");
    store.updated_at = Some("2025-05-05T05:05:05Z".to_string());
    let c = catalog();
    apply_store_sync(&mut store, &input(), Some(&c), &vec!["ok".to_string()], None);
    assert_eq!(store.updated_at, Some("2025-05-05T05:05:05Z".to_string()));
}

#[test]
fn local_ggml_models_filters_and_sorts() {
    let names = vec![
        "ggml-small.bin".to_string(),
        "notes.txt".to_string(),
        ".bin".to_string(),
        "ggml-base.bin".to_string(),
        "dir.bin".to_string(),
    ];
    let is_file = vec![true, true, true, true, false];
    assert_eq!(dictator::model_store::local_ggml_models(&names, &is_file), vec![3, 0]);
}

#[test]
fn model_health_asks_the_directory_and_each_file() {
    let present = |p: &str| p == "/models" || p == "/models/a.bin" || p == "/models/b.bin";
    let files = vec!["a.bin".to_string(), "b.bin".to_string()];
    assert_eq!(evaluate_model_health("/models", &files, &present), "ok");
    let more = vec!["a.bin".to_string(), "c.bin".to_string()];
    assert_eq!(evaluate_model_health("/models", &more, &present), "missing_files");
    assert_eq!(evaluate_model_health("/elsewhere", &files, &present), "missing_files");
}

#[test]
fn sync_marks_the_active_model_from_its_path() {
    let mut snapshot = input();
    snapshot.local_models[0].is_active = false;
    snapshot.server_models[0].is_active = true;
    snapshot.active_model_file_name = None;
    let marked = mark_active(&snapshot);
    assert!(marked.local_models[0].is_active);
    assert!(!marked.local_models[1].is_active);
    assert!(!marked.server_models[0].is_active);
    assert_eq!(marked.active_model_file_name, Some("ggml-base.bin".to_string()));
    let mut store = default_store("/old");
    sync_shared_model_store(&mut store, &snapshot, None, &|p: &str| p == "/models" || p == "/models/ggml-base.bin");
    assert_eq!(store.installed_models[0].is_default, Some(true));
    assert_eq!(store.installed_models[0].health, "ok");
    assert_eq!(store.active_model_id, Some("ggml-base.bin".to_string()));
}
