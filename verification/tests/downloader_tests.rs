use dictator::downloader::{
    default_download_url, default_models_dir, download_eta_seconds, download_paths,
    filename_to_short_name, get_downloadable_models, health_from_stats,
    model_health, FileStat,
};
use dictator::config::PlatformDirsEnv;
use dictator::hardware::HostOs;
use dictator::model_store::{CatalogModel, ModelCatalog};

fn cat_model(id: &str, file: Option<&str>, size: u64, backends: &[&str], family: &str) -> CatalogModel {
    CatalogModel {
        id: id.into(),
        family: family.into(),
        display_name: id.into(),
        size_bytes: size,
        quality_profile: "q".into(),
        speed_profile: "s".into(),
        supported_backends: backends.iter().map(|b| b.to_string()).collect(),
        recommended_tiers: vec![],
        download_filename: file.map(|f| f.to_string()),
        download_url: None,
        required_files: vec![],
    }
}

#[test]
fn fallback_list_when_no_catalog() {
    let models = get_downloadable_models(None);
    let names: Vec<&str> = models.iter().map(|m| m.name.as_str()).collect();
    assert_eq!(names, vec!["tiny", "base", "small", "medium", "large-v3-turbo", "large-v3"]);
    assert_eq!(models[1].filename, "ggml-base.bin");
    assert_eq!(models[1].size_mb, 74);
    assert_eq!(models[1].required_files, vec!["ggml-base.bin".to_string()]);
    assert_eq!(
        models[1].download_url,
        "https://huggingface.co/ggerganov/whisper.cpp/resolve/main/ggml-base.bin"
    );
}

#[test]
fn catalog_models_filtered_and_sorted() {
    let catalog = ModelCatalog {
        schema_version: "model_catalog.v1".into(),
        catalog_version: "1".into(),
        updated_at: "".into(),
        models: vec![
            cat_model("big", Some("ggml-big.bin"), 3 * 1048576 + 1, &["embedded_whisper_rs"], "whisper_ggml"),
            cat_model("small", Some("ggml-small.bin"), 1048576, &["x", "embedded_whisper_rs"], "whisper_ggml"),
            cat_model("nofile", None, 1, &["embedded_whisper_rs"], "whisper_ggml"),
            cat_model("server", Some("s.bin"), 1, &["server"], "whisper_ggml"),
            cat_model("other", Some("o.bin"), 1, &["embedded_whisper_rs"], "parakeet"),
        ],
    };
    let models = get_downloadable_models(Some(&catalog));
    let ids: Vec<&str> = models.iter().map(|m| m.id.as_str()).collect();
    assert_eq!(ids, vec!["small", "big"]);
    assert_eq!(models[0].size_mb, 1);
    assert_eq!(models[1].size_mb, 4);
    assert_eq!(models[1].name, "big");
}

#[test]
fn empty_catalog_falls_back() {
    let catalog = ModelCatalog {
        schema_version: "model_catalog.v1".into(),
        catalog_version: "1".into(),
        updated_at: "".into(),
        models: vec![],
    };
    assert_eq!(get_downloadable_models(Some(&catalog)).len(), 6);
}

#[test]
fn short_names() {
    assert_eq!(filename_to_short_name("ggml-base.bin"), "base");
    assert_eq!(filename_to_short_name("model.bin"), "model");
    assert_eq!(filename_to_short_name("ggml-base.gguf"), "ggml-base.gguf");
    assert_eq!(default_download_url("x.bin"), "https://huggingface.co/ggerganov/whisper.cpp/resolve/main/x.bin");
}

#[test]
fn health_refined_by_file_stats() {
    assert_eq!(health_from_stats("missing_files", &[]), "missing_files");
    assert_eq!(health_from_stats("ok", &[Some(FileStat { is_file: true, len: 10 })]), "ok");
    assert_eq!(health_from_stats("ok", &[Some(FileStat { is_file: true, len: 0 })]), "corrupt_file");
    assert_eq!(health_from_stats("ok", &[None, Some(FileStat { is_file: true, len: 0 })]), "missing_files");
    let m = &get_downloadable_models(None)[0];
    assert_eq!(model_health("/definitely/not/here", m, &[None], &|p: &str| std::path::Path::new(p).exists()), "missing_files");
    let everything = |_p: &str| true;
    assert_eq!(model_health("/models", m, &[Some(FileStat { is_file: true, len: 0 })], &everything), "corrupt_file");
}

#[test]
fn models_go_to_the_shared_directory() {
    let env = PlatformDirsEnv {
        local_app_data: Some("C:\\Users\\u\\AppData\\Local".to_string()),
        home: None,
        xdg_data_home: None,
    };
    assert_eq!(default_models_dir(HostOs::Unknown, &env), "./audio-models");
    let win = default_models_dir(HostOs::Windows, &env);
    assert!(win.starts_with("C:\\Users\\u\\AppData\\Local"));
    assert!(win.ends_with("AudioModels"));
}

#[test]
fn download_eta_and_paths() {
    assert_eq!(download_eta_seconds(1000, 400, 100), Some(6));
    assert_eq!(download_eta_seconds(1000, 400, 0), None);
    assert_eq!(download_eta_seconds(0, 400, 100), None);
    assert_eq!(download_eta_seconds(1000, 1500, 100), Some(0));
    let (dest, tmp) = download_paths("/models", "ggml-base.bin");
    assert!(dest.starts_with("/models") && dest.ends_with("ggml-base.bin"));
    assert!(tmp.starts_with("/models") && tmp.ends_with("ggml-base.bin.tmp"));
}
