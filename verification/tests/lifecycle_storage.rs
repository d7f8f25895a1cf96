use snippet_vault::errors::GenerationError;
use snippet_vault::lifecycle::{
    default_base_url, default_model_name, download_needed, model_file_name, model_file_url,
    model_status, tokenizer_file_name, tokenizer_file_url, ModelLifecycle,
};
use snippet_vault::storage::{FileStorageManager, MAX_FILE_SIZE};

#[test]
fn regeneration_gate_opens_only_once_loaded() {
    let mut lc = ModelLifecycle::new();
    assert!(matches!(
        lc.require_generator(),
        Err(GenerationError::ModelNotLoaded)
    ));
    assert!(lc.begin_load());
    assert!(matches!(
        lc.require_generator(),
        Err(GenerationError::ModelNotLoaded)
    ));
    lc.finish_load("all-MiniLM-L6-v2".to_string());
    assert!(lc.require_generator().is_ok());
}

#[test]
fn artifact_names_and_urls_follow_the_base_location() {
    assert_eq!(model_file_name(), "model.onnx");
    assert_eq!(tokenizer_file_name(), "tokenizer.json");
    assert_eq!(
        default_base_url("all-MiniLM-L6-v2"),
        "https://huggingface.co/sentence-transformers/all-MiniLM-L6-v2/resolve/main"
    );
    assert_eq!(
        model_file_url("https://example.test/base"),
        "https://example.test/base/onnx/model.onnx"
    );
    assert_eq!(
        tokenizer_file_url("https://example.test/base"),
        "https://example.test/base/tokenizer.json"
    );
}

#[test]
fn lifecycle_moves_unloaded_loading_loaded() {
    let mut lc = ModelLifecycle::new();
    assert!(!lc.is_loaded());
    assert!(!lc.is_loading());
    assert!(lc.loaded_version().is_none());

    assert!(lc.begin_load());
    assert!(!lc.is_loaded());
    assert!(lc.is_loading());
    assert!(!lc.begin_load(), "a second load must not start while one is in flight");

    lc.finish_load("all-MiniLM-L6-v2".to_string());
    assert!(lc.is_loaded());
    assert!(!lc.is_loading());
    assert_eq!(lc.loaded_version().unwrap(), "all-MiniLM-L6-v2");

    assert!(!lc.begin_load(), "a load must not start over a loaded model");
    lc.unload();
    assert!(!lc.is_loaded());
    assert!(lc.loaded_version().is_none());
}

#[test]
fn failed_load_returns_to_unloaded() {
    let mut lc = ModelLifecycle::new();
    assert!(lc.begin_load());
    lc.fail_load();
    assert!(!lc.is_loaded());
    assert!(lc.begin_load(), "a failed load must allow a retry");
}

#[test]
fn download_needed_when_either_artifact_is_missing() {
    assert!(!download_needed(true, true));
    assert!(download_needed(true, false));
    assert!(download_needed(false, true));
    assert!(download_needed(false, false));
}

#[test]
fn model_name_matches_the_shipped_model() {
    assert_eq!(default_model_name(), "all-MiniLM-L6-v2");
}

#[test]
fn status_reports_path_and_size_only_when_downloaded() {
    let info = model_status(
        "all-MiniLM-L6-v2".to_string(),
        "/models/model.onnx".to_string(),
        true,
        true,
        Some(90_000_000),
        true,
    );
    assert!(info.downloaded);
    assert!(info.loaded);
    assert_eq!(info.path.as_deref(), Some("/models/model.onnx"));
    assert_eq!(info.size, Some(90_000_000));

    let info = model_status(
        "all-MiniLM-L6-v2".to_string(),
        "/models/model.onnx".to_string(),
        true,
        false,
        Some(90_000_000),
        false,
    );
    assert!(!info.downloaded);
    assert!(!info.loaded);
    assert!(info.path.is_none());
    assert!(info.size.is_none());
    assert_eq!(info.name, "all-MiniLM-L6-v2");
}

#[test]
fn size_validation_is_a_fifty_megabyte_bound() {
    assert_eq!(MAX_FILE_SIZE, 50 * 1024 * 1024);
    assert!(FileStorageManager::validate_size(0).is_ok());
    assert!(FileStorageManager::validate_size(MAX_FILE_SIZE).is_ok());
    let err = FileStorageManager::validate_size(MAX_FILE_SIZE + 1).unwrap_err();
    assert_eq!(err, "File size exceeds maximum limit of 50MB");
}

#[test]
fn file_types_follow_the_lowercased_extension() {
    assert_eq!(FileStorageManager::detect_file_type("photo.JPG"), "image");
    assert_eq!(FileStorageManager::detect_file_type("movie.webm"), "video");
    assert_eq!(FileStorageManager::detect_file_type("song.m4a"), "audio");
    assert_eq!(FileStorageManager::detect_file_type("report.pdf"), "document");
    assert_eq!(FileStorageManager::detect_file_type("notes.md"), "text");
    assert_eq!(FileStorageManager::detect_file_type("main.rs"), "code");
    assert_eq!(FileStorageManager::detect_file_type("style.SCSS"), "code");
    assert_eq!(FileStorageManager::detect_file_type("run.sh"), "code");
    assert_eq!(FileStorageManager::detect_file_type("bundle.tar.gz"), "archive");
    assert_eq!(FileStorageManager::detect_file_type("setup.exe"), "executable");
    assert_eq!(FileStorageManager::detect_file_type("job.bat"), "script");
    assert_eq!(FileStorageManager::detect_file_type("README"), "other");
    assert_eq!(FileStorageManager::detect_file_type(".gitignore"), "other");
    assert_eq!(FileStorageManager::detect_file_type("trailing."), "other");
}

#[test]
fn mime_types_follow_the_lowercased_extension() {
    assert_eq!(
        FileStorageManager::get_mime_type("doc.pdf").as_deref(),
        Some("application/pdf")
    );
    assert_eq!(
        FileStorageManager::get_mime_type("INDEX.HTML").as_deref(),
        Some("text/html")
    );
    assert_eq!(
        FileStorageManager::get_mime_type("slides.pptx").as_deref(),
        Some(
            "application/vnd.openxmlformats-officedocument.presentationml.presentation"
        )
    );
    assert_eq!(FileStorageManager::get_mime_type("photo.jpeg").as_deref(), Some("image/jpeg"));
    assert!(FileStorageManager::get_mime_type("strange.unknown").is_none());
    assert!(FileStorageManager::get_mime_type("noextension").is_none());
}

#[test]
fn extension_comes_from_the_trailing_component() {
    assert_eq!(FileStorageManager::detect_file_type("dir/.gz"), "other");
    assert_eq!(FileStorageManager::detect_file_type("x.gz/"), "archive");
    assert_eq!(FileStorageManager::detect_file_type("dir.with.dots/plain"), "other");
    assert_eq!(FileStorageManager::detect_file_type("dir/archive.TAR.GZ"), "archive");
    assert_eq!(
        FileStorageManager::get_mime_type("docs/readme.MD").as_deref(),
        Some("text/markdown")
    );
    assert!(FileStorageManager::get_mime_type("notes.d/").is_none());
}

#[test]
fn sanitizing_strips_traversal_and_masks_unsafe_characters() {
    assert_eq!(
        FileStorageManager::sanitize_filename("../../etc/passwd"),
        "etcpasswd"
    );
    assert_eq!(
        FileStorageManager::sanitize_filename("my file!.txt"),
        "my file_.txt"
    );
    assert_eq!(FileStorageManager::sanitize_filename("a\\b\0c.txt"), "abc.txt");
    assert_eq!(
        FileStorageManager::sanitize_filename("notes (draft)-v2_final.md"),
        "notes (draft)-v2_final.md"
    );
    assert_eq!(FileStorageManager::sanitize_filename("..."), ".");
}

#[test]
fn storage_directory_is_kept_as_given() {
    let m = FileStorageManager::new("/data/files".to_string());
    assert_eq!(m.get_storage_dir(), "/data/files");
}
