use book_generator::config::Config;
use book_generator::service::{
    apply_llm_overrides, cancelled_status, content_type_for, downloadable_files,
    initial_metadata_text, is_downloadable, sorted_downloadable_files, is_in_flight, is_safe_path_component,
    prepare_job_config, restored_job_state, started_response, GenerateRequest,
};

fn base_request() -> GenerateRequest {
    GenerateRequest {
        book_id: "test-book".to_string(),
        title: "Test".to_string(),
        braindump: None,
        genre: None,
        style: None,
        characters: None,
        synopsis: None,
        chapter_count: None,
        author_name: None,
        llm_api_base: None,
        llm_model: None,
        llm_api_key: None,
    }
}

#[test]
fn override_switches_provider_and_never_reuses_platform_key() {
    let mut config = Config::default();
    config.llm_provider = "openai".to_string();
    config.openai_api_key = "platform-secret".to_string();

    let mut request = base_request();
    request.llm_api_base = Some("https://api.example.com/v1/".to_string());
    request.llm_model = Some("gpt-4o-mini".to_string());

    apply_llm_overrides(&mut config, &request);

    assert_eq!(config.llm_provider, "openai");
    assert_eq!(config.openai_api_base, "https://api.example.com/v1");
    assert_eq!(config.model, "gpt-4o-mini");
    assert_eq!(config.openai_api_key, "no-key");
}

#[test]
fn override_uses_supplied_key() {
    let mut config = Config::default();
    let mut request = base_request();
    request.llm_api_base = Some("https://llm.example.com/v1".to_string());
    request.llm_api_key = Some("user-key".to_string());

    apply_llm_overrides(&mut config, &request);

    assert_eq!(config.openai_api_key, "user-key");
}

#[test]
fn no_override_keeps_platform_config() {
    let mut config = Config::default();
    config.llm_provider = "openai".to_string();
    config.openai_api_key = "platform-secret".to_string();
    let base_before = config.openai_api_base.clone();

    apply_llm_overrides(&mut config, &base_request());

    assert_eq!(config.llm_provider, "openai");
    assert_eq!(config.openai_api_base, base_before);
    assert_eq!(config.openai_api_key, "platform-secret");
}

#[test]
fn model_only_override_keeps_endpoint() {
    let mut config = Config::default();
    let base_before = config.openai_api_base.clone();
    let mut request = base_request();
    request.llm_model = Some("long".to_string());

    apply_llm_overrides(&mut config, &request);

    assert_eq!(config.model, "long");
    assert_eq!(config.openai_api_base, base_before);
}

#[test]
fn rejects_unsafe_path_components() {
    assert!(!is_safe_path_component(""));
    assert!(!is_safe_path_component(".."));
    assert!(!is_safe_path_component("../etc"));
    assert!(!is_safe_path_component("a/b"));
    assert!(!is_safe_path_component("a\\b"));
    assert!(!is_safe_path_component(".hidden"));
    assert!(is_safe_path_component("book-123_v2"));
    assert!(is_safe_path_component("book.epub"));
}

#[test]
fn content_types_map_by_extension() {
    assert_eq!(content_type_for("book.pdf"), "application/pdf");
    assert_eq!(content_type_for("book.epub"), "application/epub+zip");
    assert_eq!(content_type_for("weird.bin"), "application/octet-stream");
}

#[test]
fn content_type_of_name_without_dot_uses_whole_name() {
    assert_eq!(content_type_for("md"), "text/markdown; charset=utf-8");
    assert_eq!(content_type_for("a.tar.json"), "application/json");
    assert_eq!(content_type_for("notes.html"), "text/html; charset=utf-8");
    assert_eq!(content_type_for("readme.txt"), "text/plain; charset=utf-8");
}

#[test]
fn blank_overrides_are_ignored() {
    let mut config = Config::default();
    config.openai_api_key = "platform-secret".to_string();
    let mut request = base_request();
    request.llm_api_base = Some("   ".to_string());
    request.llm_model = Some("\t".to_string());
    apply_llm_overrides(&mut config, &request);
    assert_eq!(config.llm_provider, "anthropic");
    assert_eq!(config.openai_api_key, "platform-secret");
    assert_eq!(config.model, "");
}

#[test]
fn blank_key_with_base_uses_no_key() {
    let mut config = Config::default();
    let mut request = base_request();
    request.llm_api_base = Some("  http://gw.local///  ".to_string());
    request.llm_api_key = Some("  ".to_string());
    apply_llm_overrides(&mut config, &request);
    assert_eq!(config.openai_api_base, "http://gw.local");
    assert_eq!(config.openai_api_key, "no-key");
    assert_eq!(config.llm_provider, "openai");
}

#[test]
fn job_config_sets_auto_generate_and_chapter_count() {
    let mut config = Config::default();
    let mut request = base_request();
    request.chapter_count = Some(5);
    request.llm_model = Some(" m ".to_string());
    prepare_job_config(&mut config, &request);
    assert!(config.auto_generate);
    assert_eq!(config.max_chapters, 5);
    assert_eq!(config.model, "m");
}

#[test]
fn downloadable_files_keep_outputs_in_order() {
    let names = vec![
        "book.pdf".to_string(),
        ".hidden.pdf".to_string(),
        "book.epub".to_string(),
        "image.png".to_string(),
        "notes.txt".to_string(),
    ];
    let kept = downloadable_files(&names);
    assert_eq!(kept, vec!["book.pdf".to_string(), "book.epub".to_string(), "notes.txt".to_string()]);
    assert!(is_downloadable("metadata.json"));
    assert!(!is_downloadable("a..md"));
}

#[test]
fn in_flight_jobs_are_failed_on_restart_and_cancelled_on_request() {
    assert!(is_in_flight("running"));
    assert!(is_in_flight("pending"));
    assert!(!is_in_flight("completed"));
    let (status, error) = restored_job_state("running").unwrap();
    assert_eq!(status, "failed");
    assert!(error.contains("restart"));
    assert!(restored_job_state("failed").is_none());
    assert_eq!(cancelled_status("pending"), "cancelled");
    assert_eq!(cancelled_status("completed"), "completed");
}

#[test]
fn started_response_and_initial_metadata() {
    let r = started_response("job-1");
    assert_eq!(r.job_id, "job-1");
    assert_eq!(r.status, "started");
    assert_eq!(r.message, "Book generation started. Poll job status for updates.");
    let mut request = base_request();
    request.genre = Some("Fantasy".to_string());
    let text = initial_metadata_text(&request);
    assert_eq!(
        text,
        "# Book Metadata\n\n## Title\nTest\n\n## Braindump\n\n\n## Genre\nFantasy\n\n## Style\n\n\n## Characters\n\n\n## Synopsis\n\n"
    );
}

#[test]
fn downloadable_files_listed_in_string_order() {
    let names: Vec<String> = ["notes.txt", "book.pdf", "Book.epub", ".hidden.md", "cover.png", "book.epub", "\u{e9}t\u{e9}.md", "z.md"]
        .iter()
        .map(|s| s.to_string())
        .collect();
    let listed = sorted_downloadable_files(&names);
    let mut expected: Vec<String> = ["notes.txt", "book.pdf", "Book.epub", "book.epub", "\u{e9}t\u{e9}.md", "z.md"]
        .iter()
        .map(|s| s.to_string())
        .collect();
    expected.sort();
    assert_eq!(listed, expected);
    assert_eq!(listed[0], "Book.epub");
    assert!(sorted_downloadable_files(&vec![]).is_empty());
}
