use book_generator::files::{
    extract_chapter_number, extract_scene_number, sanitize_directory_name, sanitize_filename,
    scene_number_checked, should_remove_log,
};
use book_generator::loader::find_existing_content_file;
use book_generator::metadata::{read_metadata_section, read_metadata_section_safe, update_metadata_text};
use book_generator::tokens::{
    log_tokens, log_with_tracker, prompt_log_file_name, prompt_log_text, TokenTracker,
};

#[test]
fn directory_name_is_lower_case_with_single_dashes() {
    assert_eq!(sanitize_directory_name("My Great Book!"), "my-great-book");
    assert_eq!(sanitize_directory_name("  Hello -- World  "), "hello--world");
    assert_eq!(sanitize_directory_name("---"), "");
}

#[test]
fn file_name_keeps_spaces_and_replaces_symbols() {
    assert_eq!(sanitize_filename("My Book: Part 1/2"), "My Book- Part 1-2");
    assert_eq!(sanitize_filename(" a.b "), "a-b");
    assert_eq!(sanitize_filename("under_score-dash"), "under_score-dash");
}

#[test]
fn scene_number_from_file_names() {
    assert_eq!(extract_scene_number("content_generation_ch1_scene2.txt"), Some(2));
    assert_eq!(extract_scene_number("scene12"), Some(12));
    assert_eq!(extract_scene_number("chapter_1_scene_3.md"), None);
    assert_eq!(extract_scene_number("scene_3_content.md"), Some(3));
    assert_eq!(extract_scene_number("chapter_1_scene_4_text.md"), Some(4));
    assert_eq!(extract_scene_number("scene_generation_ch2_scene3.txt"), Some(3));
    assert_eq!(extract_scene_number("notes.md"), None);
}

#[test]
fn chapter_number_from_file_names() {
    assert_eq!(extract_chapter_number("chapter_12_scene_3.md"), Some(12));
    assert_eq!(extract_chapter_number("content_generation_ch3_scene1.txt"), Some(3));
    assert_eq!(extract_chapter_number("chapter_x"), None);
    assert_eq!(extract_chapter_number("notes.md"), None);
}

#[test]
fn essential_logs_survive_cleanup() {
    assert!(!should_remove_log("chapter_1.md", true, 1_000_000_000, 0, 7));
    assert!(!should_remove_log("scene_generation_2.txt", true, 1_000_000_000, 0, 7));
    assert!(should_remove_log("chapter_1.md", false, 700_000, 0, 7));
    assert!(should_remove_log("chapter_generation_1_token_usage.txt", true, 700_000, 0, 7));
}

#[test]
fn logs_are_removed_only_past_retention() {
    assert!(!should_remove_log("notes.txt", true, 604_800, 0, 7));
    assert!(should_remove_log("notes.txt", true, 604_800, 1, 7));
    assert!(should_remove_log("notes.txt", true, 604_801, 0, 7));
    assert!(!should_remove_log("notes.txt", false, 3, 0, 7));
}

#[test]
fn content_file_found_by_name_then_by_timestamp() {
    let names = vec![
        "notes.txt".to_string(),
        "content_generation_ch1_scene2.txt".to_string(),
        "content_generation_ch1_scene2.md".to_string(),
    ];
    assert_eq!(find_existing_content_file(&names, 1, 2), Some(1));
    let stamped = vec![
        "temporary_content_generation_ch1_scene2.txt".to_string(),
        "content_generation_ch1_scene2.txt_20250226_211404.log".to_string(),
    ];
    assert_eq!(find_existing_content_file(&stamped, 1, 2), Some(1));
    let none = vec!["temporary_content_generation_ch1_scene2.txt".to_string()];
    assert_eq!(find_existing_content_file(&none, 1, 2), None);
    assert_eq!(find_existing_content_file(&names, 2, 1), None);
}

#[test]
fn metadata_section_is_appended_then_read_back() {
    let m = update_metadata_text("", "Genre", "ts", "Fantasy");
    assert_eq!(m, "\n## Genre (ts)\nFantasy\n");
    assert_eq!(read_metadata_section_safe(&m, "Genre"), Some("Fantasy".to_string()));
    let stamped = "\n## Book Outline (2025-02-26 07:07:22)\nChapter 1: Start\n";
    assert_eq!(read_metadata_section_safe(stamped, "Book Outline"), Some("Chapter 1: Start".to_string()));
    assert_eq!(read_metadata_section(&m, "Style"), None);
}

#[test]
fn metadata_section_is_replaced_in_place() {
    let m = "# Book\n## Genre (old)\nSci-fi\n## Style\nTerse\n";
    let updated = update_metadata_text(m, "Genre", "ts", "Fantasy");
    assert_eq!(updated, "# Book\n## Genre (ts)\nFantasy\n\n## Style\nTerse\n");
    assert_eq!(read_metadata_section_safe(&updated, "Style"), Some("Terse".to_string()));
    assert_eq!(read_metadata_section_safe(&updated, "Genre"), Some("Fantasy".to_string()));
}

#[test]
fn token_usage_is_written_to_metadata() {
    let m = log_tokens("", "Outline", 10, 5, "2025-01-01 00:00:00");
    assert_eq!(
        m,
        "\n## Outline Token Usage (2025-01-01 00:00:00)\nPrompt tokens: 10, Completion tokens: 5, Total tokens: 15\n"
    );
    assert_eq!(
        read_metadata_section_safe(&m, "Outline Token Usage"),
        Some("Prompt tokens: 10, Completion tokens: 5, Total tokens: 15".to_string())
    );
}

#[test]
fn tracker_counts_each_logged_call() {
    let mut tracker = TokenTracker::new();
    let m = log_with_tracker("", "Chapter", 100, 40, &mut tracker, "t1");
    let m = log_with_tracker(&m, "Chapter", 1, 2, &mut tracker, "t2");
    assert_eq!(tracker.get_prompt_tokens(), 101);
    assert_eq!(tracker.get_completion_tokens(), 42);
    assert_eq!(tracker.get_total_tokens(), 143);
    assert_eq!(m, "\n## Chapter Token Usage (t2)\nPrompt tokens: 1, Completion tokens: 2, Total tokens: 3\n");
}

#[test]
fn prompt_log_names_and_text() {
    assert_eq!(prompt_log_file_name("outline", 255), "outline_prompt.txt");
    let long = "a".repeat(51);
    assert_eq!(prompt_log_file_name(&long, 255), "ff_prompt.txt");
    assert_eq!(prompt_log_file_name(&"b".repeat(50), 7), format!("{}_prompt.txt", "b".repeat(50)));
    assert_eq!(prompt_log_text("p", "c"), "Prompt:\np\n\nContext:\nc");
}

#[test]
fn scene_numbers_that_cannot_be_read() {
    assert_eq!(scene_number_checked("content_generation_ch1_scene2.txt"), Some(Some(2)));
    assert_eq!(scene_number_checked("notes"), Some(None));
    assert_eq!(scene_number_checked("scene3\u{e9}"), None);
    assert_eq!(extract_scene_number("scene3\u{e9}"), None);
    assert_eq!(extract_scene_number("scene\u{e9}"), None);
}

#[test]
fn sanitized_file_names_are_stable() {
    for name in ["My Book: Vol. 1", "  x/y\\z  ", "caf\u{e9} n\u{b0}2", ""] {
        let once = sanitize_filename(name);
        assert_eq!(sanitize_filename(&once), once);
        assert_eq!(once.trim(), once);
        assert!(once.chars().count() <= name.chars().count());
    }
    assert_eq!(sanitize_filename("My Book: Vol. 1"), "My Book- Vol- 1");
}

#[test]
fn directory_names_of_ascii_titles_are_lower_case() {
    assert_eq!(sanitize_directory_name("My Book: Part 2!"), "my-book-part-2");
    for title in ["THE END", "A-B--C", "Zed_99 Alpha"] {
        let d = sanitize_directory_name(title);
        assert!(!d.chars().any(|c| c.is_ascii_uppercase()));
        assert!(!d.starts_with('-') && !d.ends_with('-'));
    }
}
