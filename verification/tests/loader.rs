use book_generator::book::{Chapter, Content, Scene};
use book_generator::outline::SceneOutline;
use book_generator::loader::{
    chapter_file_number_of, chapters_to_load, with_loaded_scenes, chapter_source_files, expected_chapter_count,
    existing_scene_logs, extract_scene_from_chapter, genre_from_metadata, has_rendered_chapter,
    ordered_chapter_files, ordered_scene_files, scene_file_for, scene_file_number_of,
};

fn names(v: &[&str]) -> Vec<String> {
    v.iter().map(|s| s.to_string()).collect()
}

#[test]
fn chapter_numbers_in_file_names() {
    assert_eq!(chapter_file_number_of("chapter_3.md"), 3);
    assert_eq!(chapter_file_number_of("chapter_generation_12_20250101.txt"), 12);
    assert_eq!(chapter_file_number_of("temporary_summary_chapter_4_x.txt"), 4);
    assert_eq!(chapter_file_number_of("chapter_x.md"), 0);
    assert_eq!(chapter_file_number_of("notes.md"), 0);
}

#[test]
fn chapters_come_from_markdown_logs_first() {
    let all = names(&["chapter_2.md", "chapter_1_scene_1.md", "chapter_generation_1_a.txt", "chapter_1.md"]);
    assert_eq!(chapter_source_files(&all), names(&["chapter_2.md", "chapter_1.md"]));
    assert_eq!(
        ordered_chapter_files(&all),
        vec![(1, "chapter_1.md".to_string()), (2, "chapter_2.md".to_string())]
    );
}

#[test]
fn chapters_fall_back_to_generation_logs_then_summaries() {
    let logs = names(&[
        "chapter_generation_2_b.txt",
        "chapter_generation_1_a.txt",
        "chapter_generation_1_token_usage.txt",
    ]);
    assert_eq!(
        ordered_chapter_files(&logs),
        vec![
            (1, "chapter_generation_1_a.txt".to_string()),
            (2, "chapter_generation_2_b.txt".to_string()),
        ]
    );
    let summaries = names(&["temporary_summary_chapter_3_x.txt", "notes.txt"]);
    assert_eq!(chapter_source_files(&summaries), names(&["temporary_summary_chapter_3_x.txt"]));
    assert_eq!(chapter_source_files(&names(&["notes.txt"])), Vec::<String>::new());
}

#[test]
fn scene_numbers_and_chapters_of_scene_files() {
    assert_eq!(scene_file_number_of("content_generation_ch1_scene3_1.txt"), 3);
    assert_eq!(scene_file_number_of("content_generation_ch1_scene2.txt"), 0);
    assert!(scene_file_for("scene_generation_ch2_scene1_x.txt", 2));
    assert!(!scene_file_for("scene_generation_ch2_scene1_x.txt", 3));
    assert!(!scene_file_for("content_generation_ch2_scene1_token_usage.txt", 2));
    assert!(!scene_file_for("notes.txt", 2));
}

#[test]
fn scene_files_of_a_chapter_in_order() {
    let logs = names(&[
        "content_generation_ch1_scene3_1.txt",
        "content_generation_ch1_scene1_1.txt",
        "content_generation_ch2_scene1_1.txt",
    ]);
    assert_eq!(
        ordered_scene_files(&logs, 1),
        vec![
            (1, "content_generation_ch1_scene1_1.txt".to_string()),
            (3, "content_generation_ch1_scene3_1.txt".to_string()),
        ]
    );
}

#[test]
fn rendered_chapter_pages_make_a_book_complete() {
    assert!(has_rendered_chapter(&names(&["index.html", "chapter_1.html"])));
    assert!(!has_rendered_chapter(&names(&["chapter_1.md", "index.html"])));
    assert!(!has_rendered_chapter(&Vec::new()));
}

#[test]
fn expected_chapters_from_outline_lines() {
    assert_eq!(expected_chapter_count("Chapter 1: A\nx\nCHAPTER 2\nThe Chapter: end\n"), 3);
    assert_eq!(expected_chapter_count("no chapters here"), 10);
}

#[test]
fn scene_text_cut_from_chapter_file() {
    let chapter = "# Chapter 1\n## Scene 1: Dawn\nLight came.\nBirds sang.\n## Scene 2: Noon\nHot.\n";
    assert_eq!(extract_scene_from_chapter(chapter, "Dawn"), Some("Light came.\nBirds sang.".to_string()));
    assert_eq!(extract_scene_from_chapter(chapter, "Noon"), Some("Hot.".to_string()));
    assert_eq!(extract_scene_from_chapter("## Arrival\nShe came.\nShe left.", "Arrival"), Some("She came.\nShe left.".to_string()));
    assert_eq!(extract_scene_from_chapter("## Arrival\n", "Arrival"), None);
    assert_eq!(extract_scene_from_chapter(chapter, "Dusk"), None);
}

#[test]
fn genre_read_from_metadata_section() {
    let g = genre_from_metadata("Fantasy: Dragons");
    assert_eq!(g.name, "Fantasy");
    assert_eq!(g.description, "Dragons");
    let g = genre_from_metadata("Horror");
    assert_eq!(g.name, "Unknown");
    assert_eq!(g.description, "Horror");
}

#[test]
fn each_chapter_loaded_once_from_its_first_readable_file() {
    let files = vec![
        (0, "chapter_x.md".to_string()),
        (1, "chapter_1.md".to_string()),
        (1, "chapter_01.md".to_string()),
        (2, "chapter_2.md".to_string()),
        (2, "chapter_02.md".to_string()),
    ];
    assert_eq!(chapters_to_load(&files, &vec![true, true, true, false, true]), vec![1, 4]);
    assert_eq!(chapters_to_load(&files, &vec![true, false, true, true, true]), vec![2, 3]);
    assert_eq!(chapters_to_load(&vec![], &vec![]), vec![]);
}

#[test]
fn loaded_scenes_replace_a_chapters_own_only_when_found() {
    let scene = Scene {
        title: "S".to_string(),
        outline: SceneOutline { title: "S".to_string(), description: String::new(), number: 1 },
        content: Content { text: "t".to_string(), chapter_number: 1, scene_number: 1 },
    };
    let mut c = Chapter::default();
    c.number = 4;
    c.scenes = vec![scene.clone()];
    let kept = with_loaded_scenes(c.clone(), vec![]);
    assert_eq!(kept.scenes.len(), 1);
    assert_eq!(kept.number, 4);
    let mut other = scene.clone();
    other.title = "T".to_string();
    let replaced = with_loaded_scenes(c, vec![other.clone(), other]);
    assert_eq!(replaced.scenes.len(), 2);
    assert_eq!(replaced.scenes[0].title, "T");
}

#[test]
fn existing_scene_logs_take_the_first_log_of_each_number() {
    let all = names(&[
        "content_generation_ch2_scene1.txt",
        "scene_generation_ch2_scene3.txt",
        "scene_generation_ch2_scene1.txt",
        "scene_generation_ch2_scene3_token_usage.txt",
        "scene_generation_ch12_scene5.txt",
        "scene_generation_ch2_scene1_b.txt",
        "notes.txt",
    ]);
    assert_eq!(existing_scene_logs(&all, 2), vec![(1, 2, Some(0)), (3, 1, Some(1))]);
}

#[test]
fn existing_scene_logs_of_a_chapter_without_outline_logs() {
    let all = names(&["content_generation_ch4_scene1.txt", "temporary_scene_generation_ch4_scene2.txt"]);
    assert_eq!(existing_scene_logs(&all, 4), vec![]);
    assert_eq!(existing_scene_logs(&names(&[]), 4), vec![]);
}

#[test]
fn scene_logs_whose_number_cannot_be_read() {
    let all = names(&["scene_generation_ch2_scene3\u{e9}.txt"]);
    assert_eq!(existing_scene_logs(&all, 2), vec![]);
    let mixed = names(&["scene_generation_ch2_scene1.txt", "scene_generation_ch2_scene3\u{e9}.txt"]);
    assert_eq!(existing_scene_logs(&mixed, 2), vec![(1, 0, Some(0))]);
}
