use book_generator::book::{
    Braindump, Chapter, Characters, Content, Context, Genre, Scene, Style, Synopsis,
    TemporarySummary,
};
use book_generator::error::BookGeneratorError;
use book_generator::generation::{
    chapter_plan, chapter_text_from_scenes, chapters_from_outline, check_chapter_request, content_generation_prompt,
    content_log_name, content_summary_text, duplicate_chapter_title, estimated_tokens,
    is_generation_log_for, is_new_title, merged_scenes,
    previous_chapters_text, resumed_scene_outlines_for, scene_content_prompt,
    scene_outlines_for_chapter, scenes_to_generate, scenes_without_text, summary_after_scene,
};
use book_generator::outline::{ChapterOutline, Outline, SceneOutline};

fn scene_outline(title: &str, description: &str, number: usize) -> SceneOutline {
    SceneOutline { title: title.to_string(), description: description.to_string(), number }
}

fn scene(title: &str, number: usize, text: &str) -> Scene {
    Scene {
        title: title.to_string(),
        outline: scene_outline(title, "", number),
        content: Content { text: text.to_string(), chapter_number: 1, scene_number: number },
    }
}

fn chapter_outline(title: &str, description: &str, scenes: Vec<SceneOutline>, number: usize) -> ChapterOutline {
    ChapterOutline {
        title: title.to_string(),
        description: description.to_string(),
        scenes,
        chapter_number: number,
    }
}

#[test]
fn chapters_planned_up_to_outline_or_maximum() {
    assert_eq!(chapter_plan(5, 3, 0), vec![(0, 1), (1, 2), (2, 3)]);
    assert_eq!(chapter_plan(2, 10, 0), vec![(0, 1), (1, 2)]);
    assert_eq!(chapter_plan(5, 3, 1), vec![(1, 2), (2, 3)]);
    assert_eq!(chapter_plan(5, 10, 2), vec![(2, 3), (3, 4), (4, 5)]);
    assert_eq!(chapter_plan(2, 10, 4), vec![]);
    assert_eq!(chapter_plan(3, 3, 3), vec![]);
}

#[test]
fn titles_and_logs_of_generated_chapters() {
    let seen = vec!["One".to_string()];
    assert!(!is_new_title(&seen, "One"));
    assert!(is_new_title(&seen, "Two"));
    assert!(is_generation_log_for("chapter_generation_3_20250101.txt", 3));
    assert!(!is_generation_log_for("chapter_generation_3_token_usage.txt", 3));
    assert!(!is_generation_log_for("chapter_generation_13_x.txt", 3));
}

#[test]
fn chapter_requests_beyond_outline_or_maximum_fail() {
    assert!(check_chapter_request(2, 3, 5).is_ok());
    match check_chapter_request(4, 3, 5) {
        Err(BookGeneratorError::Generation(m)) => {
            assert_eq!(m, "Attempted to generate chapter 4 when the outline only contains 3 chapters")
        },
        _ => panic!("expected an error"),
    }
    match check_chapter_request(4, 5, 3) {
        Err(BookGeneratorError::Generation(m)) => {
            assert_eq!(m, "Attempted to generate chapter 4 when the maximum is set to 3 chapters")
        },
        _ => panic!("expected an error"),
    }
}

#[test]
fn scene_outlines_from_chapter_or_book_outline() {
    let book = Outline {
        chapters: vec![chapter_outline("C2", "d", vec![scene_outline("A", "a", 1), scene_outline("B", "b", 2)], 2)],
    };
    let mut ch = Chapter::default();
    ch.number = 2;
    assert_eq!(
        scene_outlines_for_chapter(&ch, &book),
        Some(vec![scene_outline("A", "a", 1), scene_outline("B", "b", 2)])
    );
    assert_eq!(resumed_scene_outlines_for(&ch, &book), None);
    ch.outline.scenes = vec![scene_outline("X", "x", 1)];
    assert_eq!(scene_outlines_for_chapter(&ch, &book), Some(vec![scene_outline("X", "x", 1)]));
    assert_eq!(
        resumed_scene_outlines_for(&ch, &book),
        Some(vec![scene_outline("A", "a", 1), scene_outline("B", "b", 2)])
    );
    ch.number = 7;
    ch.outline.scenes = vec![];
    assert_eq!(scene_outlines_for_chapter(&ch, &book), None);
}

#[test]
fn missing_scenes_are_the_ones_generated() {
    assert_eq!(scenes_to_generate(4, &vec![1, 3]), vec![1, 3]);
    assert_eq!(scenes_to_generate(2, &vec![]), vec![0, 1]);
    assert_eq!(scenes_to_generate(0, &vec![1]), vec![]);
    let scenes = vec![scene("a", 1, "text"), scene("b", 2, ""), scene("c", 3, "")];
    assert_eq!(scenes_without_text(&scenes), vec![1, 2]);
}

#[test]
fn running_summary_and_prompts_for_scene_text() {
    let ctx = Context::new(
        "T".to_string(),
        Braindump { content: String::new() },
        Genre { name: "G".to_string(), description: "D".to_string() },
        Style { description: "S".to_string() },
        Characters { list: vec![] },
        Synopsis { content: "Y".to_string() },
        Outline { chapters: vec![] },
        TemporarySummary::empty(0),
    );
    let mut ch = Chapter::default();
    ch.number = 1;
    ch.title = "Start".to_string();
    ch.outline.description = "Begin".to_string();
    ch.outline.scenes = vec![scene_outline("Dawn", "Light", 1)];
    assert_eq!(
        content_summary_text(&ctx, &ch),
        "Title: T\nGenre: G: D\nStyle: S\nSynopsis: Y\n\nChapter 1: Start\nBegin\n\nScene Outlines:\nScene 1: Dawn\nLight\n\n"
    );
    ch.scenes = vec![scene("Dawn", 1, "It was light."), scene("Noon", 2, "")];
    assert_eq!(
        content_summary_text(&ctx, &ch),
        "Title: T\nGenre: G: D\nStyle: S\nSynopsis: Y\n\nChapter 1: Start\nBegin\n\nScene Outlines:\nScene 1: Dawn\nLight\n\nPreviously Generated Content:\nScene 1: Dawn\nIt was light.\n\n\nHere is where we continue the story...\n"
    );
    let p = scene_content_prompt("SUM", "Terse", 2, "Noon", "Heat");
    assert!(p.starts_with("SUM\nWriting Style: Terse\n\nScene 2 Outline: Noon\nHeat\n\nPlease write the content"));
    assert_eq!(
        summary_after_scene("SUM", 2, "Noon", "Hot."),
        "SUM\nScene 2: Noon\nHot.\n\nHere is where we continue the story...\n"
    );
}

#[test]
fn chapter_text_logs_and_token_estimates() {
    let scenes = vec![scene("Dawn", 1, "Light."), scene("Noon", 2, "Heat.")];
    assert_eq!(chapter_text_from_scenes(&scenes), "## Dawn\n\nLight.\n\n## Noon\n\nHeat.\n\n");
    assert_eq!(content_log_name(3, 12), "content_generation_ch3_scene12.txt");
    assert_eq!(estimated_tokens("abcdefghi"), 2);
    assert_eq!(estimated_tokens(""), 0);
    assert_eq!(estimated_tokens("\u{e9}\u{e9}"), 1);
}

#[test]
fn previous_chapters_and_direct_content_prompt() {
    assert_eq!(previous_chapters_text(&vec![]), "This is the first chapter of the book.");
    let chs = vec![chapter_outline("C1", "one", vec![], 1), chapter_outline("C2", "two", vec![], 2)];
    assert_eq!(previous_chapters_text(&chs), "Previous chapters in the book:\n\nC1: one\n\nC2: two");
    let p = content_generation_prompt(1, 2, "CT", "CD", "ST", "SD");
    assert!(p.starts_with(
        "# Content Generation for Chapter 1 Scene 2\n\n## Chapter Title: CT\n## Chapter Description: CD\n\n## Scene Title: ST\n## Scene Description: SD\n\n## Instructions\n"
    ));
    assert!(p.ends_with("## Scene Content\n"));
}

#[test]
fn chapters_made_from_the_outline() {
    let outline = Outline {
        chapters: vec![
            chapter_outline("C1", "one", vec![scene_outline("A", "a", 1)], 0),
            chapter_outline("C2", "two", vec![], 5),
        ],
    };
    let chs = chapters_from_outline(&outline);
    assert_eq!(chs.len(), 2);
    assert_eq!(chs[0].number, 1);
    assert_eq!(chs[1].number, 2);
    assert_eq!(chs[1].title, "C2");
    assert_eq!(chs[0].outline, outline.chapters[0]);
    assert!(chs[0].scenes.is_empty());
    assert_eq!(chs[0].content, "");
}

#[test]
fn merged_scenes_are_ordered_by_number() {
    let existing = vec![scene("one", 1, "a"), scene("three", 3, "c"), scene("again", 3, "d")];
    let added = vec![scene("four", 4, ""), scene("two", 2, ""), scene("three bis", 3, "")];
    let merged = merged_scenes(existing, added);
    let order: Vec<(usize, String)> = merged.iter().map(|s| (s.outline.number, s.title.clone())).collect();
    assert_eq!(
        order,
        vec![
            (1, "one".to_string()),
            (2, "two".to_string()),
            (3, "three".to_string()),
            (3, "again".to_string()),
            (3, "three bis".to_string()),
            (4, "four".to_string()),
        ]
    );
    assert!(merged_scenes(vec![], vec![]).is_empty());
}

#[test]
fn duplicate_titles_are_those_of_other_chapters() {
    let mut first = Chapter::default();
    first.number = 1;
    first.title = "The Bridge".to_string();
    let mut second = Chapter::default();
    second.number = 2;
    second.title = "The Road".to_string();
    let chapters = vec![first, second];
    assert!(duplicate_chapter_title(&chapters, "The Bridge", 3));
    assert!(!duplicate_chapter_title(&chapters, "The Bridge", 1));
    assert!(!duplicate_chapter_title(&chapters, "The Sea", 3));
    assert!(!duplicate_chapter_title(&vec![], "The Bridge", 1));
}
