use book_generator::book::{
    Braindump, Character, Characters, Content, Context, Genre, Scene, Style, Synopsis,
    TemporarySummary,
};
use book_generator::error::BookGeneratorError;
use book_generator::outline::{ChapterOutline, Outline, SceneOutline};
use book_generator::summary::{
    cache_file_name, chapter_summary_context, content_cache_prefix, content_summary_context,
    cuts_cleanly_exec, scene_cache_prefix, scene_summary_context,
};

fn so(title: &str, description: &str, number: usize) -> SceneOutline {
    SceneOutline { title: title.to_string(), description: description.to_string(), number }
}

fn co(title: &str, description: &str, scenes: Vec<SceneOutline>, number: usize) -> ChapterOutline {
    ChapterOutline { title: title.to_string(), description: description.to_string(), scenes, chapter_number: number }
}

fn context_with(chapters: Vec<ChapterOutline>) -> Context {
    Context::new(
        "T".to_string(),
        Braindump { content: "B".to_string() },
        Genre { name: "G".to_string(), description: "D".to_string() },
        Style { description: "S".to_string() },
        Characters { list: vec![Character { name: "Ann".to_string(), description: "Lead".to_string() }] },
        Synopsis { content: "Y".to_string() },
        Outline { chapters },
        TemporarySummary::empty(0),
    )
}

#[test]
fn chapter_summary_context_and_its_refusals() {
    let empty = context_with(vec![]);
    match chapter_summary_context("T", &empty, &vec![], 10) {
        Err(BookGeneratorError::Generation(m)) => {
            assert_eq!(m, "Attempted to generate chapter 1 when the outline only contains 0 chapters")
        },
        _ => panic!("expected an error"),
    }
    let ctx = context_with(vec![co("C1", "one", vec![], 1), co("C2", "two", vec![], 2)]);
    let previous = vec![co("C1", "one", vec![], 1)];
    assert_eq!(
        chapter_summary_context("T", &ctx, &previous, 10).unwrap(),
        "Title: T\nBraindump: B\nGenre: G - D\nStyle: S\nCharacters: Ann: Lead\n\nSynopsis: Y\nBook Outline: C1\none\nC2\ntwo\n\n\nPrevious Chapters:\nC1: one\n\nHere is where we continue the story..."
    );
    assert!(chapter_summary_context("T", &ctx, &vec![], 10).unwrap().contains("Previous Chapters:\nStarting the first chapter...\n\n"));
    match chapter_summary_context("T", &ctx, &previous, 1) {
        Err(BookGeneratorError::Generation(m)) => {
            assert_eq!(m, "Attempted to generate chapter 2 when the maximum is set to 1 chapters")
        },
        _ => panic!("expected an error"),
    }
}

#[test]
fn scene_summary_context_lists_chapters_so_far() {
    let ctx = context_with(vec![co("C1", "one", vec![], 1), co("C2", "two", vec![], 2), co("C3", "three", vec![], 3)]);
    let current = co("C2", "two", vec![], 2);
    assert_eq!(
        scene_summary_context("T", &ctx, &current, &vec![]),
        "Title: T\nBraindump: B\nGenre: G - D\nStyle: S\nSynopsis: Y\nBook Outline: C1\none\nC2\ntwo\nC3\nthree\n\nChapter Outlines:\nC1: one\n\nC2: two\nCurrent Chapter: C2: two\n\nStarting the first scene...\n\nHere is where we continue the story..."
    );
    let previous = vec![Scene {
        title: "Dawn".to_string(),
        outline: so("Dawn", "Light", 1),
        content: Content { text: String::new(), chapter_number: 2, scene_number: 1 },
    }];
    assert!(scene_summary_context("T", &ctx, &current, &previous)
        .ends_with("Previous scenes in this chapter:\n\nScene 1: Dawn\nLight\n\nHere is where we continue the story..."));
}

#[test]
fn content_summary_context_shortens_earlier_texts() {
    let ctx = context_with(vec![]);
    let chapter = co("C", "d", vec![so("A", "a", 1), so("B", "b", 2), so("C", "c", 3)], 1);
    let previous = vec![Content { text: "abcdef".to_string(), chapter_number: 1, scene_number: 1 }];
    assert_eq!(
        content_summary_context("T", &ctx, &chapter, &so("B", "b", 2), &previous, 4),
        "Title: T\nGenre: G - D\nStyle: S\nSynopsis: Y\nBook Outline: \nChapter Outline: C: d\nScene Outlines:\nScene 1: A\na\n\nScene 2: B\nb\nCurrent Scene: Scene 2: B\nb\n\nPrevious content in this chapter:\n\nContent for Scene 1:\nabcd... (truncated for brevity)\n\nHere is where we continue the story..."
    );
    let short = vec![Content { text: "abc".to_string(), chapter_number: 1, scene_number: 1 }];
    assert!(content_summary_context("T", &ctx, &chapter, &so("A", "a", 1), &short, 4)
        .ends_with("Content for Scene 1:\nabc\n\nHere is where we continue the story..."));
    assert!(content_summary_context("T", &ctx, &chapter, &so("A", "a", 1), &vec![], 4)
        .contains("\n\nStarting the first scene content...\n\n"));
}

#[test]
fn cuts_at_bytes_only_between_characters() {
    assert!(!cuts_cleanly_exec("h\u{e9}llo", 2));
    assert!(cuts_cleanly_exec("h\u{e9}llo", 3));
    assert!(cuts_cleanly_exec("hi", 5));
}

#[test]
fn cache_names_and_summaries_of_answers() {
    assert_eq!(cache_file_name("chapter", 3), "summary_chapter_3.json");
    assert_eq!(scene_cache_prefix(2, 4), "scene_generation_ch2_scene4");
    assert_eq!(content_cache_prefix(2, 4), "content_ch2_scene4");
    let s = TemporarySummary::from_answer("  text \n", 9, 100);
    assert_eq!(s.content, "text");
    assert_eq!(s.last_context_hash, Some(9));
    assert_eq!(s.created_at, 100);
}
