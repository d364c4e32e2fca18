use book_generator::outline::{ChapterOutline, Outline, SceneOutline};

fn scene(title: &str, description: &str, number: usize) -> SceneOutline {
    SceneOutline { title: title.to_string(), description: description.to_string(), number }
}

fn chapter(title: &str, description: &str, scenes: Vec<SceneOutline>, number: usize) -> ChapterOutline {
    ChapterOutline {
        title: title.to_string(),
        description: description.to_string(),
        scenes,
        chapter_number: number,
    }
}

#[test]
fn writer_outline_is_read_chapter_by_chapter() {
    let text = "Chapter 1: Start\nThe beginning.\nArrival\nShe arrives.\nDeparture\nShe leaves.\n\nChapter 2: End\nThe end.\n";
    let outline = Outline::from_string(text);
    let expected = Outline {
        chapters: vec![
            chapter(
                "Chapter 1: Start",
                "The beginning.",
                vec![scene("Arrival", "She arrives.", 0), scene("Departure", "She leaves.", 0)],
                0,
            ),
            chapter("Chapter 2: End", "The end.", vec![], 0),
        ],
    };
    assert_eq!(outline, expected);
}

#[test]
fn writer_outline_ignores_text_before_first_heading() {
    let outline = Outline::from_string("notes\n\nIntroduction\nWhy.\n");
    assert_eq!(outline, Outline { chapters: vec![chapter("Introduction", "Why.", vec![], 0)] });
    assert_eq!(Outline::from_string(""), Outline { chapters: vec![] });
}

#[test]
fn outline_written_and_read_back_is_unchanged() {
    let outline = Outline {
        chapters: vec![
            chapter(
                "Chapter 1: Start",
                "The beginning.",
                vec![scene("Arrival", "She arrives.", 0), scene("Departure", "She leaves.", 0)],
                0,
            ),
            chapter("Conclusion", "All ends.", vec![scene("Home", "Back home.", 0)], 0),
        ],
    };
    let text = outline.to_text();
    assert_eq!(
        text,
        "Chapter 1: Start\nThe beginning.\nArrival\nShe arrives.\nDeparture\nShe leaves.\nConclusion\nAll ends.\nHome\nBack home.\n"
    );
    assert_eq!(Outline::from_string(&text), outline);
}

#[test]
fn model_outline_numbers_chapters_and_scenes() {
    let text = "Chapter 1: The Call\nA hero is summoned.\nScene 1: The Letter\nA letter arrives.\nScene 2: The Road\nShe sets out.\nChapter 3: Trials\nTests.\nShe fights.\nShe wins.\n";
    let outline = Outline::parse_from_llm(text);
    let expected = Outline {
        chapters: vec![
            chapter(
                "Chapter 1: The Call",
                "A hero is summoned.",
                vec![
                    scene("Scene 1: The Letter", "A letter arrives.", 1),
                    scene("Scene 2: The Road", "She sets out.", 2),
                ],
                1,
            ),
            chapter(
                "Chapter 3: Trials",
                "Tests.",
                vec![scene("Scene 1", "She fights.", 1), scene("Scene 2", "She wins.", 2)],
                3,
            ),
        ],
    };
    assert_eq!(outline, expected);
}

#[test]
fn model_outline_text_before_a_chapter_opens_one() {
    let outline = Outline::parse_from_llm("Some intro text\nMore\n");
    let expected = Outline {
        chapters: vec![chapter(
            "Chapter 1: Introduction",
            "Some intro text",
            vec![scene("Scene 1", "More", 1)],
            1,
        )],
    };
    assert_eq!(outline, expected);
}

#[test]
fn chapter_outline_from_model_with_scene_markers() {
    let text = "Chapter 2: The Storm\nChapter Description: Rain falls.\nScene 1: Clouds\nThe sky darkens.\nThunder rolls.\nScene 2 - Flood\nWater rises.\n";
    let ch = ChapterOutline::parse_from_llm(text);
    let expected = chapter(
        "Chapter 2: The Storm",
        "Rain falls.",
        vec![scene("Clouds", "The sky darkens.\nThunder rolls.", 1), scene("Flood", "Water rises.", 2)],
        0,
    );
    assert_eq!(ch, expected);
}

#[test]
fn scene_description_marker_describes_the_current_scene() {
    let ch = ChapterOutline::parse_from_llm("Chapter 1\nScene 1: Arrival\nScene Description: A quiet dawn.");
    assert_eq!(ch.scenes, vec![scene("Arrival", "A quiet dawn.", 1)]);
    let ch = ChapterOutline::parse_from_llm("Chapter 1\nScene 1: Arrival\nShe wakes.\nShe walks.");
    assert_eq!(ch.scenes, vec![scene("Arrival", "She wakes.\nShe walks.", 1)]);
}

#[test]
fn chapter_outline_without_scenes() {
    let ch = ChapterOutline::parse_from_llm("Title\nJust a description\n");
    assert_eq!(ch, chapter("Title", "Just a description", vec![], 0));
}

#[test]
fn outline_parts_as_text() {
    assert_eq!(chapter("Chapter 1", "Begin", vec![], 1).to_text(), "Chapter 1: Begin");
    assert_eq!(scene("Flood", "Water rises.", 2).to_text(), "Scene 2: Flood\nWater rises.");
}
