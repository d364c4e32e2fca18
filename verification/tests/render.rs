use book_generator::book::{
    Book, Braindump, Chapter, Characters, Content, Context, Genre, Scene, Style, Synopsis,
    TemporarySummary,
};
use book_generator::chapter_body::process_chapter_content;
use book_generator::outline::{Outline, SceneOutline};
use book_generator::render::{
    book_document_text, chapter_sections, display_title_of, epub_metadata_text, front_matter_text,
    summary_chapters, BookRenderer, ChapterSource,
};
use book_generator::titles::{
    clean_chapter_title, find_chapter_title_in_outlines, remove_book_title_from_chapter, title_case,
};

fn scene_with_text(text: &str) -> Scene {
    Scene {
        title: String::new(),
        outline: SceneOutline { title: String::new(), description: String::new(), number: 0 },
        content: Content { text: text.to_string(), chapter_number: 0, scene_number: 0 },
    }
}

fn empty_context() -> Context {
    Context::new(
        "T".to_string(),
        Braindump { content: String::new() },
        Genre { name: String::new(), description: String::new() },
        Style { description: String::new() },
        Characters { list: vec![] },
        Synopsis { content: String::new() },
        Outline { chapters: vec![] },
        TemporarySummary::empty(0),
    )
}

#[test]
fn title_case_capitalizes_after_separators() {
    assert_eq!(title_case("the GREAT-escape: part two"), "The Great-Escape: Part Two");
    assert_eq!(title_case("123abc"), "123Abc");
    assert_eq!(title_case(""), "");
}

#[test]
fn book_title_removed_from_chapter_title() {
    let dirs = vec!["Dragon Tale".to_string(), "ab".to_string()];
    assert_eq!(remove_book_title_from_chapter("dragon tale - Chapter 1", &dirs), "- Chapter 1");
    assert_eq!(remove_book_title_from_chapter("Chapter 1: Start", &dirs), "Chapter 1: Start");
    assert_eq!(remove_book_title_from_chapter("dragon tale", &dirs), "dragon tale");
    let short = vec!["ab".to_string()];
    assert_eq!(remove_book_title_from_chapter("ab ab", &short), "ab ab");
}

#[test]
fn chapter_title_found_in_outline_text() {
    let outlines = vec!["Chapter 1: Begin\nChapter 2: The Middle\n".to_string()];
    assert_eq!(find_chapter_title_in_outlines(2, &outlines), Some("The Middle".to_string()));
    assert_eq!(find_chapter_title_in_outlines(3, &outlines), None);
    let nested = vec!["Chapter 4: A: B\n".to_string()];
    assert_eq!(find_chapter_title_in_outlines(4, &nested), Some("A".to_string()));
}

#[test]
fn chapter_titles_are_cleaned() {
    let none: Vec<String> = vec![];
    let outlines = vec!["Chapter 3: The Storm\nChapter 7: Dawn\n".to_string()];
    assert_eq!(clean_chapter_title("Chapter 3: Chapter 3", &none, &outlines), "The Storm");
    assert_eq!(clean_chapter_title("Chapter 3: Chapter 3", &none, &none), "Chapter 3");
    assert_eq!(clean_chapter_title("Chapter 5: The Fall - Detailed Outline", &none, &none), "The Fall");
    assert_eq!(
        clean_chapter_title("CHAPTER 4: THE DISGRACED SCHOLAR", &none, &none),
        "Chapter 4: The Disgraced Scholar"
    );
    assert_eq!(clean_chapter_title("Chapter 7", &none, &outlines), "Dawn");
    assert_eq!(clean_chapter_title("Epilogue", &none, &none), "Epilogue");
}

#[test]
fn chapter_body_drops_headings_and_metadata() {
    let content = "# Chapter 1: Start\n*A quiet beginning*\n\n## Scene 1: Morning\nShe woke.\n## Notes\nGenre: Fantasy\nShe ran.\n";
    assert_eq!(
        process_chapter_content(content),
        "*A quiet beginning*\n\n*A quiet beginning*\n\n## Morning\nShe woke.\nShe ran."
    );
    assert_eq!(process_chapter_content("Just text"), "Just text");
    assert_eq!(process_chapter_content("# Chapter 1\nGenre: X"), "");
    assert_eq!(process_chapter_content("```\n# Chapter inside\n```"), "```\n# Chapter inside\n```");
}

#[test]
fn summary_lists_statistics_then_chapters() {
    let mut one = Chapter::default();
    one.title = "One".to_string();
    let mut two = Chapter::default();
    two.title = "Two".to_string();
    let book = Book::new("T".to_string(), empty_context(), vec![one, two]);
    let renderer = BookRenderer::new("out".to_string());
    assert_eq!(renderer.output_dir, "out");
    let summary = renderer.generate_summary(&book);
    assert_eq!(
        summary,
        "# Summary\n\n- [Statistics](statistics.html)\n- [One](chapter_1.md)\n- [Two](chapter_2.md)\n"
    );
    let read = summary_chapters(&summary);
    assert_eq!(
        read,
        vec![
            ("One".to_string(), "chapter_1.md".to_string()),
            ("Two".to_string(), "chapter_2.md".to_string()),
        ]
    );
    assert_eq!(summary_chapters("  - [Sub](x.md)\n- [Book Outline](o.md)\n"), vec![]);
}

#[test]
fn chapters_named_like_added_pages_are_kept() {
    let summary = "# Summary\n\n- [Statistics](statistics.html)\n- [Writing Lessons](chapter_1.md)\n- [A Matter of Style](chapter_2.md)\n- [Statistics](chapter_3.md)\n- [Outline](outline.md)\n";
    assert_eq!(
        summary_chapters(summary),
        vec![
            ("Writing Lessons".to_string(), "chapter_1.md".to_string()),
            ("A Matter of Style".to_string(), "chapter_2.md".to_string()),
            ("Statistics".to_string(), "chapter_3.md".to_string()),
        ]
    );
}

#[test]
fn chapter_markdown_has_heading_description_and_scenes() {
    let mut c = Chapter::default();
    c.title = "One".to_string();
    c.outline.description = "Desc".to_string();
    c.scenes = vec![scene_with_text("S1"), scene_with_text("S2")];
    let renderer = BookRenderer::new(String::new());
    assert_eq!(renderer.format_chapter(&c), "# One\n\n*Desc*\n\nS1\n\nS2\n\n");
    assert_eq!(renderer.format_scene(&c.scenes[0]), "S1\n\n");
}

#[test]
fn document_sections_skip_missing_and_repeated_chapters() {
    let none: Vec<String> = vec![];
    let entries = vec![
        ("Chapter 1: Begin".to_string(), ChapterSource::Text("# Chapter 1\nHello there.".to_string())),
        ("Chapter 2: Gone".to_string(), ChapterSource::Missing),
        ("Chapter 1: Begin".to_string(), ChapterSource::Text("dup".to_string())),
        ("Epilogue".to_string(), ChapterSource::Unreadable),
    ];
    let sections = chapter_sections(&entries, &none, &none);
    assert_eq!(
        sections,
        "# Chapter 1: Begin\n\nHello there.\n\n\\newpage\n\n# Chapter 4: Epilogue\n\n"
    );
    let doc = book_document_text("Title", "Ann", "May 2025", &entries, &none, &none);
    let front = front_matter_text("Title", "Ann", "May 2025");
    assert!(front.starts_with("---\ntitle: Title\nauthor: Ann\n"));
    assert!(front.contains("<p>First Edition: May 2025</p>"));
    assert_eq!(doc, format!("{}{}", front, sections));
}

#[test]
fn shown_title_and_epub_metadata() {
    assert_eq!(display_title_of("my-great-book"), "My Great Book");
    assert_eq!(display_title_of("  a  b - c "), "A B C");
    assert_eq!(
        epub_metadata_text("My Book", "Ann", "id-1"),
        "<dc:language>en-US</dc:language>\n<dc:title>My Book</dc:title>\n<dc:creator>Ann</dc:creator>\n<dc:publisher>P.I.E. LLC</dc:publisher>\n<dc:rights>Copyright \u{a9} 2025</dc:rights>\n<dc:identifier id=\"pub-id\">urn:uuid:id-1</dc:identifier>\n"
    );
}

#[test]
fn title_case_keeps_length_and_is_stable_on_ascii() {
    for s in ["the fall of rome", "a-b:c d", "ALL CAPS here", "x1 y2", ""] {
        let once = title_case(s);
        assert_eq!(once.chars().count(), s.chars().count());
        assert_eq!(title_case(&once), once);
        for (a, b) in s.chars().zip(once.chars()) {
            if !a.is_alphabetic() {
                assert_eq!(a, b);
            }
        }
    }
    assert_eq!(title_case("the fall of rome"), "The Fall Of Rome");
}
