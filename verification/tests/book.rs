use book_generator::book::{
    Book, Braindump, Chapter, Character, Characters, Context, Genre, Style, Synopsis,
    TemporarySummary,
};
use book_generator::outline::Outline;

fn small_context() -> Context {
    Context::new(
        "T".to_string(),
        Braindump { content: "B".to_string() },
        Genre { name: "G".to_string(), description: "D".to_string() },
        Style { description: "S".to_string() },
        Characters { list: vec![Character { name: "Ann".to_string(), description: "Lead".to_string() }] },
        Synopsis { content: "Y".to_string() },
        Outline { chapters: vec![] },
        TemporarySummary::empty(0),
    )
}

fn numbered_chapter(number: usize, title: &str) -> Chapter {
    let mut c = Chapter::default();
    c.number = number;
    c.title = title.to_string();
    c
}

#[test]
fn genre_with_and_without_description() {
    let g = Genre::from_string("Fantasy: Dragons and magic").unwrap();
    assert_eq!(g.name, "Fantasy");
    assert_eq!(g.description, "Dragons and magic");
    let g = Genre::parse_from_llm("  Mystery  ").unwrap();
    assert_eq!(g.name, "Mystery");
    assert_eq!(g.description, "A mystery story");
    let g = Genre::from_string("   ").unwrap();
    assert_eq!(g.name, "");
    assert_eq!(g.description, "");
}

#[test]
fn genre_written_and_read_back() {
    let g = Genre { name: "Sci-Fi".to_string(), description: "Space".to_string() };
    let text = g.to_text();
    assert_eq!(text, "Sci-Fi: Space");
    let back = Genre::from_string(&text).unwrap();
    assert_eq!(back.name, g.name);
    assert_eq!(back.description, g.description);
}

#[test]
fn characters_read_one_per_line() {
    let cs = Characters::from_string("Alice: A curious girl\nno colon here\nBob : The builder \n");
    assert_eq!(cs.list.len(), 2);
    assert_eq!(cs.list[0].name, "Alice");
    assert_eq!(cs.list[0].description, "A curious girl");
    assert_eq!(cs.list[1].name, "Bob");
    assert_eq!(cs.list[1].description, "The builder");
    let text = cs.to_text();
    assert_eq!(text, "Alice: A curious girl\nBob: The builder\n");
    let back = Characters::from_string(&text);
    assert_eq!(back.list.len(), 2);
    assert_eq!(back.list[1].name, "Bob");
}

#[test]
fn chapter_heading_gives_number_and_title() {
    let c = Chapter::from_string("Chapter 3: The Turn\nBody text");
    assert_eq!(c.number, 3);
    assert_eq!(c.title, "The Turn");
    let c = Chapter::from_string("Prologue");
    assert_eq!(c.number, 0);
    assert_eq!(c.title, "Prologue");
    let c = Chapter::from_string("Part 2: X");
    assert_eq!(c.number, 0);
    assert_eq!(c.title, "X");
    let c = Chapter::from_string("");
    assert_eq!(c.number, 0);
    assert_eq!(c.title, "");
}

#[test]
fn cached_summary_validity() {
    let mut s = TemporarySummary::empty(0);
    assert!(!s.cache_valid(5, Some(1), 0));
    s.last_context_hash = Some(5);
    assert!(s.cache_valid(5, Some(10), 0));
    assert!(!s.cache_valid(5, Some(10), 5));
    assert!(s.cache_valid(5, Some(5), 5));
    assert!(s.cache_valid(5, None, 5));
    assert!(!s.cache_valid(6, Some(1), 0));
}

#[test]
fn context_text_in_both_orders() {
    let ctx = small_context();
    assert_eq!(
        ctx.get_full_context(),
        "Title: T\nBraindump: B\nGenre: G - D\nStyle: S\nSynopsis: Y\nOutline: \nCharacters: Ann: Lead\n\nTemporary Synopsis: "
    );
    assert_eq!(
        ctx.get_aggregated_context(),
        "Title: T\nBraindump: B\nGenre: G - D\nStyle: S\nSynopsis: Y\nCharacters: Ann: Lead\n\nOutline: \nTemporary Synopsis: "
    );
}

#[test]
fn history_grows_at_the_end() {
    let mut ctx = small_context();
    ctx.add_to_history("first".to_string());
    ctx.add_to_history("second".to_string());
    assert_eq!(ctx.history, vec!["first".to_string(), "second".to_string()]);
    assert_eq!(ctx.title, "T");
}

#[test]
fn added_chapters_are_sorted_and_replaced() {
    let mut book = Book::new("T".to_string(), small_context(), vec![]);
    assert!(!book.is_completed);
    book.add_chapter(numbered_chapter(2, "two"));
    book.add_chapter(numbered_chapter(1, "one"));
    book.add_chapter(numbered_chapter(2, "two again"));
    assert_eq!(book.chapters.len(), 2);
    assert_eq!(book.chapters[0].number, 1);
    assert_eq!(book.chapters[1].number, 2);
    assert_eq!(book.chapters[1].title, "two again");
    book.add_chapter(numbered_chapter(3, "three"));
    let numbers: Vec<usize> = book.chapters.iter().map(|c| c.number).collect();
    assert_eq!(numbers, vec![1, 2, 3]);
    assert_eq!(book.chapters[0].title, "one");
    assert_eq!(book.chapters[1].title, "two again");
}
