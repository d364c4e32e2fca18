//! The parts of a book: the writer's ideas, genre, style, characters and synopsis,
//! the chapters with their scenes, and the context that generation carries along.
use vstd::prelude::*;
use crate::error::BookGeneratorError;
use crate::outline::{outline_text, ChapterOutline, Outline, SceneOutline};
use crate::text::{
    chars_of, find_char_from, find_char_from_exec, lemma_find_char_from_bounds, lines,
    lines_exec, has_char, lemma_find_char_at, lemma_lines_append, lemma_trim_after_space,
    lemma_trim_last, owned, parse_usize, parse_usize_exec, push_str, slice_chars, starts_with,
    starts_with_exec, suffix_from, to_string, trim, trim_exec,
};
use crate::unicode::{lowercase, to_lowercase};

verus! {

// ---------------------------------------------------------------------------
// The parts of the context
// ---------------------------------------------------------------------------

/// The writer's free-form ideas for the book.
#[derive(Debug, Clone)]
pub struct Braindump {
    pub content: String,
}

/// The book's genre.
#[derive(Debug, Clone)]
pub struct Genre {
    pub name: String,
    pub description: String,
}

/// The book's writing style.
#[derive(Debug, Clone)]
pub struct Style {
    pub description: String,
}

/// The book's synopsis.
#[derive(Debug, Clone)]
pub struct Synopsis {
    pub content: String,
}

/// One character of the book.
#[derive(Debug, Clone)]
pub struct Character {
    pub name: String,
    pub description: String,
}

/// The book's characters.
#[derive(Debug, Clone)]
pub struct Characters {
    pub list: Vec<Character>,
}

/// The style that a book gets where the writer gives none.
pub const DEFAULT_STYLE: &'static str = "The writing should be realistic, whimsical, creative, clever, VERY OCCASIONALLY wryly humorous, wise - and most of all both aware of and sensitive to both the intricacies of human nature, and the techniques used by writers to entertain and captivate their readers. Remember this guidance on prose rhythm: 'This sentence has five words. Here are five more words. Five-word sentences are fine. But several together become monotonous. Listen to what is happening. The writing is getting boring. The sound of it drones. It's like a stuck record. The ear demands some variety. Now listen. I vary the sentence length, and I create music. Music. The writing sings. It has a pleasant rhythm, a lilt, a harmony. I use short sentences. And I use sentences of medium length. And sometimes, when I am certain the reader is rested, I will engage him with a sentence of considerable length, a sentence that burns with energy and builds with all the impetus of a crescendo, the roll of the drums, the crash of the cymbals\u{2014}sounds that say listen to this, it is important.' Keep this in mind when generating all content, and make sure our tone is a mix of Dave Barry-esque humor and a Terry Pratchett-esque sense of satire about current society and optimism for the future, with a dash of Carl Hiassen's keen eye and manic florida man stories, and a large ladleful of Douglas Adams amazingly esoteric and oddball descriptive language.";

impl Default for Braindump {
    fn default() -> (r: Self)
        ensures
            r.content@ == Seq::<char>::empty(),
    {
        Braindump { content: String::new() }
    }
}

impl Default for Genre {
    fn default() -> (r: Self)
        ensures
            r.name@ == Seq::<char>::empty(),
            r.description@ == Seq::<char>::empty(),
    {
        Genre { name: String::new(), description: String::new() }
    }
}

impl Default for Style {
    fn default() -> (r: Self)
        ensures
            r.description@ == DEFAULT_STYLE@,
    {
        Style { description: owned(DEFAULT_STYLE) }
    }
}

impl Default for Synopsis {
    fn default() -> (r: Self)
        ensures
            r.content@ == Seq::<char>::empty(),
    {
        Synopsis { content: String::new() }
    }
}

impl Default for Characters {
    fn default() -> (r: Self)
        ensures
            r.list@.len() == 0,
    {
        Characters { list: Vec::new() }
    }
}

// ---------------------------------------------------------------------------
// Genre
// ---------------------------------------------------------------------------

/// The name and description that a genre text gives: "name: description" (split at
/// the first ':', both trimmed), or a bare name with the description
/// "A {lower-case name} story", or nothing for a blank text.
pub open spec fn genre_from_text(s: Seq<char>) -> (Seq<char>, Seq<char>) {
    match find_char_from(s, ':', 0) {
        Some(p) => (trim(s.subrange(0, p)), trim(s.subrange(p + 1, s.len() as int))),
        None => {
            let name = trim(s);
            if name.len() == 0 {
                (Seq::empty(), Seq::empty())
            } else {
                (name, "A "@ + lowercase(name) + " story"@)
            }
        },
    }
}

fn genre_from_text_exec(s: &str) -> (r: Genre)
    ensures
        (r.name@, r.description@) == genre_from_text(s@),
{
    let v = chars_of(s);
    proof {
        lemma_find_char_from_bounds(v@, ':', 0);
    }
    match find_char_from_exec(&v, ':', 0) {
        Some(p) => {
            assert(p < v.len());
            Genre {
                name: to_string(&trim_exec(&slice_chars(&v, 0, p))),
                description: to_string(&trim_exec(&suffix_from(&v, p + 1))),
            }
        },
        None => {
            let name = trim_exec(&v);
            if name.len() == 0 {
                Genre::default()
            } else {
                let name_text = to_string(&name);
                let mut d = chars_of("A ");
                push_str(&mut d, to_lowercase(name_text.as_str()).as_str());
                push_str(&mut d, " story");
                Genre { name: name_text, description: to_string(&d) }
            }
        },
    }
}

impl Genre {
    /// Reads a genre as stored in the book's metadata; it always succeeds.
    pub fn from_string(s: &str) -> (r: Result<Genre, BookGeneratorError>)
        ensures
            r matches Ok(g) && (g.name@, g.description@) == genre_from_text(s@),
    {
        Ok(genre_from_text_exec(s))
    }

    /// Reads a genre from a model's output, as `from_string` does.
    pub fn parse_from_llm(s: &str) -> (r: Result<Genre, BookGeneratorError>)
        ensures
            r matches Ok(g) && (g.name@, g.description@) == genre_from_text(s@),
    {
        Ok(genre_from_text_exec(s))
    }

    /// The genre as "name: description".
    pub fn to_text(&self) -> (r: String)
        ensures
            r@ == self.name@ + ": "@ + self.description@,
    {
        let mut out = chars_of(self.name.as_str());
        push_str(&mut out, ": ");
        push_str(&mut out, self.description.as_str());
        to_string(&out)
    }
}

// ---------------------------------------------------------------------------
// Characters
// ---------------------------------------------------------------------------

/// A character's name and description.
pub open spec fn character_view(c: Character) -> (Seq<char>, Seq<char>) {
    (c.name@, c.description@)
}

/// The names and descriptions of a list of characters.
pub open spec fn character_list(list: Seq<Character>) -> Seq<(Seq<char>, Seq<char>)> {
    list.map_values(|c: Character| character_view(c))
}

/// The character that a line gives: "name: description", split at the first ':'
/// and both trimmed; a line without ':' gives none.
pub open spec fn character_of_line(l: Seq<char>) -> Option<(Seq<char>, Seq<char>)> {
    match find_char_from(l, ':', 0) {
        Some(p) => Some((trim(l.subrange(0, p)), trim(l.subrange(p + 1, l.len() as int)))),
        None => None,
    }
}

/// The characters on the first `k` lines.
pub open spec fn characters_in(ls: Seq<Seq<char>>, k: int) -> Seq<(Seq<char>, Seq<char>)>
    decreases k,
{
    if k <= 0 || k > ls.len() {
        Seq::empty()
    } else {
        let rest = characters_in(ls, k - 1);
        match character_of_line(ls[k - 1]) {
            Some(c) => rest.push(c),
            None => rest,
        }
    }
}

/// The characters that a text lists, one per line.
pub open spec fn characters_from_text(s: Seq<char>) -> Seq<(Seq<char>, Seq<char>)> {
    characters_in(lines(s), lines(s).len() as int)
}

/// The characters as text: "name: description" on a line of its own for each.
pub open spec fn characters_text(cs: Seq<(Seq<char>, Seq<char>)>) -> Seq<char>
    decreases cs.len(),
{
    if cs.len() == 0 {
        Seq::empty()
    } else {
        characters_text(cs.drop_last()) + cs.last().0 + ": "@ + cs.last().1 + "\n"@
    }
}

impl Characters {
    /// Reads the characters listed in a text, one "name: description" per line;
    /// lines without ':' are skipped.
    pub fn from_string(content: &str) -> (r: Characters)
        ensures
            character_list(r.list@) == characters_from_text(content@),
    {
        let ls = lines_exec(&chars_of(content));
        let ghost all = lines(content@);
        let mut list: Vec<Character> = Vec::new();
        let mut i: usize = 0;
        while i < ls.len()
            invariant
                i <= ls@.len(),
                ls@.len() == all.len(),
                all == lines(content@),
                forall|k: int| 0 <= k < ls@.len() ==> #[trigger] ls@[k]@ == all[k],
                character_list(list@) == characters_in(all, i as int),
            decreases ls@.len() - i,
        {
            let l = &ls[i];
            assert(l@ == all[i as int]);
            proof {
                lemma_find_char_from_bounds(l@, ':', 0);
            }
            match find_char_from_exec(l, ':', 0) {
                Some(p) => {
                    assert(p < l.len());
                    let c = Character {
                        name: to_string(&trim_exec(&slice_chars(l, 0, p))),
                        description: to_string(&trim_exec(&suffix_from(l, p + 1))),
                    };
                    let ghost before = list@;
                    list.push(c);
                    assert(character_list(list@) =~= character_list(before).push(character_view(c)));
                },
                None => {},
            }
            i = i + 1;
        }
        Characters { list }
    }

    /// The characters as text, one "name: description" line each.
    pub fn to_text(&self) -> (r: String)
        ensures
            r@ == characters_text(character_list(self.list@)),
    {
        let mut out: Vec<char> = Vec::new();
        let mut i: usize = 0;
        while i < self.list.len()
            invariant
                i <= self.list@.len(),
                out@ == characters_text(character_list(self.list@.subrange(0, i as int))),
            decreases self.list@.len() - i,
        {
            let c = &self.list[i];
            push_str(&mut out, c.name.as_str());
            push_str(&mut out, ": ");
            push_str(&mut out, c.description.as_str());
            push_str(&mut out, "\n");
            proof {
                let pre = character_list(self.list@.subrange(0, i + 1));
                assert(pre.drop_last() =~= character_list(self.list@.subrange(0, i as int)));
                assert(pre.last() == character_view(self.list@[i as int]));
            }
            i = i + 1;
        }
        assert(self.list@.subrange(0, self.list@.len() as int) =~= self.list@);
        to_string(&out)
    }
}

// ---------------------------------------------------------------------------
// Scenes and chapters
// ---------------------------------------------------------------------------

/// The text of a scene.
#[derive(Debug, Clone)]
pub struct Content {
    pub text: String,
    pub chapter_number: usize,
    pub scene_number: usize,
}

/// A scene: its title, its outline and its text.
#[derive(Debug, Clone)]
pub struct Scene {
    pub title: String,
    pub outline: SceneOutline,
    pub content: Content,
}

/// A chapter: its number and title, its outline, its scenes and its text.
#[derive(Debug, Clone)]
pub struct Chapter {
    pub number: usize,
    pub title: String,
    pub outline: ChapterOutline,
    pub scenes: Vec<Scene>,
    pub content: String,
}

impl Default for Content {
    fn default() -> (r: Self)
        ensures
            r.text@ == Seq::<char>::empty(),
            r.chapter_number == 0,
            r.scene_number == 0,
    {
        Content { text: String::new(), chapter_number: 0, scene_number: 0 }
    }
}

impl Default for Chapter {
    fn default() -> (r: Self)
        ensures
            r.number == 0,
            r.title@ == Seq::<char>::empty(),
            r.outline@.title.len() == 0,
            r.outline@.description.len() == 0,
            r.outline@.scenes.len() == 0,
            r.outline@.chapter_number == 0,
            r.scenes@.len() == 0,
            r.content@ == Seq::<char>::empty(),
    {
        Chapter {
            number: 0,
            title: String::new(),
            outline: ChapterOutline::empty(),
            scenes: Vec::new(),
            content: String::new(),
        }
    }
}

/// The number in "Chapter N": the text after a leading "Chapter " read as a number,
/// or 0.
pub open spec fn chapter_label_number(part: Seq<char>) -> usize {
    if starts_with(part, "Chapter "@) {
        match parse_usize(part.subrange(8, part.len() as int)) {
            Some(n) => n,
            None => 0,
        }
    } else {
        0
    }
}

/// The number and title that a chapter's text gives on its first line,
/// "Chapter N: title" (or a bare title, numbered 0); `None` for an empty text.
pub open spec fn chapter_heading(s: Seq<char>) -> Option<(usize, Seq<char>)> {
    let ls = lines(s);
    if ls.len() == 0 {
        None
    } else {
        let first = trim(ls[0]);
        match find_char_from(first, ':', 0) {
            Some(p) => Some((chapter_label_number(trim(first.subrange(0, p))), trim(first.subrange(p + 1, first.len() as int)))),
            None => Some((0usize, first)),
        }
    }
}

impl Chapter {
    /// Reads a chapter's number and title from the first line of its text,
    /// "Chapter N: title"; the outline, scenes and text are left empty. An empty
    /// text gives the empty chapter.
    pub fn from_string(content: &str) -> (r: Chapter)
        ensures
            match chapter_heading(content@) {
                Some((n, t)) => r.number == n && r.title@ == t,
                None => r.number == 0 && r.title@.len() == 0,
            },
            r.outline@.title.len() == 0,
            r.outline@.description.len() == 0,
            r.outline@.scenes.len() == 0,
            r.outline@.chapter_number == 0,
            r.scenes@.len() == 0,
            r.content@.len() == 0,
    {
        proof {
            reveal_strlit("Chapter ");
        }
        let ls = lines_exec(&chars_of(content));
        if ls.len() == 0 {
            return Chapter::default();
        }
        let first = trim_exec(&ls[0]);
        proof {
            lemma_find_char_from_bounds(first@, ':', 0);
        }
        let (number, title) = match find_char_from_exec(&first, ':', 0) {
            Some(p) => {
                assert(p < first.len());
                let part = trim_exec(&slice_chars(&first, 0, p));
                let n: usize = if starts_with_exec(&part, &chars_of("Chapter ")) {
                    match parse_usize_exec(&suffix_from(&part, 8)) {
                        Some(n) => n,
                        None => 0,
                    }
                } else {
                    0
                };
                (n, trim_exec(&suffix_from(&first, p + 1)))
            },
            None => (0, first),
        };
        Chapter {
            number,
            title: to_string(&title),
            outline: ChapterOutline::empty(),
            scenes: Vec::new(),
            content: String::new(),
        }
    }
}

// ---------------------------------------------------------------------------
// The temporary summary
// ---------------------------------------------------------------------------

/// A summary of the story so far that is handed to the model, with the hash of the
/// context it was made from and when it was made (seconds since the Unix epoch).
#[derive(Debug, Clone)]
pub struct TemporarySummary {
    pub content: String,
    pub last_context_hash: Option<u64>,
    pub created_at: u64,
}

impl TemporarySummary {
    /// An empty summary made at `created_at`.
    pub fn empty(created_at: u64) -> (r: TemporarySummary)
        ensures
            r.content@.len() == 0,
            r.last_context_hash is None,
            r.created_at == created_at,
    {
        TemporarySummary { content: String::new(), last_context_hash: None, created_at }
    }

    /// Whether a cached summary can be used for a context with hash `context_hash`:
    /// it was made from the same context, and, where a cache duration is set, it is
    /// no older than that (`age` is `None` where the clock cannot tell its age).
    pub fn cache_valid(&self, context_hash: u64, age: Option<u64>, cache_duration: u64) -> (r: bool)
        ensures
            r == (self.last_context_hash == Some(context_hash) && !(cache_duration > 0
                && (age matches Some(a) && a > cache_duration))),
    {
        match self.last_context_hash {
            Some(h) => {
                if h != context_hash {
                    return false;
                }
            },
            None => {
                return false;
            },
        }
        if cache_duration > 0 {
            if let Some(a) = age {
                if a > cache_duration {
                    return false;
                }
            }
        }
        true
    }
}

// ---------------------------------------------------------------------------
// The context
// ---------------------------------------------------------------------------

/// All that is known of the book while it is generated.
#[derive(Debug, Clone)]
pub struct Context {
    pub title: String,
    pub braindump: Braindump,
    pub genre: Genre,
    pub style: Style,
    pub characters: Characters,
    pub synopsis: Synopsis,
    pub outline: Outline,
    pub temporary_summary: TemporarySummary,
    pub history: Vec<String>,
}

/// The context as the model is given it: title, ideas, genre, style and synopsis,
/// then the outline and the characters (in the order that `outline_first` picks),
/// then the temporary synopsis.
pub open spec fn context_text(c: Context, outline_first: bool) -> Seq<char> {
    let common = "Title: "@ + c.title@ + "\nBraindump: "@ + c.braindump.content@ + "\nGenre: "@
        + c.genre.name@ + " - "@ + c.genre.description@ + "\nStyle: "@ + c.style.description@
        + "\nSynopsis: "@ + c.synopsis.content@;
    let outline = "\nOutline: "@ + outline_text(c.outline@);
    let characters = "\nCharacters: "@ + characters_text(character_list(c.characters.list@));
    let middle = if outline_first {
        outline + characters
    } else {
        characters + outline
    };
    common + middle + "\nTemporary Synopsis: "@ + c.temporary_summary.content@
}

impl Context {
    /// A context of the given parts with an empty history.
    pub fn new(
        title: String,
        braindump: Braindump,
        genre: Genre,
        style: Style,
        characters: Characters,
        synopsis: Synopsis,
        outline: Outline,
        temporary_summary: TemporarySummary,
    ) -> (r: Context)
        ensures
            r.title == title,
            r.braindump == braindump,
            r.genre == genre,
            r.style == style,
            r.characters == characters,
            r.synopsis == synopsis,
            r.outline == outline,
            r.temporary_summary == temporary_summary,
            r.history@.len() == 0,
    {
        Context {
            title,
            braindump,
            genre,
            style,
            characters,
            synopsis,
            outline,
            temporary_summary,
            history: Vec::new(),
        }
    }

    /// Records an entry at the end of the history.
    pub fn add_to_history(&mut self, entry: String)
        ensures
            final(self).history@ == old(self).history@.push(entry),
            final(self).title == old(self).title,
            final(self).braindump == old(self).braindump,
            final(self).genre == old(self).genre,
            final(self).style == old(self).style,
            final(self).characters == old(self).characters,
            final(self).synopsis == old(self).synopsis,
            final(self).outline == old(self).outline,
            final(self).temporary_summary == old(self).temporary_summary,
    {
        self.history.push(entry);
    }

    /// The context with the outline before the characters.
    pub fn get_full_context(&self) -> (r: String)
        ensures
            r@ == context_text(*self, true),
    {
        self.format_context(true)
    }

    /// The context with the characters before the outline.
    pub fn get_aggregated_context(&self) -> (r: String)
        ensures
            r@ == context_text(*self, false),
    {
        self.format_context(false)
    }

    /// The context as text; see `context_text`.
    pub fn format_context(&self, outline_first: bool) -> (r: String)
        ensures
            r@ == context_text(*self, outline_first),
    {
        let mut out = chars_of("Title: ");
        push_str(&mut out, self.title.as_str());
        push_str(&mut out, "\nBraindump: ");
        push_str(&mut out, self.braindump.content.as_str());
        push_str(&mut out, "\nGenre: ");
        push_str(&mut out, self.genre.name.as_str());
        push_str(&mut out, " - ");
        push_str(&mut out, self.genre.description.as_str());
        push_str(&mut out, "\nStyle: ");
        push_str(&mut out, self.style.description.as_str());
        push_str(&mut out, "\nSynopsis: ");
        push_str(&mut out, self.synopsis.content.as_str());
        let ghost common = out@;
        let outline = self.outline.to_text();
        let characters = self.characters.to_text();
        if outline_first {
            push_str(&mut out, "\nOutline: ");
            push_str(&mut out, outline.as_str());
            push_str(&mut out, "\nCharacters: ");
            push_str(&mut out, characters.as_str());
        } else {
            push_str(&mut out, "\nCharacters: ");
            push_str(&mut out, characters.as_str());
            push_str(&mut out, "\nOutline: ");
            push_str(&mut out, outline.as_str());
        }
        push_str(&mut out, "\nTemporary Synopsis: ");
        push_str(&mut out, self.temporary_summary.content.as_str());
        proof {
            let o = "\nOutline: "@ + outline_text(self.outline@);
            let c = "\nCharacters: "@ + characters_text(character_list(self.characters.list@));
            let tail = "\nTemporary Synopsis: "@ + self.temporary_summary.content@;
            if outline_first {
                assert(out@ =~= common + (o + c) + tail);
            } else {
                assert(out@ =~= common + (c + o) + tail);
            }
        }
        to_string(&out)
    }
}


// ---------------------------------------------------------------------------
// The book
// ---------------------------------------------------------------------------

/// A book: its title, its context and its chapters, with the time that its
/// generation took (milliseconds) overall and per phase, and whether it is complete.
#[derive(Debug, Clone)]
pub struct Book {
    pub title: String,
    pub context: Context,
    pub chapters: Vec<Chapter>,
    pub generation_time: Option<u64>,
    pub phase_timings: Option<Vec<(String, u64)>>,
    pub is_completed: bool,
}

/// The metadata of a book, as it is written to and read from its metadata file.
#[derive(Debug, Clone)]
pub struct Metadata {
    pub title: String,
    pub braindump: Braindump,
    pub genre: Genre,
    pub style: Style,
    pub characters: Characters,
    pub synopsis: Synopsis,
    pub outline: Outline,
}

/// The chapters are in order of their numbers.
pub open spec fn sorted_by_number(cs: Seq<Chapter>) -> bool {
    forall|i: int, j: int| 0 <= i < j < cs.len() ==> cs[i].number <= cs[j].number
}

/// The chapters numbered `n`, in their order.
pub open spec fn numbered(cs: Seq<Chapter>, n: usize) -> Seq<Chapter> {
    cs.filter(|c: Chapter| c.number == n)
}

/// The index of the first chapter numbered `n`, from index `i` on.
pub open spec fn first_numbered(cs: Seq<Chapter>, n: usize, i: int) -> Option<int>
    decreases cs.len() - i,
{
    if i < 0 || i >= cs.len() {
        None
    } else if cs[i].number == n {
        Some(i)
    } else {
        first_numbered(cs, n, i + 1)
    }
}

/// Calls `slice::sort_by_key` on the chapters' numbers. The sort is stable, so the
/// chapters come out ordered by number and the chapters of each number keep their
/// order.
#[verifier::external_body]
fn sort_chapters_by_number(v: &mut Vec<Chapter>)
    ensures
        final(v)@.len() == old(v)@.len(),
        sorted_by_number(final(v)@),
        forall|n: usize| #[trigger] numbered(final(v)@, n) == numbered(old(v)@, n),
{
    v.sort_by_key(|c| c.number);
}

impl Book {
    /// A book of the given parts that has taken no time and is not complete.
    pub fn new(title: String, context: Context, chapters: Vec<Chapter>) -> (r: Book)
        ensures
            r.title == title,
            r.context == context,
            r.chapters == chapters,
            r.generation_time is None,
            r.phase_timings is None,
            !r.is_completed,
    {
        Book {
            title,
            context,
            chapters,
            generation_time: None,
            phase_timings: None,
            is_completed: false,
        }
    }

    /// Adds a chapter: it replaces the first chapter with its number, or is
    /// appended, and then the chapters are sorted by number (stably).
    pub fn add_chapter(&mut self, chapter: Chapter)
        ensures
            final(self).title == old(self).title,
            final(self).context == old(self).context,
            final(self).generation_time == old(self).generation_time,
            final(self).phase_timings == old(self).phase_timings,
            final(self).is_completed == old(self).is_completed,
            match first_numbered(old(self).chapters@, chapter.number, 0) {
                Some(i) => final(self).chapters@ == old(self).chapters@.update(i, chapter),
                None => {
                    &&& final(self).chapters@.len() == old(self).chapters@.len() + 1
                    &&& sorted_by_number(final(self).chapters@)
                    &&& forall|n: usize| #[trigger] numbered(final(self).chapters@, n)
                        == numbered(old(self).chapters@.push(chapter), n)
                },
            },
    {
        let mut i: usize = 0;
        while i < self.chapters.len()
            invariant
                i <= self.chapters@.len(),
                self.chapters@ == old(self).chapters@,
                self.title == old(self).title,
                self.context == old(self).context,
                self.generation_time == old(self).generation_time,
                self.phase_timings == old(self).phase_timings,
                self.is_completed == old(self).is_completed,
                first_numbered(self.chapters@, chapter.number, 0) == first_numbered(self.chapters@, chapter.number, i as int),
            decreases self.chapters@.len() - i,
        {
            if self.chapters[i].number == chapter.number {
                proof {
                    lemma_first_numbered(self.chapters@, chapter.number, i as int);
                }
                self.chapters.set(i, chapter);
                return;
            }
            i = i + 1;
        }
        self.chapters.push(chapter);
        sort_chapters_by_number(&mut self.chapters);
    }
}

/// After a chapter is added, the book holds it; and a book whose chapters were in
/// order of their numbers keeps them in order.
pub proof fn law_added_chapter_is_held(before: Seq<Chapter>, after: Seq<Chapter>, chapter: Chapter)
    requires
        match first_numbered(before, chapter.number, 0) {
            Some(i) => after == before.update(i, chapter),
            None => {
                &&& after.len() == before.len() + 1
                &&& sorted_by_number(after)
                &&& forall|n: usize| #[trigger] numbered(after, n) == numbered(before.push(chapter), n)
            },
        },
    ensures
        after.contains(chapter),
        sorted_by_number(before) ==> sorted_by_number(after),
{
    lemma_first_numbered(before, chapter.number, 0);
    match first_numbered(before, chapter.number, 0) {
        Some(i) => {
            assert(after[i] == chapter);
            if sorted_by_number(before) {
                assert forall|a: int, b: int| 0 <= a < b < after.len() implies after[a].number <= after[b].number by {
                    assert(before[i].number == chapter.number);
                }
            }
        },
        None => {
            let pred = |c: Chapter| c.number == chapter.number;
            let pushed = before.push(chapter);
            assert(pushed[before.len() as int] == chapter);
            pushed.lemma_filter_contains(pred, before.len() as int);
            assert(numbered(after, chapter.number) == numbered(pushed, chapter.number));
            after.lemma_filter_contains_rev(pred, chapter);
        },
    }
}

proof fn lemma_first_numbered(cs: Seq<Chapter>, n: usize, i: int)
    requires
        0 <= i,
    ensures
        first_numbered(cs, n, i) matches Some(k) ==> i <= k < cs.len() && cs[k].number == n,
    decreases cs.len() - i,
{
    if i < cs.len() && cs[i].number != n {
        lemma_first_numbered(cs, n, i + 1);
    }
}

/// No two chapters have the same number.
pub open spec fn distinct_numbers(cs: Seq<Chapter>) -> bool {
    forall|i: int, j: int| 0 <= i < j < cs.len() ==> cs[i].number != cs[j].number
}

proof fn lemma_first_numbered_none(cs: Seq<Chapter>, n: usize, i: int)
    requires
        0 <= i,
        first_numbered(cs, n, i) is None,
    ensures
        forall|k: int| i <= k < cs.len() ==> cs[k].number != n,
    decreases cs.len() - i,
{
    if i < cs.len() {
        lemma_first_numbered_none(cs, n, i + 1);
    }
}

/// Two chapters numbered `n` make at least two in `numbered(cs, n)`.
proof fn lemma_two_numbered(cs: Seq<Chapter>, n: usize, a: int, b: int)
    requires
        0 <= a < b < cs.len(),
        cs[a].number == n,
        cs[b].number == n,
    ensures
        numbered(cs, n).len() >= 2,
    decreases cs.len(),
{
    reveal(Seq::filter);
    let pred = |c: Chapter| c.number == n;
    let d = cs.drop_last();
    if b == cs.len() - 1 {
        assert(d[a] == cs[a]);
        d.lemma_filter_contains(pred, a);
        assert(cs.filter(pred) == d.filter(pred).push(cs.last()));
    } else {
        assert(d[a] == cs[a] && d[b] == cs[b]);
        lemma_two_numbered(d, n, a, b);
    }
}

/// Chapters with distinct numbers have at most one of each number.
proof fn lemma_at_most_one_numbered(cs: Seq<Chapter>, n: usize)
    requires
        distinct_numbers(cs),
    ensures
        numbered(cs, n).len() <= 1,
        (forall|k: int| 0 <= k < cs.len() ==> cs[k].number != n) ==> numbered(cs, n).len() == 0,
    decreases cs.len(),
{
    reveal(Seq::filter);
    if cs.len() > 0 {
        let d = cs.drop_last();
        assert(distinct_numbers(d)) by {
            assert forall|i: int, j: int| 0 <= i < j < d.len() implies d[i].number != d[j].number by {
                assert(d[i] == cs[i] && d[j] == cs[j]);
            }
        }
        lemma_at_most_one_numbered(d, n);
        if cs.last().number == n {
            assert forall|k: int| 0 <= k < d.len() implies d[k].number != n by {
                assert(d[k] == cs[k]);
            }
        } else {
            assert((forall|k: int| 0 <= k < cs.len() ==> cs[k].number != n) ==> (forall|k: int|
                0 <= k < d.len() ==> d[k].number != n)) by {
                assert forall|k: int| 0 <= k < d.len() implies d[k] == cs[k] by {}
            }
        }
    }
}

/// Adding a chapter to a book whose chapters have distinct numbers keeps them
/// distinct, and changes no other chapter: afterwards the book holds the added
/// chapter and exactly the chapters it held of other numbers; it grows by one
/// where no chapter had that number, and otherwise keeps its length.
pub proof fn law_added_chapter_keeps_others(before: Seq<Chapter>, after: Seq<Chapter>, chapter: Chapter)
    requires
        match first_numbered(before, chapter.number, 0) {
            Some(i) => after == before.update(i, chapter),
            None => {
                &&& after.len() == before.len() + 1
                &&& sorted_by_number(after)
                &&& forall|n: usize| #[trigger] numbered(after, n) == numbered(before.push(chapter), n)
            },
        },
        distinct_numbers(before),
    ensures
        distinct_numbers(after),
        after.contains(chapter),
        forall|c: Chapter| #[trigger] after.contains(c) ==> c == chapter || (before.contains(c) && c.number != chapter.number),
        forall|c: Chapter| #[trigger] before.contains(c) && c.number != chapter.number ==> after.contains(c),
        after.len() == before.len() + (if first_numbered(before, chapter.number, 0) is None { 1int } else { 0int }),
{
    law_added_chapter_is_held(before, after, chapter);
    lemma_first_numbered(before, chapter.number, 0);
    match first_numbered(before, chapter.number, 0) {
        Some(i) => {
            assert forall|c: Chapter| #[trigger] after.contains(c) implies c == chapter || (before.contains(c)
                && c.number != chapter.number) by {
                let k = choose|k: int| 0 <= k < after.len() && after[k] == c;
                if k != i {
                    assert(before[k] == c);
                    assert(before[i].number == chapter.number);
                }
            }
            assert forall|c: Chapter| #[trigger] before.contains(c) && c.number != chapter.number implies after.contains(c) by {
                let k = choose|k: int| 0 <= k < before.len() && before[k] == c;
                assert(k != i);
                assert(after[k] == c);
            }
            assert forall|a: int, b: int| 0 <= a < b < after.len() implies after[a].number != after[b].number by {
                assert(after[a].number == before[a].number);
                assert(after[b].number == before[b].number);
            }
        },
        None => {
            lemma_first_numbered_none(before, chapter.number, 0);
            let pushed = before.push(chapter);
            assert(distinct_numbers(pushed)) by {
                assert forall|a: int, b: int| 0 <= a < b < pushed.len() implies pushed[a].number != pushed[b].number by {
                    if b == before.len() {
                        assert(pushed[a] == before[a]);
                    } else {
                        assert(pushed[a] == before[a] && pushed[b] == before[b]);
                    }
                }
            }
            assert forall|c: Chapter| #[trigger] after.contains(c) implies c == chapter || (before.contains(c)
                && c.number != chapter.number) by {
                let pred = |x: Chapter| x.number == c.number;
                let k = choose|k: int| 0 <= k < after.len() && after[k] == c;
                after.lemma_filter_contains(pred, k);
                assert(numbered(after, c.number) == numbered(pushed, c.number));
                pushed.lemma_filter_contains_rev(pred, c);
                let j = choose|j: int| 0 <= j < pushed.len() && pushed[j] == c;
                if j < before.len() {
                    assert(before[j] == c);
                }
            }
            assert forall|c: Chapter| #[trigger] before.contains(c) && c.number != chapter.number implies after.contains(c) by {
                let pred = |x: Chapter| x.number == c.number;
                let k = choose|k: int| 0 <= k < before.len() && before[k] == c;
                assert(pushed[k] == c);
                pushed.lemma_filter_contains(pred, k);
                assert(numbered(after, c.number) == numbered(pushed, c.number));
                after.lemma_filter_contains_rev(pred, c);
            }
            assert forall|a: int, b: int| 0 <= a < b < after.len() implies after[a].number != after[b].number by {
                if after[a].number == after[b].number {
                    let n = after[a].number;
                    lemma_two_numbered(after, n, a, b);
                    assert(numbered(after, n) == numbered(pushed, n));
                    lemma_at_most_one_numbered(pushed, n);
                }
            }
        },
    }
}

// ---------------------------------------------------------------------------
// Characters written and read back
// ---------------------------------------------------------------------------

/// A character that is read back as it was written: name and description trimmed,
/// each on one line, and no ':' in the name.
pub open spec fn plain_character(c: (Seq<char>, Seq<char>)) -> bool {
    &&& trim(c.0) == c.0
    &&& trim(c.1) == c.1
    &&& !has_char(c.0, ':')
    &&& !has_char(c.0, '\n')
    &&& !has_char(c.1, '\n')
}

proof fn lemma_character_line(c: (Seq<char>, Seq<char>))
    requires
        plain_character(c),
    ensures
        character_of_line(c.0 + ": "@ + c.1) == Some(c),
        !has_char(c.0 + ": "@ + c.1, '\n'),
        !((c.0 + ": "@ + c.1).last() == '\r'),
{
    reveal_strlit(": ");
    let line = c.0 + ": "@ + c.1;
    let n = c.0.len() as int;
    lemma_find_char_from_bounds(c.0, ':', 0);
    lemma_find_char_from_bounds(c.0, '\n', 0);
    lemma_find_char_from_bounds(c.1, '\n', 0);
    assert(line[n] == ':');
    assert forall|j: int| 0 <= j < n implies line[j] != ':' by {
        assert(line[j] == c.0[j]);
    }
    lemma_find_char_at(line, ':', 0, n);
    assert(line.subrange(0, n) =~= c.0);
    let after = line.subrange(n + 1, line.len() as int);
    assert(after =~= seq![' '] + c.1);
    lemma_trim_after_space(seq![' '], c.1);
    assert forall|j: int| 0 <= j < line.len() implies line[j] != '\n' by {
        if j < n {
            assert(line[j] == c.0[j]);
        } else if j >= n + 2 {
            assert(line[j] == c.1[j - n - 2]);
        }
    }
    lemma_find_char_from_bounds(line, '\n', 0);
    lemma_trim_last(c.1);
    if c.1.len() > 0 {
        assert(line.last() == c.1.last());
    }
}

proof fn lemma_characters_in_push(ls: Seq<Seq<char>>, l: Seq<char>, k: int)
    requires
        0 <= k <= ls.len(),
    ensures
        characters_in(ls.push(l), k) == characters_in(ls, k),
    decreases k,
{
    if k > 0 {
        assert(ls.push(l)[k - 1] == ls[k - 1]);
        lemma_characters_in_push(ls, l, k - 1);
    }
}

/// Characters written as text and read back are the characters that were written,
/// where each is trimmed, on one line, and has no ':' in its name.
pub proof fn law_characters_round_trip(cs: Seq<(Seq<char>, Seq<char>)>)
    requires
        forall|i: int| 0 <= i < cs.len() ==> plain_character(#[trigger] cs[i]),
    ensures
        characters_from_text(characters_text(cs)) == cs,
    decreases cs.len(),
{
    reveal_strlit("\n");
    if cs.len() == 0 {
        assert(lines(Seq::<char>::empty()) =~= Seq::<Seq<char>>::empty());
        assert(characters_text(cs) =~= Seq::<char>::empty());
    } else {
        let init = cs.drop_last();
        let c = cs.last();
        assert forall|i: int| 0 <= i < init.len() implies plain_character(#[trigger] init[i]) by {
            assert(init[i] == cs[i]);
        }
        law_characters_round_trip(init);
        assert(plain_character(cs[cs.len() - 1]));
        lemma_character_line(c);
        let t = characters_text(init);
        let l = c.0 + ": "@ + c.1;
        assert(characters_text(cs) =~= t + l + "\n"@);
        assert(t.len() == 0 || t.last() == '\n');
        lemma_lines_append(t, l);
        let ls = lines(t);
        lemma_characters_in_push(ls, l, ls.len() as int);
        assert(ls.push(l)[ls.len() as int] == l);
        assert(characters_in(ls.push(l), ls.len() + 1 as int) =~= init.push(c));
        assert(init.push(c) =~= cs);
    }
}

/// A genre written as "name: description" is read back as it was, where name and
/// description are trimmed and the name has no ':'.
pub proof fn law_genre_round_trip(name: Seq<char>, description: Seq<char>)
    requires
        trim(name) == name,
        trim(description) == description,
        !has_char(name, ':'),
    ensures
        genre_from_text(name + ": "@ + description) == (name, description),
{
    reveal_strlit(": ");
    let s = name + ": "@ + description;
    let n = name.len() as int;
    lemma_find_char_from_bounds(name, ':', 0);
    assert(s[n] == ':');
    assert forall|j: int| 0 <= j < n implies s[j] != ':' by {
        assert(s[j] == name[j]);
    }
    lemma_find_char_at(s, ':', 0, n);
    assert(s.subrange(0, n) =~= name);
    assert(s.subrange(n + 1, s.len() as int) =~= seq![' '] + description);
    lemma_trim_after_space(seq![' '], description);
}
} // verus!
