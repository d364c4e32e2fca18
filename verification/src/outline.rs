//! Book outlines: chapters with their scenes, read from the text that a writer
//! types in or that a language model produces.
use vstd::prelude::*;
use crate::text::{
    before_char, before_char_exec, chars_of, contains, contains_exec, decimal, first_word,
    first_word_exec, has_char, has_char_exec, lines, lines_exec, parse_usize, parse_usize_exec,
    push_decimal, starts_with, starts_with_exec, suffix_from, to_string, trim, trim_exec,
    find_char_from, find_char_from_exec, lemma_find_char_from_bounds, slice_chars, push_all,
    same_text, push_str, lemma_lines_append, lemma_trim_last, is_ws,
};

verus! {

// ---------------------------------------------------------------------------
// Types and their views
// ---------------------------------------------------------------------------

#[derive(Debug, PartialEq, Eq)]
pub struct SceneOutline {
    pub title: String,
    pub description: String,
    pub number: usize,
}

#[derive(Debug, PartialEq, Eq)]
pub struct ChapterOutline {
    pub title: String,
    pub description: String,
    pub scenes: Vec<SceneOutline>,
    pub chapter_number: usize,
}

#[derive(Debug, PartialEq, Eq)]
pub struct Outline {
    pub chapters: Vec<ChapterOutline>,
}

pub struct SceneOutlineView {
    pub title: Seq<char>,
    pub description: Seq<char>,
    pub number: usize,
}

pub struct ChapterOutlineView {
    pub title: Seq<char>,
    pub description: Seq<char>,
    pub scenes: Seq<SceneOutlineView>,
    pub chapter_number: usize,
}

impl View for SceneOutline {
    type V = SceneOutlineView;

    open spec fn view(&self) -> SceneOutlineView {
        SceneOutlineView { title: self.title@, description: self.description@, number: self.number }
    }
}

pub open spec fn scenes_view(v: Seq<SceneOutline>) -> Seq<SceneOutlineView> {
    v.map_values(|s: SceneOutline| s@)
}

impl View for ChapterOutline {
    type V = ChapterOutlineView;

    open spec fn view(&self) -> ChapterOutlineView {
        ChapterOutlineView {
            title: self.title@,
            description: self.description@,
            scenes: scenes_view(self.scenes@),
            chapter_number: self.chapter_number,
        }
    }
}

pub open spec fn chapters_view(v: Seq<ChapterOutline>) -> Seq<ChapterOutlineView> {
    v.map_values(|c: ChapterOutline| c@)
}

impl View for Outline {
    type V = Seq<ChapterOutlineView>;

    open spec fn view(&self) -> Seq<ChapterOutlineView> {
        chapters_view(self.chapters@)
    }
}

pub open spec fn opt_chapter_view(o: Option<ChapterOutline>) -> Option<ChapterOutlineView> {
    match o {
        Some(c) => Some(c@),
        None => None,
    }
}

pub open spec fn opt_scene_view(o: Option<SceneOutline>) -> Option<SceneOutlineView> {
    match o {
        Some(s) => Some(s@),
        None => None,
    }
}

impl Clone for SceneOutline {
    fn clone(&self) -> (r: Self)
        ensures
            r@ == self@,
    {
        SceneOutline {
            title: self.title.clone(),
            description: self.description.clone(),
            number: self.number,
        }
    }
}

/// A copy of a list of scene outlines.
pub fn clone_scenes(v: &Vec<SceneOutline>) -> (r: Vec<SceneOutline>)
    ensures
        scenes_view(r@) == scenes_view(v@),
{
    let mut r: Vec<SceneOutline> = Vec::new();
    let mut i: usize = 0;
    while i < v.len()
        invariant
            i <= v@.len(),
            scenes_view(r@) == scenes_view(v@.subrange(0, i as int)),
        decreases v@.len() - i,
    {
        let s = v[i].clone();
        let ghost before = r@;
        r.push(s);
        proof {
            assert(scenes_view(r@) =~= scenes_view(before).push(s@));
            assert(scenes_view(v@.subrange(0, i + 1)) =~= scenes_view(v@.subrange(0, i as int)).push(
                v@[i as int]@,
            ));
        }
        i = i + 1;
    }
    assert(v@.subrange(0, v@.len() as int) =~= v@);
    r
}

impl Clone for ChapterOutline {
    fn clone(&self) -> (r: Self)
        ensures
            r@ == self@,
    {
        ChapterOutline {
            title: self.title.clone(),
            description: self.description.clone(),
            scenes: clone_scenes(&self.scenes),
            chapter_number: self.chapter_number,
        }
    }
}

/// A copy of a list of chapter outlines.
pub fn clone_chapters(v: &Vec<ChapterOutline>) -> (r: Vec<ChapterOutline>)
    ensures
        chapters_view(r@) == chapters_view(v@),
{
    let mut r: Vec<ChapterOutline> = Vec::new();
    let mut i: usize = 0;
    while i < v.len()
        invariant
            i <= v@.len(),
            chapters_view(r@) == chapters_view(v@.subrange(0, i as int)),
        decreases v@.len() - i,
    {
        let c = v[i].clone();
        let ghost before = r@;
        r.push(c);
        proof {
            assert(chapters_view(r@) =~= chapters_view(before).push(c@));
            assert(chapters_view(v@.subrange(0, i + 1)) =~= chapters_view(
                v@.subrange(0, i as int),
            ).push(v@[i as int]@));
        }
        i = i + 1;
    }
    assert(v@.subrange(0, v@.len() as int) =~= v@);
    r
}

impl Clone for Outline {
    fn clone(&self) -> (r: Self)
        ensures
            r@ == self@,
    {
        Outline { chapters: clone_chapters(&self.chapters) }
    }
}

impl SceneOutline {
    /// An empty scene outline.
    pub fn empty() -> (r: Self)
        ensures
            r@.title.len() == 0,
            r@.description.len() == 0,
            r@.number == 0,
    {
        SceneOutline { title: String::new(), description: String::new(), number: 0 }
    }
}

impl ChapterOutline {
    /// An empty chapter outline.
    pub fn empty() -> (r: Self)
        ensures
            r@.title.len() == 0,
            r@.description.len() == 0,
            r@.scenes.len() == 0,
            r@.chapter_number == 0,
    {
        ChapterOutline {
            title: String::new(),
            description: String::new(),
            scenes: Vec::new(),
            chapter_number: 0,
        }
    }
}

// ---------------------------------------------------------------------------
// Reading an outline that a writer typed in: `Outline::from_string`
// ---------------------------------------------------------------------------

/// What a line of an outline is read as, once trimmed, when an outline is read from
/// a writer's text: a chapter heading starts with "Chapter", "Introduction" or
/// "Conclusion".
pub open spec fn is_plain_heading(t: Seq<char>) -> bool {
    starts_with(t, "Chapter"@) || starts_with(t, "Introduction"@) || starts_with(t, "Conclusion"@)
}

/// The state of the reader between two lines: the finished chapters, the chapter
/// being read, and the scene being read.
pub struct ReadState {
    pub chapters: Seq<ChapterOutlineView>,
    pub chapter: Option<ChapterOutlineView>,
    pub scene: Option<SceneOutlineView>,
}

pub open spec fn new_chapter(title: Seq<char>, description: Seq<char>, number: usize) -> ChapterOutlineView {
    ChapterOutlineView {
        title: title,
        description: description,
        scenes: Seq::empty(),
        chapter_number: number,
    }
}

pub open spec fn new_scene(title: Seq<char>, description: Seq<char>, number: usize) -> SceneOutlineView {
    SceneOutlineView { title: title, description: description, number: number }
}

pub open spec fn with_description(ch: ChapterOutlineView, d: Seq<char>) -> ChapterOutlineView {
    ChapterOutlineView {
        title: ch.title,
        description: d,
        scenes: ch.scenes,
        chapter_number: ch.chapter_number,
    }
}

pub open spec fn with_scene(ch: ChapterOutlineView, s: SceneOutlineView) -> ChapterOutlineView {
    ChapterOutlineView {
        title: ch.title,
        description: ch.description,
        scenes: ch.scenes.push(s),
        chapter_number: ch.chapter_number,
    }
}

pub open spec fn with_number(ch: ChapterOutlineView, n: usize) -> ChapterOutlineView {
    ChapterOutlineView {
        title: ch.title,
        description: ch.description,
        scenes: ch.scenes,
        chapter_number: n,
    }
}

/// A chapter with the scene being read, if any, added to its scenes.
pub open spec fn close_chapter(ch: ChapterOutlineView, sc: Option<SceneOutlineView>) -> ChapterOutlineView {
    match sc {
        Some(s) => with_scene(ch, s),
        None => ch,
    }
}

pub open spec fn read_start() -> ReadState {
    ReadState { chapters: Seq::empty(), chapter: None, scene: None }
}

/// One line of a writer's outline: a heading opens a chapter; within a chapter the
/// first line is its description, then lines alternate between a scene's title and
/// its description.
pub open spec fn read_step(st: ReadState, line: Seq<char>) -> ReadState {
    let t = trim(line);
    if is_plain_heading(t) {
        ReadState {
            chapters: match st.chapter {
                Some(ch) => st.chapters.push(close_chapter(ch, st.scene)),
                None => st.chapters,
            },
            chapter: Some(new_chapter(t, Seq::empty(), 0)),
            scene: if st.chapter is Some { None } else { st.scene },
        }
    } else if t.len() == 0 {
        st
    } else {
        match st.chapter {
            None => st,
            Some(ch) => if ch.description.len() == 0 {
                ReadState {
                    chapters: st.chapters,
                    chapter: Some(with_description(ch, t)),
                    scene: st.scene,
                }
            } else {
                match st.scene {
                    None => ReadState {
                        chapters: st.chapters,
                        chapter: st.chapter,
                        scene: Some(new_scene(t, Seq::empty(), 0)),
                    },
                    Some(sc) => if sc.description.len() == 0 {
                        ReadState {
                            chapters: st.chapters,
                            chapter: st.chapter,
                            scene: Some(new_scene(sc.title, t, sc.number)),
                        }
                    } else {
                        ReadState {
                            chapters: st.chapters,
                            chapter: Some(with_scene(ch, sc)),
                            scene: Some(new_scene(t, Seq::empty(), 0)),
                        }
                    },
                }
            },
        }
    }
}

/// The reader's state after the first `k` lines.
pub open spec fn read_lines(ls: Seq<Seq<char>>, k: int) -> ReadState
    decreases k,
{
    if k <= 0 {
        read_start()
    } else {
        read_step(read_lines(ls, k - 1), ls[k - 1])
    }
}

/// The chapters of the outline once the reader has seen every line.
pub open spec fn read_finish(st: ReadState) -> Seq<ChapterOutlineView> {
    match st.chapter {
        Some(ch) => st.chapters.push(close_chapter(ch, st.scene)),
        None => st.chapters,
    }
}

/// The outline that `Outline::from_string` reads from a writer's text.
pub open spec fn outline_from_text(s: Seq<char>) -> Seq<ChapterOutlineView> {
    read_finish(read_lines(lines(s), lines(s).len() as int))
}

/// The exec state of the reader.
struct Reader {
    chapters: Vec<ChapterOutline>,
    chapter: Option<ChapterOutline>,
    scene: Option<SceneOutline>,
}

impl Reader {
    spec fn state(&self) -> ReadState {
        ReadState {
            chapters: chapters_view(self.chapters@),
            chapter: opt_chapter_view(self.chapter),
            scene: opt_scene_view(self.scene),
        }
    }
}

/// Pushes a chapter outline, with its view.
fn push_chapter(v: &mut Vec<ChapterOutline>, c: ChapterOutline)
    ensures
        final(v)@ == old(v)@.push(c),
        chapters_view(final(v)@) == chapters_view(old(v)@).push(c@),
{
    let ghost before = v@;
    v.push(c);
    assert(chapters_view(v@) =~= chapters_view(before).push(c@));
}

/// Pushes a scene outline, with its view.
fn push_scene(v: &mut Vec<SceneOutline>, s: SceneOutline)
    ensures
        final(v)@ == old(v)@.push(s),
        scenes_view(final(v)@) == scenes_view(old(v)@).push(s@),
{
    let ghost before = v@;
    v.push(s);
    assert(scenes_view(v@) =~= scenes_view(before).push(s@));
}

/// A chapter with the given scene, if any, added to its scenes.
fn close_chapter_exec(ch: ChapterOutline, sc: Option<SceneOutline>) -> (r: ChapterOutline)
    ensures
        r@ == close_chapter(ch@, opt_scene_view(sc)),
{
    let mut ch = ch;
    match sc {
        Some(s) => {
            push_scene(&mut ch.scenes, s);
        },
        None => {},
    }
    ch
}

/// The plain chapter headings, once trimmed.
fn is_plain_heading_exec(t: &Vec<char>) -> (r: bool)
    ensures
        r == is_plain_heading(t@),
{
    starts_with_exec(t, &chars_of("Chapter")) || starts_with_exec(t, &chars_of("Introduction"))
        || starts_with_exec(t, &chars_of("Conclusion"))
}

fn read_step_exec(rd: &mut Reader, line: &Vec<char>)
    ensures
        final(rd).state() == read_step(old(rd).state(), line@),
{
    let t = trim_exec(line);
    if is_plain_heading_exec(&t) {
        let had_chapter = rd.chapter.is_some();
        match rd.chapter.take() {
            Some(ch) => {
                let sc = rd.scene.take();
                let closed = close_chapter_exec(ch, sc);
                push_chapter(&mut rd.chapters, closed);
            },
            None => {},
        }
        rd.chapter = Some(
            ChapterOutline {
                title: to_string(&t),
                description: String::new(),
                scenes: Vec::new(),
                chapter_number: 0,
            },
        );
        proof {
            assert(scenes_view(Seq::<SceneOutline>::empty()) =~= Seq::<SceneOutlineView>::empty());
        }
    } else if t.len() == 0 {
    } else {
        match rd.chapter.take() {
            None => {},
            Some(mut ch) => {
                if ch.description.as_str().is_empty() {
                    ch.description = to_string(&t);
                    rd.chapter = Some(ch);
                } else {
                    match rd.scene.take() {
                        None => {
                            rd.scene = Some(
                                SceneOutline { title: to_string(&t), description: String::new(), number: 0 },
                            );
                            rd.chapter = Some(ch);
                        },
                        Some(sc) => {
                            if sc.description.as_str().is_empty() {
                                rd.scene = Some(
                                    SceneOutline {
                                        title: sc.title,
                                        description: to_string(&t),
                                        number: sc.number,
                                    },
                                );
                                rd.chapter = Some(ch);
                            } else {
                                push_scene(&mut ch.scenes, sc);
                                rd.chapter = Some(ch);
                                rd.scene = Some(
                                    SceneOutline {
                                        title: to_string(&t),
                                        description: String::new(),
                                        number: 0,
                                    },
                                );
                            }
                        },
                    }
                }
            },
        }
    }
}

impl Outline {
    /// Reads an outline typed in by a writer: each line that starts with "Chapter",
    /// "Introduction" or "Conclusion" opens a chapter; the next line describes it;
    /// the lines after that are scene titles, each followed by its description.
    pub fn from_string(content: &str) -> (r: Outline)
        ensures
            r@ == outline_from_text(content@),
    {
        let s = chars_of(content);
        let ls = lines_exec(&s);
        let mut rd = Reader { chapters: Vec::new(), chapter: None, scene: None };
        proof {
            assert(chapters_view(Seq::<ChapterOutline>::empty()) =~= Seq::<ChapterOutlineView>::empty());
        }
        let mut k: usize = 0;
        while k < ls.len()
            invariant
                k <= ls@.len(),
                ls@.len() == lines(s@).len(),
                forall|j: int| 0 <= j < ls@.len() ==> #[trigger] ls@[j]@ == lines(s@)[j],
                rd.state() == read_lines(lines(s@), k as int),
            decreases ls@.len() - k,
        {
            read_step_exec(&mut rd, &ls[k]);
            k = k + 1;
        }
        let mut chapters = rd.chapters;
        match rd.chapter {
            Some(ch) => {
                let closed = close_chapter_exec(ch, rd.scene);
                push_chapter(&mut chapters, closed);
            },
            None => {},
        }
        Outline { chapters }
    }
}


/// The headings among the first `k` lines of a writer's outline, trimmed.
pub open spec fn heading_lines(ls: Seq<Seq<char>>, k: int) -> Seq<Seq<char>>
    decreases k,
{
    if k <= 0 {
        Seq::empty()
    } else if is_plain_heading(trim(ls[k - 1])) {
        heading_lines(ls, k - 1).push(trim(ls[k - 1]))
    } else {
        heading_lines(ls, k - 1)
    }
}

pub open spec fn titles(chs: Seq<ChapterOutlineView>) -> Seq<Seq<char>> {
    chs.map_values(|c: ChapterOutlineView| c.title)
}

/// The titles of the chapters that a reader state holds, the open one last.
pub open spec fn state_titles(st: ReadState) -> Seq<Seq<char>> {
    match st.chapter {
        Some(ch) => titles(st.chapters).push(ch.title),
        None => titles(st.chapters),
    }
}

proof fn lemma_read_titles(ls: Seq<Seq<char>>, k: int)
    requires
        0 <= k <= ls.len(),
    ensures
        state_titles(read_lines(ls, k)) == heading_lines(ls, k),
    decreases k,
{
    if k > 0 {
        lemma_read_titles(ls, k - 1);
        let st = read_lines(ls, k - 1);
        let t = trim(ls[k - 1]);
        if is_plain_heading(t) {
            match st.chapter {
                Some(ch) => {
                    assert(titles(st.chapters.push(close_chapter(ch, st.scene))) =~= titles(
                        st.chapters,
                    ).push(ch.title));
                },
                None => {},
            }
        } else {
            match st.chapter {
                Some(ch) => {
                    assert(titles(read_lines(ls, k).chapters) =~= titles(st.chapters));
                },
                None => {},
            }
        }
    }
}

/// A writer's outline has one chapter for each heading line, in order, titled by
/// that line once trimmed.
pub proof fn law_outline_chapters_are_headings(s: Seq<char>)
    ensures
        titles(outline_from_text(s)) == heading_lines(lines(s), lines(s).len() as int),
{
    let ls = lines(s);
    lemma_read_titles(ls, ls.len() as int);
    let st = read_lines(ls, ls.len() as int);
    match st.chapter {
        Some(ch) => {
            assert(titles(st.chapters.push(close_chapter(ch, st.scene))) =~= titles(st.chapters).push(
                ch.title,
            ));
        },
        None => {},
    }
}

// ---------------------------------------------------------------------------
// Reading an outline produced by a language model: `Outline::parse_from_llm`
// ---------------------------------------------------------------------------

/// A trimmed line that a model's outline uses as a chapter heading.
pub open spec fn is_model_heading(t: Seq<char>) -> bool {
    starts_with(t, "Chapter "@) || starts_with(t, "CHAPTER "@) || t == "Introduction"@
        || t == "Conclusion"@ || starts_with(t, "Prologue"@) || starts_with(t, "Epilogue"@) || (
    contains(t, "Chapter"@) && has_char(t, ':'))
}

/// A trimmed line that a model's outline uses as a scene heading.
pub open spec fn is_model_scene(t: Seq<char>) -> bool {
    starts_with(t, "Scene "@) || (contains(t, "Scene"@) && has_char(t, ':'))
}

/// The number in a heading's text after its keyword: the first word before any
/// colon, read as a decimal number.
pub open spec fn heading_number(rest: Seq<char>) -> Option<usize> {
    match first_word(before_char(rest, ':')) {
        Some(w) => parse_usize(w),
        None => None,
    }
}

/// The number of a heading that starts with `keyword`, or `fallback`.
pub open spec fn numbered(t: Seq<char>, keyword: Seq<char>, fallback: int) -> usize {
    if starts_with(t, keyword) {
        match heading_number(t.subrange(keyword.len() as int, t.len() as int)) {
            Some(n) => n,
            None => fallback as usize,
        }
    } else {
        fallback as usize
    }
}

/// The title of an untitled scene: "Scene " and its number.
pub open spec fn scene_label(n: nat) -> Seq<char> {
    "Scene "@ + decimal(n)
}

/// A chapter closed by the model reader: its pending scene added, and a missing
/// number taken from its place among the chapters read so far.
pub open spec fn close_model_chapter(
    chapters: Seq<ChapterOutlineView>,
    ch: ChapterOutlineView,
    sc: Option<SceneOutlineView>,
) -> ChapterOutlineView {
    let c = close_chapter(ch, sc);
    if c.chapter_number == 0 {
        with_number(c, (chapters.len() + 1) as usize)
    } else {
        c
    }
}

/// One line of a model's outline.
pub open spec fn model_step(st: ReadState, line: Seq<char>) -> ReadState {
    let t = trim(line);
    if t.len() == 0 {
        st
    } else if is_model_heading(t) {
        let chapters = match st.chapter {
            Some(ch) => st.chapters.push(close_model_chapter(st.chapters, ch, st.scene)),
            None => st.chapters,
        };
        ReadState {
            chapters: chapters,
            chapter: Some(new_chapter(t, Seq::empty(), numbered(t, "Chapter "@, chapters.len() + 1int))),
            scene: if st.chapter is Some { None } else { st.scene },
        }
    } else {
        match st.chapter {
            None => ReadState {
                chapters: st.chapters,
                chapter: Some(new_chapter("Chapter 1: Introduction"@, t, 1)),
                scene: st.scene,
            },
            Some(ch) => if ch.description.len() == 0 {
                ReadState {
                    chapters: st.chapters,
                    chapter: Some(with_description(ch, t)),
                    scene: st.scene,
                }
            } else if is_model_scene(t) {
                let ch2 = close_chapter(ch, st.scene);
                ReadState {
                    chapters: st.chapters,
                    chapter: Some(ch2),
                    scene: Some(new_scene(t, Seq::empty(), numbered(t, "Scene "@, ch2.scenes.len() + 1int))),
                }
            } else {
                match st.scene {
                    None => ReadState {
                        chapters: st.chapters,
                        chapter: st.chapter,
                        scene: Some(
                            new_scene(
                                scene_label(ch.scenes.len() + 1),
                                t,
                                (ch.scenes.len() + 1) as usize,
                            ),
                        ),
                    },
                    Some(sc) => if sc.description.len() == 0 {
                        ReadState {
                            chapters: st.chapters,
                            chapter: st.chapter,
                            scene: Some(new_scene(sc.title, t, sc.number)),
                        }
                    } else {
                        ReadState {
                            chapters: st.chapters,
                            chapter: Some(with_scene(ch, sc)),
                            scene: Some(
                                new_scene(
                                    scene_label(ch.scenes.len() + 2),
                                    t,
                                    (ch.scenes.len() + 2) as usize,
                                ),
                            ),
                        }
                    },
                }
            },
        }
    }
}

/// The model reader's state after the first `k` lines.
pub open spec fn model_lines(ls: Seq<Seq<char>>, k: int) -> ReadState
    decreases k,
{
    if k <= 0 {
        read_start()
    } else {
        model_step(model_lines(ls, k - 1), ls[k - 1])
    }
}

/// The chapters once the model reader has seen every line.
pub open spec fn model_finish(st: ReadState) -> Seq<ChapterOutlineView> {
    match st.chapter {
        Some(ch) => st.chapters.push(close_model_chapter(st.chapters, ch, st.scene)),
        None => st.chapters,
    }
}

/// A scene numbered by its place when it has no number.
pub open spec fn renumber_scene(s: SceneOutlineView, j: int) -> SceneOutlineView {
    if s.number == 0 {
        new_scene(s.title, s.description, (j + 1) as usize)
    } else {
        s
    }
}

/// A chapter, and its scenes, numbered by their places where they have no number.
pub open spec fn renumber_chapter(c: ChapterOutlineView, i: int) -> ChapterOutlineView {
    ChapterOutlineView {
        title: c.title,
        description: c.description,
        scenes: Seq::new(c.scenes.len(), |j: int| renumber_scene(c.scenes[j], j)),
        chapter_number: if c.chapter_number == 0 { (i + 1) as usize } else { c.chapter_number },
    }
}

pub open spec fn renumber(chs: Seq<ChapterOutlineView>) -> Seq<ChapterOutlineView> {
    Seq::new(chs.len(), |i: int| renumber_chapter(chs[i], i))
}

/// The outline that `Outline::parse_from_llm` reads from a model's output.
pub open spec fn outline_from_model(s: Seq<char>) -> Seq<ChapterOutlineView> {
    renumber(model_finish(model_lines(lines(s), lines(s).len() as int)))
}

/// The reader has seen `k` lines: it holds at most `k` chapters, and the chapter
/// being read at most `k` scenes.
pub open spec fn bounded(st: ReadState, k: int) -> bool {
    &&& st.chapters.len() + (if st.chapter is Some { 1int } else { 0 }) <= k
    &&& st.chapter matches Some(ch) ==> ch.scenes.len() + (if st.scene is Some { 1int } else { 0 })
        <= k
    &&& st.chapter is None ==> st.scene is None
}

fn is_model_heading_exec(t: &Vec<char>) -> (r: bool)
    ensures
        r == is_model_heading(t@),
{
    proof {
        reveal_strlit("Introduction");
        reveal_strlit("Conclusion");
    }
    let intro = chars_of("Introduction");
    let concl = chars_of("Conclusion");
    starts_with_exec(t, &chars_of("Chapter ")) || starts_with_exec(t, &chars_of("CHAPTER "))
        || same_text(t, &intro) || same_text(t, &concl) || starts_with_exec(
        t,
        &chars_of("Prologue"),
    ) || starts_with_exec(t, &chars_of("Epilogue")) || (contains_exec(t, &chars_of("Chapter"))
        && has_char_exec(t, ':'))
}

fn is_model_scene_exec(t: &Vec<char>) -> (r: bool)
    ensures
        r == is_model_scene(t@),
{
    starts_with_exec(t, &chars_of("Scene ")) || (contains_exec(t, &chars_of("Scene")) && has_char_exec(
        t,
        ':',
    ))
}


fn heading_number_exec(rest: &Vec<char>) -> (r: Option<usize>)
    ensures
        r == heading_number(rest@),
{
    let head = before_char_exec(rest, ':');
    match first_word_exec(&head) {
        Some(w) => parse_usize_exec(&w),
        None => None,
    }
}

fn numbered_exec(t: &Vec<char>, keyword: &str, fallback: usize) -> (r: usize)
    ensures
        r == numbered(t@, keyword@, fallback as int),
{
    let kw = chars_of(keyword);
    if starts_with_exec(t, &kw) {
        let rest = suffix_from(t, kw.len());
        match heading_number_exec(&rest) {
            Some(n) => n,
            None => fallback,
        }
    } else {
        fallback
    }
}

fn scene_label_exec(n: usize) -> (r: String)
    ensures
        r@ == scene_label(n as nat),
{
    let mut v = chars_of("Scene ");
    push_decimal(&mut v, n);
    to_string(&v)
}

fn close_model_chapter_exec(chapters: &Vec<ChapterOutline>, ch: ChapterOutline, sc: Option<SceneOutline>) -> (r: ChapterOutline)
    requires
        chapters@.len() < usize::MAX,
    ensures
        r@ == close_model_chapter(chapters_view(chapters@), ch@, opt_scene_view(sc)),
{
    let mut c = close_chapter_exec(ch, sc);
    if c.chapter_number == 0 {
        c.chapter_number = chapters.len() + 1;
    }
    c
}

fn model_step_exec(rd: &mut Reader, line: &Vec<char>, k: usize)
    requires
        k < usize::MAX,
        bounded(old(rd).state(), k as int),
    ensures
        final(rd).state() == model_step(old(rd).state(), line@),
        bounded(final(rd).state(), k + 1),
{
    let t = trim_exec(line);
    if t.len() == 0 {
        return;
    }
    if is_model_heading_exec(&t) {
        let had_chapter = rd.chapter.is_some();
        match rd.chapter.take() {
            Some(ch) => {
                let sc = rd.scene.take();
                let closed = close_model_chapter_exec(&rd.chapters, ch, sc);
                push_chapter(&mut rd.chapters, closed);
            },
            None => {},
        }
        let n = numbered_exec(&t, "Chapter ", rd.chapters.len() + 1);
        rd.chapter = Some(
            ChapterOutline {
                title: to_string(&t),
                description: String::new(),
                scenes: Vec::new(),
                chapter_number: n,
            },
        );
        proof {
            assert(scenes_view(Seq::<SceneOutline>::empty()) =~= Seq::<SceneOutlineView>::empty());
        }
        return;
    }
    match rd.chapter.take() {
        None => {
            proof {
                reveal_strlit("Chapter 1: Introduction");
            }
            rd.chapter = Some(
                ChapterOutline {
                    title: owned_text("Chapter 1: Introduction"),
                    description: to_string(&t),
                    scenes: Vec::new(),
                    chapter_number: 1,
                },
            );
            proof {
                assert(scenes_view(Seq::<SceneOutline>::empty()) =~= Seq::<SceneOutlineView>::empty());
            }
        },
        Some(mut ch) => {
            if ch.description.as_str().is_empty() {
                ch.description = to_string(&t);
                rd.chapter = Some(ch);
            } else if is_model_scene_exec(&t) {
                match rd.scene.take() {
                    Some(sc) => {
                        push_scene(&mut ch.scenes, sc);
                    },
                    None => {},
                }
                let n = numbered_exec(&t, "Scene ", ch.scenes.len() + 1);
                rd.scene = Some(SceneOutline { title: to_string(&t), description: String::new(), number: n });
                rd.chapter = Some(ch);
            } else {
                match rd.scene.take() {
                    None => {
                        let n = ch.scenes.len() + 1;
                        rd.scene = Some(
                            SceneOutline { title: scene_label_exec(n), description: to_string(&t), number: n },
                        );
                        rd.chapter = Some(ch);
                    },
                    Some(sc) => {
                        if sc.description.as_str().is_empty() {
                            rd.scene = Some(
                                SceneOutline {
                                    title: sc.title,
                                    description: to_string(&t),
                                    number: sc.number,
                                },
                            );
                            rd.chapter = Some(ch);
                        } else {
                            push_scene(&mut ch.scenes, sc);
                            let n = ch.scenes.len() + 1;
                            rd.scene = Some(
                                SceneOutline {
                                    title: scene_label_exec(n),
                                    description: to_string(&t),
                                    number: n,
                                },
                            );
                            rd.chapter = Some(ch);
                        }
                    },
                }
            }
        },
    }
}

/// A `String` holding a literal's text.
fn owned_text(s: &str) -> (r: String)
    ensures
        r@ == s@,
{
    s.to_owned()
}

/// Gives scenes without a number the number of their place.
fn renumber_scenes_exec(v: &Vec<SceneOutline>) -> (r: Vec<SceneOutline>)
    ensures
        scenes_view(r@) == Seq::new(
            v@.len(),
            |j: int| renumber_scene(scenes_view(v@)[j], j),
        ),
        forall|j: int| 0 <= j < r@.len() ==> #[trigger] r@[j].number > 0,
{
    let mut r: Vec<SceneOutline> = Vec::new();
    let mut j: usize = 0;
    while j < v.len()
        invariant
            j <= v@.len(),
            scenes_view(r@) =~= Seq::new(j as nat, |i: int| renumber_scene(scenes_view(v@)[i], i)),
            forall|x: int| 0 <= x < r@.len() ==> #[trigger] r@[x].number > 0,
        decreases v@.len() - j,
    {
        let mut s = v[j].clone();
        if s.number == 0 {
            s.number = j + 1;
        }
        push_scene(&mut r, s);
        j = j + 1;
    }
    r
}

impl Outline {
    /// Reads an outline produced by a language model. Chapters open at lines such as
    /// "Chapter 3: ...", "CHAPTER 3 ...", "Prologue" or "Introduction"; text before
    /// any chapter opens "Chapter 1: Introduction"; a chapter's first line describes
    /// it; "Scene ..." lines open scenes, and other lines alternate between untitled
    /// scenes and their descriptions. Numbers come from the headings where they
    /// hold one, else from the place of the chapter or scene.
    pub fn parse_from_llm(content: &str) -> (r: Outline)
        ensures
            r@ == outline_from_model(content@),
            forall|i: int| 0 <= i < r@.len() ==> #[trigger] r@[i].chapter_number > 0,
            forall|i: int, j: int|
                0 <= i < r@.len() && 0 <= j < r@[i].scenes.len() ==> #[trigger] r@[i].scenes[j].number
                    > 0,
    {
        let s = chars_of(content);
        let ls = lines_exec(&s);
        let mut rd = Reader { chapters: Vec::new(), chapter: None, scene: None };
        proof {
            assert(chapters_view(Seq::<ChapterOutline>::empty()) =~= Seq::<ChapterOutlineView>::empty());
        }
        let mut k: usize = 0;
        while k < ls.len()
            invariant
                k <= ls@.len(),
                ls@.len() == lines(s@).len(),
                forall|j: int| 0 <= j < ls@.len() ==> #[trigger] ls@[j]@ == lines(s@)[j],
                rd.state() == model_lines(lines(s@), k as int),
                bounded(rd.state(), k as int),
            decreases ls@.len() - k,
        {
            model_step_exec(&mut rd, &ls[k], k);
            k = k + 1;
        }
        let mut chapters = rd.chapters;
        match rd.chapter {
            Some(ch) => {
                let closed = close_model_chapter_exec(&chapters, ch, rd.scene);
                push_chapter(&mut chapters, closed);
            },
            None => {},
        }
        let ghost finished = chapters_view(chapters@);
        let mut out: Vec<ChapterOutline> = Vec::new();
        let mut i: usize = 0;
        while i < chapters.len()
            invariant
                i <= chapters@.len(),
                finished == chapters_view(chapters@),
                chapters_view(out@) =~= Seq::new(i as nat, |x: int| renumber_chapter(finished[x], x)),
                forall|x: int, y: int|
                    0 <= x < out@.len() && 0 <= y < out@[x].scenes@.len() ==> #[trigger] out@[x].scenes@[y].number > 0,
                forall|x: int| 0 <= x < out@.len() ==> #[trigger] out@[x].chapter_number > 0,
            decreases chapters@.len() - i,
        {
            let c = &chapters[i];
            let scenes = renumber_scenes_exec(&c.scenes);
            let n = if c.chapter_number == 0 { i + 1 } else { c.chapter_number };
            let nc = ChapterOutline {
                title: c.title.clone(),
                description: c.description.clone(),
                scenes,
                chapter_number: n,
            };
            proof {
                assert(nc@.scenes =~= renumber_chapter(finished[i as int], i as int).scenes);
            }
            push_chapter(&mut out, nc);
            i = i + 1;
        }
        assert forall|i: int, j: int|
            0 <= i < chapters_view(out@).len() && 0 <= j < chapters_view(out@)[i].scenes.len()
            implies #[trigger] chapters_view(out@)[i].scenes[j].number > 0 by {
            assert(chapters_view(out@)[i].scenes[j] == out@[i].scenes@[j]@);
        }
        Outline { chapters: out }
    }
}

/// The titles of the chapters that the model reader has opened after the first `k`
/// lines, in order: each heading line trimmed, and the opening chapter that text
/// before any heading gets.
spec fn model_titles(ls: Seq<Seq<char>>, k: int) -> Seq<Seq<char>>
    decreases k,
{
    if k <= 0 {
        Seq::empty()
    } else {
        let t = trim(ls[k - 1]);
        let prev = model_titles(ls, k - 1);
        if t.len() == 0 {
            prev
        } else if is_model_heading(t) {
            prev.push(t)
        } else if prev.len() == 0 {
            seq!["Chapter 1: Introduction"@]
        } else {
            prev
        }
    }
}

proof fn lemma_model_titles(ls: Seq<Seq<char>>, k: int)
    requires
        0 <= k <= ls.len(),
    ensures
        state_titles(model_lines(ls, k)) == model_titles(ls, k),
        model_lines(ls, k).chapter is None ==> model_lines(ls, k).chapters.len() == 0,
    decreases k,
{
    if k > 0 {
        lemma_model_titles(ls, k - 1);
        let st = model_lines(ls, k - 1);
        let t = trim(ls[k - 1]);
        if t.len() == 0 {
        } else if is_model_heading(t) {
            match st.chapter {
                Some(ch) => {
                    let c = close_model_chapter(st.chapters, ch, st.scene);
                    assert(c.title == ch.title);
                    assert(titles(st.chapters.push(c)) =~= titles(st.chapters).push(ch.title));
                },
                None => {},
            }
        } else {
            match st.chapter {
                Some(ch) => {
                    assert(titles(model_lines(ls, k).chapters) =~= titles(st.chapters));
                },
                None => {
                    assert(titles(st.chapters) =~= Seq::<Seq<char>>::empty());
                    assert(state_titles(model_lines(ls, k)) =~= seq!["Chapter 1: Introduction"@]);
                },
            }
        }
    }
}

/// Once a heading line has opened a chapter, its title stays among the titles read.
proof fn lemma_model_title_kept(ls: Seq<Seq<char>>, k: int, j: int)
    requires
        0 <= k < j <= ls.len(),
        trim(ls[k]).len() > 0,
        is_model_heading(trim(ls[k])),
    ensures
        model_titles(ls, j).contains(trim(ls[k])),
    decreases j,
{
    if j == k + 1 {
        assert(model_titles(ls, j).last() == trim(ls[k]));
    } else {
        lemma_model_title_kept(ls, k, j - 1);
        let prev = model_titles(ls, j - 1);
        let i = choose|i: int| 0 <= i < prev.len() && prev[i] == trim(ls[k]);
        assert(model_titles(ls, j)[i] == trim(ls[k]));
    }
}

/// Every line of a model's outline that, once trimmed, holds the word "Chapter" and
/// a colon opens a chapter of the outline, titled by that trimmed line.
pub proof fn law_model_chapter_lines_are_chapters(s: Seq<char>, k: int)
    requires
        0 <= k < lines(s).len(),
        contains(trim(lines(s)[k]), "Chapter"@),
        has_char(trim(lines(s)[k]), ':'),
    ensures
        titles(outline_from_model(s)).contains(trim(lines(s)[k])),
{
    let ls = lines(s);
    let n = ls.len() as int;
    let t = trim(ls[k]);
    assert(t.len() > 0) by {
        if t.len() == 0 {
            assert(find_char_from(t, ':', 0) is None);
        }
    }
    lemma_model_title_kept(ls, k, n);
    lemma_model_titles(ls, n);
    let st = model_lines(ls, n);
    let fin = model_finish(st);
    match st.chapter {
        Some(ch) => {
            let c = close_model_chapter(st.chapters, ch, st.scene);
            assert(c.title == ch.title);
            assert(titles(fin) =~= titles(st.chapters).push(ch.title));
        },
        None => {},
    }
    assert(titles(renumber(fin)) =~= titles(fin));
}


// ---------------------------------------------------------------------------
// Reading one chapter's outline from a model: `ChapterOutline::parse_from_llm`
// ---------------------------------------------------------------------------

/// A trimmed line that opens a scene in a model's chapter outline.
pub open spec fn is_chapter_scene_line(l: Seq<char>) -> bool {
    starts_with(l, "Scene "@) || (contains(l, "Scene"@) && (has_char(l, ':') || has_char(l, '-')
        || has_char(l, '.')))
}

/// The text after the first occurrence of `c` in `l`, trimmed.
pub open spec fn after_char(l: Seq<char>, c: char, p: int) -> Seq<char> {
    trim(l.subrange(p + 1, l.len() as int))
}

/// A scene's title in its heading line: the text after the first colon, else after
/// the first dash, else after the first dot, else the whole line.
pub open spec fn scene_title_of(l: Seq<char>) -> Seq<char> {
    match find_char_from(l, ':', 0) {
        Some(p) => after_char(l, ':', p),
        None => match find_char_from(l, '-', 0) {
            Some(p) => after_char(l, '-', p),
            None => match find_char_from(l, '.', 0) {
                Some(p) => after_char(l, '.', p),
                None => l,
            },
        },
    }
}

proof fn lemma_no_char_none(l: Seq<char>, c: char)
    requires
        forall|j: int| 0 <= j < l.len() ==> l[j] != c,
    ensures
        find_char_from(l, c, 0) is None,
{
    lemma_find_char_from_bounds(l, c, 0);
}

/// A scene heading's title is the trimmed text after its first separator: after the
/// first ':' where the line has one; else after the first '-'; else after the first
/// '.' (so "Scene 1. Clouds" is titled "Clouds"); a heading with none of them is its
/// own title.
pub proof fn law_scene_title_after_separator(l: Seq<char>, p: int)
    requires
        0 <= p < l.len(),
    ensures
        l[p] == ':' && (forall|j: int| 0 <= j < p ==> l[j] != ':') ==> scene_title_of(l) == trim(
            l.subrange(p + 1, l.len() as int),
        ),
        l[p] == '-' && (forall|j: int| 0 <= j < l.len() ==> l[j] != ':') && (forall|j: int|
            0 <= j < p ==> l[j] != '-') ==> scene_title_of(l) == trim(l.subrange(p + 1, l.len() as int)),
        l[p] == '.' && (forall|j: int| 0 <= j < l.len() ==> l[j] != ':' && l[j] != '-') && (forall|j: int|
            0 <= j < p ==> l[j] != '.') ==> scene_title_of(l) == trim(l.subrange(p + 1, l.len() as int)),
{
    if l[p] == ':' && (forall|j: int| 0 <= j < p ==> l[j] != ':') {
        crate::text::lemma_find_char_at(l, ':', 0, p);
    }
    if l[p] == '-' && (forall|j: int| 0 <= j < l.len() ==> l[j] != ':') && (forall|j: int| 0 <= j < p ==> l[j] != '-') {
        lemma_no_char_none(l, ':');
        crate::text::lemma_find_char_at(l, '-', 0, p);
    }
    if l[p] == '.' && (forall|j: int| 0 <= j < l.len() ==> l[j] != ':' && l[j] != '-') && (forall|j: int|
        0 <= j < p ==> l[j] != '.') {
        lemma_no_char_none(l, ':');
        lemma_no_char_none(l, '-');
        crate::text::lemma_find_char_at(l, '.', 0, p);
    }
}

/// A scene heading without ':', '-' or '.' is its own title.
pub proof fn law_scene_title_without_separator(l: Seq<char>)
    requires
        forall|j: int| 0 <= j < l.len() ==> l[j] != ':' && l[j] != '-' && l[j] != '.',
    ensures
        scene_title_of(l) == l,
{
    lemma_no_char_none(l, ':');
    lemma_no_char_none(l, '-');
    lemma_no_char_none(l, '.');
}

/// The state of the chapter reader between two lines.
pub struct ChapterState {
    pub title: Seq<char>,
    pub description: Seq<char>,
    pub scenes: Seq<SceneOutlineView>,
    pub scene_number: int,
    pub section: Option<int>,
    pub in_scene: bool,
}

pub open spec fn chapter_start() -> ChapterState {
    ChapterState {
        title: Seq::empty(),
        description: Seq::empty(),
        scenes: Seq::empty(),
        scene_number: 0,
        section: None,
        in_scene: false,
    }
}

pub open spec fn set_scene_description(
    scenes: Seq<SceneOutlineView>,
    i: int,
    d: Seq<char>,
) -> Seq<SceneOutlineView> {
    scenes.update(i, new_scene(scenes[i].title, d, scenes[i].number))
}

/// One line of a chapter's outline.
pub open spec fn chapter_step(st: ChapterState, line: Seq<char>) -> ChapterState {
    let l = trim(line);
    if l.len() == 0 {
        st
    } else if st.title.len() == 0 {
        ChapterState { title: l, ..st }
    } else if starts_with(l, "Chapter Description:"@) {
        ChapterState {
            description: trim(l.subrange(20, l.len() as int)),
            section: None,
            in_scene: false,
            ..st
        }
    } else if starts_with(l, "Scene Description:"@) {
        match st.section {
            Some(i) => ChapterState {
                scenes: set_scene_description(st.scenes, i, trim(l.subrange(18, l.len() as int))),
                in_scene: false,
                ..st
            },
            None => st,
        }
    } else if is_chapter_scene_line(l) {
        let scenes = st.scenes.push(new_scene(scene_title_of(l), Seq::empty(), (st.scene_number + 1) as usize));
        ChapterState {
            scenes: scenes,
            scene_number: st.scene_number + 1,
            section: Some(scenes.len() - 1),
            in_scene: true,
            ..st
        }
    } else if st.in_scene && st.section is Some {
        let i = st.section->0;
        if st.scenes[i].description.len() == 0 {
            ChapterState { scenes: set_scene_description(st.scenes, i, l), ..st }
        } else {
            ChapterState {
                scenes: set_scene_description(st.scenes, i, st.scenes[i].description.push('\n') + l),
                ..st
            }
        }
    } else if st.description.len() == 0 {
        ChapterState { description: l, ..st }
    } else {
        st
    }
}

pub open spec fn chapter_lines(ls: Seq<Seq<char>>, k: int) -> ChapterState
    decreases k,
{
    if k <= 0 {
        chapter_start()
    } else {
        chapter_step(chapter_lines(ls, k - 1), ls[k - 1])
    }
}

/// The state of the second reading, over the description, between two lines.
pub struct SceneSearch {
    pub scenes: Seq<SceneOutlineView>,
    pub title: Seq<char>,
    pub text: Seq<char>,
    pub number: int,
}

pub open spec fn search_step(st: SceneSearch, line: Seq<char>) -> SceneSearch {
    let l = trim(line);
    if l.len() == 0 {
        st
    } else if is_chapter_scene_line(l) {
        let pushed = st.title.len() > 0;
        SceneSearch {
            scenes: if pushed {
                st.scenes.push(new_scene(st.title, st.text, st.number as usize))
            } else {
                st.scenes
            },
            title: scene_title_of(l),
            text: if pushed { Seq::empty() } else { st.text },
            number: st.number + 1,
        }
    } else if st.title.len() > 0 {
        SceneSearch {
            text: if st.text.len() > 0 { st.text.push('\n') + l } else { st.text + l },
            ..st
        }
    } else {
        st
    }
}

pub open spec fn search_lines(ls: Seq<Seq<char>>, k: int) -> SceneSearch
    decreases k,
{
    if k <= 0 {
        SceneSearch { scenes: Seq::empty(), title: Seq::empty(), text: Seq::empty(), number: 0 }
    } else {
        search_step(search_lines(ls, k - 1), ls[k - 1])
    }
}

/// The scenes that the second reading finds in a description.
pub open spec fn scenes_in_description(d: Seq<char>) -> Seq<SceneOutlineView> {
    let st = search_lines(lines(d), lines(d).len() as int);
    if st.title.len() > 0 {
        st.scenes.push(new_scene(st.title, st.text, st.number as usize))
    } else {
        st.scenes
    }
}

/// The chapter outline that `ChapterOutline::parse_from_llm` reads.
pub open spec fn chapter_from_model(s: Seq<char>) -> ChapterOutlineView {
    let st = chapter_lines(lines(s), lines(s).len() as int);
    let scenes = st.scenes;
    ChapterOutlineView {
        title: st.title,
        description: st.description,
        scenes: if scenes.len() == 0 && st.description.len() > 0 {
            scenes_in_description(st.description)
        } else {
            scenes
        },
        chapter_number: 0,
    }
}

/// Scene numbers are positive and increase along the list.
pub open spec fn increasing_numbers(scenes: Seq<SceneOutlineView>) -> bool {
    &&& forall|i: int| 0 <= i < scenes.len() ==> #[trigger] scenes[i].number > 0
    &&& forall|i: int, j: int|
        0 <= i < j < scenes.len() ==> #[trigger] scenes[i].number < #[trigger] scenes[j].number
}

/// The invariant of the chapter reader: the scenes are numbered 1, 2, ... in
/// order, and the scene being described is the last one.
pub open spec fn chapter_inv(st: ChapterState, k: int) -> bool {
    &&& st.scene_number == st.scenes.len()
    &&& st.scenes.len() <= k
    &&& forall|i: int| 0 <= i < st.scenes.len() ==> #[trigger] st.scenes[i].number == i + 1
    &&& st.section matches Some(i) ==> i == st.scenes.len() - 1
}

struct ChapterReader {
    title: Vec<char>,
    description: Vec<char>,
    scenes: Vec<SceneOutline>,
    scene_number: usize,
    section: Option<usize>,
    in_scene: bool,
}

impl ChapterReader {
    spec fn state(&self) -> ChapterState {
        ChapterState {
            title: self.title@,
            description: self.description@,
            scenes: scenes_view(self.scenes@),
            scene_number: self.scene_number as int,
            section: match self.section {
                Some(i) => Some(i as int),
                None => None,
            },
            in_scene: self.in_scene,
        }
    }
}

fn is_chapter_scene_line_exec(l: &Vec<char>) -> (r: bool)
    ensures
        r == is_chapter_scene_line(l@),
{
    starts_with_exec(l, &chars_of("Scene ")) || (contains_exec(l, &chars_of("Scene")) && (
    has_char_exec(l, ':') || has_char_exec(l, '-') || has_char_exec(l, '.')))
}

fn after_char_exec(l: &Vec<char>, p: usize) -> (r: Vec<char>)
    requires
        p < l@.len(),
    ensures
        r@ == trim(l@.subrange(p + 1, l@.len() as int)),
{
    assert(p < l.len());
    let rest = suffix_from(l, p + 1);
    trim_exec(&rest)
}

fn scene_title_of_exec(l: &Vec<char>) -> (r: Vec<char>)
    ensures
        r@ == scene_title_of(l@),
{
    proof {
        lemma_find_char_from_bounds(l@, ':', 0);
        lemma_find_char_from_bounds(l@, '-', 0);
        lemma_find_char_from_bounds(l@, '.', 0);
    }
    match find_char_from_exec(l, ':', 0) {
        Some(p) => after_char_exec(l, p),
        None => match find_char_from_exec(l, '-', 0) {
            Some(p) => after_char_exec(l, p),
            None => match find_char_from_exec(l, '.', 0) {
                Some(p) => after_char_exec(l, p),
                None => {
                    let r = slice_chars(l, 0, l.len());
                    assert(r@ =~= l@);
                    r
                },
            },
        },
    }
}

/// Replaces the description of scene `i`.
fn set_description_exec(scenes: &mut Vec<SceneOutline>, i: usize, d: Vec<char>)
    requires
        i < old(scenes)@.len(),
    ensures
        scenes_view(final(scenes)@) == set_scene_description(scenes_view(old(scenes)@), i as int, d@),
        final(scenes)@.len() == old(scenes)@.len(),
        forall|j: int| 0 <= j < final(scenes)@.len() ==> #[trigger] final(scenes)@[j].number == old(scenes)@[j].number,
{
    let old_scene = scenes[i].clone();
    let ns = SceneOutline { title: old_scene.title, description: to_string(&d), number: old_scene.number };
    let ghost before = scenes@;
    scenes.set(i, ns);
    assert(scenes_view(scenes@) =~= set_scene_description(scenes_view(before), i as int, d@));
}

fn chapter_step_exec(rd: &mut ChapterReader, line: &Vec<char>, k: usize)
    requires
        k < usize::MAX,
        chapter_inv(old(rd).state(), k as int),
    ensures
        final(rd).state() == chapter_step(old(rd).state(), line@),
        chapter_inv(final(rd).state(), k + 1),
{
    let l = trim_exec(line);
    if l.len() == 0 {
        return;
    }
    if rd.title.len() == 0 {
        rd.title = l;
        return;
    }
    proof {
        reveal_strlit("Chapter Description:");
        reveal_strlit("Scene Description:");
    }
    let cd = chars_of("Chapter Description:");
    if starts_with_exec(&l, &cd) {
        let rest = suffix_from(&l, 20);
        rd.description = trim_exec(&rest);
        rd.section = None;
        rd.in_scene = false;
        return;
    }
    let sd = chars_of("Scene Description:");
    if starts_with_exec(&l, &sd) {
        match rd.section {
            Some(i) => {
                let rest = suffix_from(&l, 18);
                let d = trim_exec(&rest);
                set_description_exec(&mut rd.scenes, i, d);
                rd.in_scene = false;
            },
            None => {},
        }
        return;
    }
    if is_chapter_scene_line_exec(&l) {
        rd.scene_number = rd.scene_number + 1;
        let title = scene_title_of_exec(&l);
        push_scene(&mut rd.scenes, SceneOutline { title: to_string(&title), description: String::new(), number: rd.scene_number });
        rd.section = Some(rd.scenes.len() - 1);
        rd.in_scene = true;
        return;
    }
    if rd.in_scene && rd.section.is_some() {
        let i = rd.section.unwrap();
        if rd.scenes[i].description.as_str().is_empty() {
            set_description_exec(&mut rd.scenes, i, l);
        } else {
            let mut d = chars_of(rd.scenes[i].description.as_str());
            d.push('\n');
            push_all(&mut d, &l);
            set_description_exec(&mut rd.scenes, i, d);
        }
        return;
    }
    if rd.description.len() == 0 {
        rd.description = l;
    }
}

fn search_step_exec(st: &mut (Vec<SceneOutline>, Vec<char>, Vec<char>, usize), line: &Vec<char>, k: usize)
    requires
        k < usize::MAX,
        old(st).3 <= k,
        increasing_numbers(scenes_view(old(st).0@)),
        forall|i: int| 0 <= i < old(st).0@.len() ==> #[trigger] old(st).0@[i].number < old(st).3,
        old(st).1@.len() > 0 ==> old(st).3 > 0,
    ensures
        ({
            let o = SceneSearch { scenes: scenes_view(old(st).0@), title: old(st).1@, text: old(st).2@, number: old(st).3 as int };
            let n = SceneSearch { scenes: scenes_view(final(st).0@), title: final(st).1@, text: final(st).2@, number: final(st).3 as int };
            n == search_step(o, line@)
        }),
        final(st).3 <= k + 1,
        increasing_numbers(scenes_view(final(st).0@)),
        forall|i: int| 0 <= i < final(st).0@.len() ==> #[trigger] final(st).0@[i].number < final(st).3,
        final(st).1@.len() > 0 ==> final(st).3 > 0,
{
    let l = trim_exec(line);
    if l.len() == 0 {
        return;
    }
    if is_chapter_scene_line_exec(&l) {
        if st.1.len() > 0 {
            let sc = SceneOutline { title: to_string(&st.1), description: to_string(&st.2), number: st.3 };
            push_scene(&mut st.0, sc);
            st.2 = Vec::new();
        }
        st.1 = scene_title_of_exec(&l);
        st.3 = st.3 + 1;
        return;
    }
    if st.1.len() > 0 {
        if st.2.len() > 0 {
            st.2.push('\n');
        }
        push_all(&mut st.2, &l);
    }
}

impl ChapterOutline {
    /// Reads one chapter's outline from a model's output: the first line is the
    /// chapter's title; "Chapter Description:" (or the first plain line) gives its
    /// description; lines such as "Scene 2: The Storm" open scenes, numbered in
    /// order; "Scene Description:" sets the current scene's description, and the
    /// other lines after a scene heading are added to its description, one per
    /// line. When no scene heading is found, the description is searched for
    /// scenes.
    pub fn parse_from_llm(content: &str) -> (r: ChapterOutline)
        ensures
            r@ == chapter_from_model(content@),
            r@.chapter_number == 0,
            increasing_numbers(r@.scenes),
    {
        let s = chars_of(content);
        let ls = lines_exec(&s);
        let mut rd = ChapterReader {
            title: Vec::new(),
            description: Vec::new(),
            scenes: Vec::new(),
            scene_number: 0,
            section: None,
            in_scene: false,
        };
        proof {
            assert(scenes_view(Seq::<SceneOutline>::empty()) =~= Seq::<SceneOutlineView>::empty());
        }
        let mut k: usize = 0;
        while k < ls.len()
            invariant
                k <= ls@.len(),
                ls@.len() == lines(s@).len(),
                forall|j: int| 0 <= j < ls@.len() ==> #[trigger] ls@[j]@ == lines(s@)[j],
                rd.state() == chapter_lines(lines(s@), k as int),
                chapter_inv(rd.state(), k as int),
            decreases ls@.len() - k,
        {
            chapter_step_exec(&mut rd, &ls[k], k);
            k = k + 1;
        }
        let ghost st = rd.state();
        assert forall|i: int, j: int| 0 <= i < j < rd.scenes@.len() implies
            #[trigger] scenes_view(rd.scenes@)[i].number < #[trigger] scenes_view(rd.scenes@)[j].number by {
            assert(scenes_view(rd.scenes@)[i].number == st.scenes[i].number);
            assert(scenes_view(rd.scenes@)[j].number == st.scenes[j].number);
        }
        assert forall|i: int| 0 <= i < rd.scenes@.len() implies #[trigger] scenes_view(rd.scenes@)[i].number > 0 by {
            assert(scenes_view(rd.scenes@)[i].number == st.scenes[i].number);
        }
        let scenes = if rd.scenes.len() == 0 && rd.description.len() > 0 {
            let dls = lines_exec(&rd.description);
            let mut ss: (Vec<SceneOutline>, Vec<char>, Vec<char>, usize) = (Vec::new(), Vec::new(), Vec::new(), 0);
            proof {
                assert(scenes_view(Seq::<SceneOutline>::empty()) =~= Seq::<SceneOutlineView>::empty());
            }
            let mut m: usize = 0;
            while m < dls.len()
                invariant
                    m <= dls@.len(),
                    dls@.len() == lines(rd.description@).len(),
                    forall|j: int| 0 <= j < dls@.len() ==> #[trigger] dls@[j]@ == lines(rd.description@)[j],
                    (SceneSearch { scenes: scenes_view(ss.0@), title: ss.1@, text: ss.2@, number: ss.3 as int })
                        == search_lines(lines(rd.description@), m as int),
                    ss.3 <= m,
                    increasing_numbers(scenes_view(ss.0@)),
                    forall|i: int| 0 <= i < ss.0@.len() ==> #[trigger] ss.0@[i].number < ss.3,
                    ss.1@.len() > 0 ==> ss.3 > 0,
                decreases dls@.len() - m,
            {
                search_step_exec(&mut ss, &dls[m], m);
                m = m + 1;
            }
            let mut found = ss.0;
            if ss.1.len() > 0 {
                let sc = SceneOutline { title: to_string(&ss.1), description: to_string(&ss.2), number: ss.3 };
                push_scene(&mut found, sc);
            }
            found
        } else {
            rd.scenes
        };
        ChapterOutline {
            title: to_string(&rd.title),
            description: to_string(&rd.description),
            scenes,
            chapter_number: 0,
        }
    }
}


// ---------------------------------------------------------------------------
// Outlines as text
// ---------------------------------------------------------------------------

/// The text of a list of scenes in an outline: each scene's title and description
/// on lines of their own.
pub open spec fn scenes_text(ss: Seq<SceneOutlineView>) -> Seq<char>
    decreases ss.len(),
{
    if ss.len() == 0 {
        Seq::empty()
    } else {
        scenes_text(ss.drop_last()) + ss.last().title + "\n"@ + ss.last().description + "\n"@
    }
}

/// The text of an outline: for each chapter its title and description on lines of
/// their own, then its scenes.
pub open spec fn outline_text(chs: Seq<ChapterOutlineView>) -> Seq<char>
    decreases chs.len(),
{
    if chs.len() == 0 {
        Seq::empty()
    } else {
        outline_text(chs.drop_last()) + chs.last().title + "\n"@ + chs.last().description + "\n"@
            + scenes_text(chs.last().scenes)
    }
}

fn push_line(out: &mut Vec<char>, s: &String)
    ensures
        final(out)@ == old(out)@ + s@ + "\n"@,
{
    push_str(out, s.as_str());
    push_str(out, "\n");
}

fn push_scenes_text(out: &mut Vec<char>, ss: &Vec<SceneOutline>)
    ensures
        final(out)@ == old(out)@ + scenes_text(scenes_view(ss@)),
{
    let ghost start = out@;
    let mut i: usize = 0;
    while i < ss.len()
        invariant
            i <= ss@.len(),
            out@ == start + scenes_text(scenes_view(ss@.subrange(0, i as int))),
        decreases ss@.len() - i,
    {
        let ghost before = out@;
        push_line(out, &ss[i].title);
        push_line(out, &ss[i].description);
        proof {
            let pre = scenes_view(ss@.subrange(0, i + 1));
            assert(pre.drop_last() =~= scenes_view(ss@.subrange(0, i as int)));
            assert(pre.last() == ss@[i as int]@);
            assert(out@ =~= start + scenes_text(pre));
        }
        i = i + 1;
    }
    assert(ss@.subrange(0, ss@.len() as int) =~= ss@);
}

impl Outline {
    /// The outline as text, as it is stored in the book's metadata.
    pub fn to_text(&self) -> (r: String)
        ensures
            r@ == outline_text(self@),
    {
        let mut out: Vec<char> = Vec::new();
        let mut i: usize = 0;
        while i < self.chapters.len()
            invariant
                i <= self.chapters@.len(),
                out@ == outline_text(chapters_view(self.chapters@.subrange(0, i as int))),
            decreases self.chapters@.len() - i,
        {
            let ch = &self.chapters[i];
            push_line(&mut out, &ch.title);
            push_line(&mut out, &ch.description);
            push_scenes_text(&mut out, &ch.scenes);
            proof {
                let pre = chapters_view(self.chapters@.subrange(0, i + 1));
                assert(pre.drop_last() =~= chapters_view(self.chapters@.subrange(0, i as int)));
                assert(pre.last() == self.chapters@[i as int]@);
            }
            i = i + 1;
        }
        assert(self.chapters@.subrange(0, self.chapters@.len() as int) =~= self.chapters@);
        to_string(&out)
    }
}

impl ChapterOutline {
    /// The chapter as "title: description".
    pub fn to_text(&self) -> (r: String)
        ensures
            r@ == self@.title + ": "@ + self@.description,
    {
        let mut out = chars_of(self.title.as_str());
        push_str(&mut out, ": ");
        push_str(&mut out, self.description.as_str());
        to_string(&out)
    }
}

impl SceneOutline {
    /// The scene as "Scene {number}: {title}" and its description on the next line.
    pub fn to_text(&self) -> (r: String)
        ensures
            r@ == "Scene "@ + decimal(self.number as nat) + ": "@ + self@.title + "\n"@ + self@.description,
    {
        let mut out = chars_of("Scene ");
        push_decimal(&mut out, self.number);
        push_str(&mut out, ": ");
        push_str(&mut out, self.title.as_str());
        push_str(&mut out, "\n");
        push_str(&mut out, self.description.as_str());
        to_string(&out)
    }
}

// ---------------------------------------------------------------------------
// An outline written as text and read back
// ---------------------------------------------------------------------------

/// A scene as it is read back from text: its number is not written, so it is 0.
pub open spec fn zero_scene(s: SceneOutlineView) -> SceneOutlineView {
    SceneOutlineView { title: s.title, description: s.description, number: 0 }
}

pub open spec fn zero_scenes(ss: Seq<SceneOutlineView>) -> Seq<SceneOutlineView> {
    ss.map_values(|s: SceneOutlineView| zero_scene(s))
}

/// A chapter as it is read back from text, without the numbers of it and its scenes.
pub open spec fn zero_chapter(c: ChapterOutlineView) -> ChapterOutlineView {
    ChapterOutlineView { title: c.title, description: c.description, scenes: zero_scenes(c.scenes), chapter_number: 0 }
}

pub open spec fn zero_chapters(chs: Seq<ChapterOutlineView>) -> Seq<ChapterOutlineView> {
    chs.map_values(|c: ChapterOutlineView| zero_chapter(c))
}

/// A line of text that is read back as written: trimmed, not empty, one line, and
/// no chapter heading.
pub open spec fn plain_line(t: Seq<char>) -> bool {
    trim(t) == t && t.len() > 0 && !has_char(t, '\n') && !is_plain_heading(t)
}

/// A chapter heading that is read back as written: trimmed and one line.
pub open spec fn heading_line(t: Seq<char>) -> bool {
    trim(t) == t && is_plain_heading(t) && !has_char(t, '\n')
}

/// A scene whose title and description are plain lines.
pub open spec fn readable_scene(s: SceneOutlineView) -> bool {
    plain_line(s.title) && plain_line(s.description)
}

/// A chapter whose title is a heading and whose description and scenes are plain
/// lines.
pub open spec fn readable_chapter(c: ChapterOutlineView) -> bool {
    &&& heading_line(c.title)
    &&& plain_line(c.description)
    &&& forall|i: int| 0 <= i < c.scenes.len() ==> readable_scene(#[trigger] c.scenes[i])
}

/// The lines of the scenes of an outline's text.
pub open spec fn scene_lines(ss: Seq<SceneOutlineView>) -> Seq<Seq<char>>
    decreases ss.len(),
{
    if ss.len() == 0 {
        Seq::empty()
    } else {
        scene_lines(ss.drop_last()).push(ss.last().title).push(ss.last().description)
    }
}

/// The lines of the chapters of an outline's text.
pub open spec fn outline_lines(chs: Seq<ChapterOutlineView>) -> Seq<Seq<char>>
    decreases chs.len(),
{
    if chs.len() == 0 {
        Seq::empty()
    } else {
        outline_lines(chs.drop_last()).push(chs.last().title).push(chs.last().description) + scene_lines(chs.last().scenes)
    }
}

proof fn lemma_line_ok(l: Seq<char>)
    requires
        trim(l) == l,
        !has_char(l, '\n'),
    ensures
        !(l.len() > 0 && l.last() == '\r'),
{
    lemma_trim_last(l);
    assert(is_ws('\r'));
}

proof fn lemma_append_line(t: Seq<char>, l: Seq<char>)
    requires
        t.len() == 0 || t.last() == '\n',
        trim(l) == l,
        !has_char(l, '\n'),
    ensures
        lines(t + l + "\n"@) == lines(t).push(l),
        (t + l + "\n"@).last() == '\n',
{
    reveal_strlit("\n");
    lemma_line_ok(l);
    lemma_lines_append(t, l);
}

proof fn lemma_scene_text_lines(t: Seq<char>, ss: Seq<SceneOutlineView>)
    requires
        t.len() == 0 || t.last() == '\n',
        forall|i: int| 0 <= i < ss.len() ==> readable_scene(#[trigger] ss[i]),
    ensures
        lines(t + scenes_text(ss)) == lines(t) + scene_lines(ss),
        (t + scenes_text(ss)).len() == 0 || (t + scenes_text(ss)).last() == '\n',
    decreases ss.len(),
{
    if ss.len() == 0 {
        assert(t + scenes_text(ss) =~= t);
        assert(lines(t) + scene_lines(ss) =~= lines(t));
    } else {
        let init = ss.drop_last();
        assert forall|i: int| 0 <= i < init.len() implies readable_scene(#[trigger] init[i]) by {
            assert(init[i] == ss[i]);
        }
        assert(readable_scene(ss[ss.len() - 1]));
        lemma_scene_text_lines(t, init);
        let u = t + scenes_text(init);
        let s = ss.last();
        lemma_append_line(u, s.title);
        let v = u + s.title + "\n"@;
        lemma_append_line(v, s.description);
        assert(t + scenes_text(ss) =~= v + s.description + "\n"@);
        assert(lines(t) + scene_lines(ss) =~= (lines(t) + scene_lines(init)).push(s.title).push(s.description));
    }
}

proof fn lemma_outline_text_lines(chs: Seq<ChapterOutlineView>)
    requires
        forall|i: int| 0 <= i < chs.len() ==> readable_chapter(#[trigger] chs[i]),
    ensures
        lines(outline_text(chs)) == outline_lines(chs),
        outline_text(chs).len() == 0 || outline_text(chs).last() == '\n',
    decreases chs.len(),
{
    if chs.len() == 0 {
        assert(lines(Seq::<char>::empty()) =~= Seq::<Seq<char>>::empty());
    } else {
        let init = chs.drop_last();
        assert forall|i: int| 0 <= i < init.len() implies readable_chapter(#[trigger] init[i]) by {
            assert(init[i] == chs[i]);
        }
        assert(readable_chapter(chs[chs.len() - 1]));
        lemma_outline_text_lines(init);
        let c = chs.last();
        let u = outline_text(init);
        lemma_append_line(u, c.title);
        let v = u + c.title + "\n"@;
        lemma_append_line(v, c.description);
        let w = v + c.description + "\n"@;
        lemma_scene_text_lines(w, c.scenes);
        assert(outline_text(chs) =~= w + scenes_text(c.scenes));
    }
}

/// The reader's state after the first `k` lines, from a given state.
pub open spec fn read_from(st: ReadState, ls: Seq<Seq<char>>, k: int) -> ReadState
    decreases k,
{
    if k <= 0 {
        st
    } else {
        read_step(read_from(st, ls, k - 1), ls[k - 1])
    }
}

proof fn lemma_read_prefix(a: Seq<Seq<char>>, b: Seq<Seq<char>>, k: int)
    requires
        0 <= k <= b.len(),
    ensures
        read_lines(a + b, a.len() + k) == read_from(read_lines(a, a.len() as int), b, k),
    decreases k,
{
    if k == 0 {
        lemma_read_same(a, a + b, a.len() as int);
    } else {
        lemma_read_prefix(a, b, k - 1);
        assert((a + b)[a.len() + k - 1] == b[k - 1]);
    }
}

proof fn lemma_read_same(a: Seq<Seq<char>>, c: Seq<Seq<char>>, k: int)
    requires
        0 <= k <= a.len(),
        k <= c.len(),
        forall|i: int| 0 <= i < k ==> a[i] == c[i],
    ensures
        read_lines(c, k) == read_lines(a, k),
    decreases k,
{
    if k > 0 {
        lemma_read_same(a, c, k - 1);
    }
}

proof fn lemma_read_from_concat(st: ReadState, a: Seq<Seq<char>>, b: Seq<Seq<char>>, k: int)
    requires
        0 <= k <= b.len(),
    ensures
        read_from(st, a + b, a.len() + k) == read_from(read_from(st, a, a.len() as int), b, k),
    decreases k,
{
    if k == 0 {
        lemma_read_from_same(st, a, a + b, a.len() as int);
    } else {
        lemma_read_from_concat(st, a, b, k - 1);
        assert((a + b)[a.len() + k - 1] == b[k - 1]);
    }
}

proof fn lemma_read_from_same(st: ReadState, a: Seq<Seq<char>>, c: Seq<Seq<char>>, k: int)
    requires
        0 <= k <= a.len(),
        k <= c.len(),
        forall|i: int| 0 <= i < k ==> a[i] == c[i],
    ensures
        read_from(st, c, k) == read_from(st, a, k),
    decreases k,
{
    if k > 0 {
        lemma_read_from_same(st, a, c, k - 1);
    }
}

proof fn lemma_read_lines_is_read_from(ls: Seq<Seq<char>>, k: int)
    requires
        0 <= k,
    ensures
        read_lines(ls, k) == read_from(read_start(), ls, k),
    decreases k,
{
    if k > 0 {
        lemma_read_lines_is_read_from(ls, k - 1);
    }
}

/// The reader's state in the middle of a chapter: the chapter with all but its last
/// scene, and its last scene being read.
pub open spec fn chapter_open(closed: Seq<ChapterOutlineView>, c: ChapterOutlineView) -> ReadState {
    let z = zero_chapter(c);
    if z.scenes.len() == 0 {
        ReadState { chapters: closed, chapter: Some(z), scene: None }
    } else {
        ReadState {
            chapters: closed,
            chapter: Some(ChapterOutlineView { scenes: z.scenes.drop_last(), ..z }),
            scene: Some(z.scenes.last()),
        }
    }
}

proof fn lemma_read_scenes(closed: Seq<ChapterOutlineView>, c: ChapterOutlineView, ss: Seq<SceneOutlineView>)
    requires
        plain_line(c.description),
        forall|i: int| 0 <= i < ss.len() ==> readable_scene(#[trigger] ss[i]),
    ensures
        read_from(
            ReadState { chapters: closed, chapter: Some(new_chapter(c.title, c.description, 0)), scene: None },
            scene_lines(ss),
            scene_lines(ss).len() as int,
        ) == chapter_open(closed, ChapterOutlineView { scenes: ss, ..c }),
    decreases ss.len(),
{
    let st0 = ReadState { chapters: closed, chapter: Some(new_chapter(c.title, c.description, 0)), scene: None };
    if ss.len() == 0 {
        assert(zero_scenes(ss) =~= Seq::<SceneOutlineView>::empty());
    } else {
        let init = ss.drop_last();
        assert forall|i: int| 0 <= i < init.len() implies readable_scene(#[trigger] init[i]) by {
            assert(init[i] == ss[i]);
        }
        lemma_read_scenes(closed, c, init);
        let s = ss.last();
        assert(readable_scene(ss[ss.len() - 1]));
        let li = scene_lines(init);
        assert(scene_lines(ss) =~= li + seq![s.title, s.description]);
        lemma_read_from_concat(st0, li, seq![s.title, s.description], 2);
        let mid = read_from(st0, li, li.len() as int);
        assert(mid == chapter_open(closed, ChapterOutlineView { scenes: init, ..c }));
        assert(zero_scenes(ss) =~= zero_scenes(init).push(zero_scene(s)));
        let after_title = read_step(mid, s.title);
        let after_desc = read_step(after_title, s.description);
        let two = seq![s.title, s.description];
        assert(two[0] == s.title && two[1] == s.description);
        assert(read_from(mid, two, 0) == mid);
        assert(read_from(mid, two, 1) == after_title);
        assert(read_from(mid, two, 2) == after_desc);
        assert(trim(s.title) == s.title && !is_plain_heading(s.title) && s.title.len() > 0);
        assert(trim(s.description) == s.description && !is_plain_heading(s.description)
            && s.description.len() > 0);
        let zi = zero_scenes(init);
        let zs = zero_scenes(ss);
        assert(zs.last() == zero_scene(s));
        assert(zs.drop_last() =~= zi);
        let z = zero_chapter(ChapterOutlineView { scenes: init, ..c });
        let zz = zero_chapter(ChapterOutlineView { scenes: ss, ..c });
        assert(z.description.len() > 0);
        let want = chapter_open(closed, ChapterOutlineView { scenes: ss, ..c });
        assert(want.chapters == closed);
        assert(want.scene == Some(zero_scene(s)));
        assert(want.chapter == Some(ChapterOutlineView { scenes: zi, ..z }));
        if init.len() == 0 {
            assert(zi =~= Seq::<SceneOutlineView>::empty());
            assert(mid == ReadState { chapters: closed, chapter: Some(z), scene: None });
            assert(after_title == ReadState {
                chapters: closed,
                chapter: Some(z),
                scene: Some(new_scene(s.title, Seq::empty(), 0)),
            });
            assert(ChapterOutlineView { scenes: zi, ..z } == z);
        } else {
            let sl = init.last();
            assert(readable_scene(init[init.len() - 1]));
            assert(zi.last() == zero_scene(sl));
            assert(zi.last().description.len() > 0);
            let open_ch = ChapterOutlineView { scenes: zi.drop_last(), ..z };
            assert(mid == ReadState { chapters: closed, chapter: Some(open_ch), scene: Some(zi.last()) });
            assert(zi.drop_last().push(zi.last()) =~= zi);
            assert(with_scene(open_ch, zi.last()) == ChapterOutlineView { scenes: zi, ..z });
            assert(after_title == ReadState {
                chapters: closed,
                chapter: Some(ChapterOutlineView { scenes: zi, ..z }),
                scene: Some(new_scene(s.title, Seq::empty(), 0)),
            });
        }
        assert(after_desc == want);
    }
}

proof fn lemma_read_chapter(prior: Seq<ChapterOutlineView>, c: ChapterOutlineView)
    requires
        forall|i: int| 0 <= i < prior.len() ==> readable_chapter(#[trigger] prior[i]),
        readable_chapter(c),
    ensures
        read_from(
            if prior.len() == 0 { read_start() } else { chapter_open(zero_chapters(prior.drop_last()), prior.last()) },
            seq![c.title, c.description] + scene_lines(c.scenes),
            (seq![c.title, c.description] + scene_lines(c.scenes)).len() as int,
        ) == chapter_open(zero_chapters(prior), c),
{
    let st = if prior.len() == 0 { read_start() } else { chapter_open(zero_chapters(prior.drop_last()), prior.last()) };
    let head = seq![c.title, c.description];
    lemma_read_from_concat(st, head, scene_lines(c.scenes), scene_lines(c.scenes).len() as int);
    let after_title = read_step(st, c.title);
    let closed = zero_chapters(prior);
    if prior.len() > 0 {
        let z = zero_chapter(prior.last());
        assert(closed =~= zero_chapters(prior.drop_last()).push(z));
        if z.scenes.len() > 0 {
            assert(z.scenes.drop_last().push(z.scenes.last()) =~= z.scenes);
        }
    } else {
        assert(closed =~= Seq::<ChapterOutlineView>::empty());
    }
    assert(after_title == ReadState { chapters: closed, chapter: Some(new_chapter(c.title, Seq::empty(), 0)), scene: None });
    let after_desc = read_step(after_title, c.description);
    assert(after_desc == ReadState { chapters: closed, chapter: Some(new_chapter(c.title, c.description, 0)), scene: None });
    assert(head[0] == c.title && head[1] == c.description);
    assert(read_from(st, head, 0) == st);
    assert(read_from(st, head, 1) == after_title);
    assert(read_from(st, head, 2) == after_desc);
    lemma_read_scenes(closed, c, c.scenes);
    assert(ChapterOutlineView { scenes: c.scenes, ..c } == c);
}

proof fn lemma_read_outline(chs: Seq<ChapterOutlineView>)
    requires
        forall|i: int| 0 <= i < chs.len() ==> readable_chapter(#[trigger] chs[i]),
    ensures
        read_from(read_start(), outline_lines(chs), outline_lines(chs).len() as int) == if chs.len() == 0 {
            read_start()
        } else {
            chapter_open(zero_chapters(chs.drop_last()), chs.last())
        },
    decreases chs.len(),
{
    if chs.len() > 0 {
        let init = chs.drop_last();
        assert forall|i: int| 0 <= i < init.len() implies readable_chapter(#[trigger] init[i]) by {
            assert(init[i] == chs[i]);
        }
        assert(readable_chapter(chs[chs.len() - 1]));
        lemma_read_outline(init);
        let c = chs.last();
        let tail = seq![c.title, c.description] + scene_lines(c.scenes);
        assert(outline_lines(chs) =~= outline_lines(init) + tail);
        lemma_read_from_concat(read_start(), outline_lines(init), tail, tail.len() as int);
        lemma_read_chapter(init, c);
    }
}

/// An outline written as text and read back is the outline written, with its
/// chapter and scene numbers 0 (the text holds none), where every chapter's title
/// is a one-line heading ("Chapter", "Introduction" or "Conclusion" first) and its
/// description and its scenes' titles and descriptions are one-line, trimmed,
/// non-empty and no headings.
pub proof fn law_outline_round_trip(chs: Seq<ChapterOutlineView>)
    requires
        forall|i: int| 0 <= i < chs.len() ==> readable_chapter(#[trigger] chs[i]),
    ensures
        outline_from_text(outline_text(chs)) == zero_chapters(chs),
{
    lemma_outline_text_lines(chs);
    let ls = outline_lines(chs);
    lemma_read_lines_is_read_from(ls, ls.len() as int);
    lemma_read_outline(chs);
    if chs.len() == 0 {
        assert(zero_chapters(chs) =~= Seq::<ChapterOutlineView>::empty());
    } else {
        let z = zero_chapter(chs.last());
        assert(zero_chapters(chs) =~= zero_chapters(chs.drop_last()).push(z));
        if z.scenes.len() > 0 {
            assert(z.scenes.drop_last().push(z.scenes.last()) =~= z.scenes);
        }
    }
}
} // verus!
