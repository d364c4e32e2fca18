//! The temporary summaries: the context from which the model is asked to summarise
//! the story so far before a chapter, a scene or a scene's text is written, the
//! file in which a summary is cached, and the summary made of the model's answer.
use vstd::prelude::*;
use crate::book::{character_list, characters_text, Content, Context, Scene, TemporarySummary};
use crate::chapter_body::{char_width, utf8_len};
use crate::error::BookGeneratorError;
use crate::generation::{check_chapter_request, chapter_request_error, joined_chapters};
use crate::outline::{
    chapters_view, outline_text, ChapterOutline, ChapterOutlineView, SceneOutline,
    SceneOutlineView,
};
use crate::text::{chars_of, decimal, push_all, push_decimal, push_str, to_string, trim, trim_exec};

verus! {

// ---------------------------------------------------------------------------
// Texts joined by a separator
// ---------------------------------------------------------------------------

/// The items joined by `sep`, as `join` does.
pub open spec fn joined_with(items: Seq<Seq<char>>, sep: Seq<char>) -> Seq<char>
    decreases items.len(),
{
    if items.len() == 0 {
        Seq::empty()
    } else if items.len() == 1 {
        items[0]
    } else {
        joined_with(items.drop_last(), sep) + sep + items.last()
    }
}

proof fn lemma_joined_push(items: Seq<Seq<char>>, sep: Seq<char>, x: Seq<char>)
    ensures
        joined_with(items.push(x), sep) == joined_with(items, sep) + (if items.len() > 0 {
            sep
        } else {
            Seq::empty()
        }) + x,
{
    assert(items.push(x).drop_last() =~= items);
    if items.len() == 0 {
        assert(items.push(x)[0] == x);
        assert(Seq::<char>::empty() + Seq::<char>::empty() + x =~= x);
    }
}

/// Appends an item to a text being joined by `sep`: the separator first unless it
/// is the first item.
fn push_item(out: &mut Vec<char>, first: bool, sep: &str, item: &Vec<char>)
    ensures
        final(out)@ == old(out)@ + (if first { Seq::empty() } else { sep@ }) + item@,
{
    let ghost before = out@;
    if !first {
        push_str(out, sep);
    }
    push_all(out, item);
    if first {
        assert(out@ =~= before + Seq::<char>::empty() + item@);
    }
}

// ---------------------------------------------------------------------------
// Texts cut at a byte length
// ---------------------------------------------------------------------------

/// The first number of characters, from `k` on, whose UTF-8 length reaches `n` (or
/// all of them).
pub open spec fn reach_from(s: Seq<char>, n: nat, k: int) -> int
    decreases s.len() - k,
{
    if k < 0 || k >= s.len() || utf8_len(s.take(k)) >= n {
        if k < 0 { 0 } else { k }
    } else {
        reach_from(s, n, k + 1)
    }
}

/// The characters of the first `n` bytes of `s`, as `&s[..n]` takes them.
pub open spec fn cut_at_bytes(s: Seq<char>, n: nat) -> Seq<char> {
    s.take(reach_from(s, n, 0))
}

/// Whether a text longer than `n` bytes can be cut at `n` bytes: the cut falls
/// between two characters. Elsewhere cutting panics.
pub open spec fn cuts_cleanly(s: Seq<char>, n: nat) -> bool {
    utf8_len(s) > n ==> utf8_len(cut_at_bytes(s, n)) == n
}

/// A text shortened to `n` bytes, with a note, where it is longer.
pub open spec fn truncated(s: Seq<char>, n: nat) -> Seq<char> {
    if utf8_len(s) > n {
        cut_at_bytes(s, n) + "... (truncated for brevity)"@
    } else {
        s
    }
}

proof fn lemma_take_step(s: Seq<char>, k: int)
    requires
        0 <= k < s.len(),
    ensures
        utf8_len(s.take(k + 1)) == utf8_len(s.take(k)) + char_width(s[k]),
{
    assert(s.take(k + 1).drop_last() =~= s.take(k));
}

fn width(c: char) -> (w: usize)
    ensures
        w == char_width(c),
        1 <= w <= 4,
{
    let u = c as u32;
    if u < 0x80 {
        1
    } else if u < 0x800 {
        2
    } else if u < 0x10000 {
        3
    } else {
        4
    }
}

/// Cuts a text at `n` bytes: the index of the cut, and whether it falls between
/// two characters with exactly `n` bytes before it.
fn cut_index(s: &Vec<char>, n: usize) -> (r: (usize, bool))
    ensures
        r.0 == reach_from(s@, n as nat, 0),
        r.1 == (utf8_len(s@.take(r.0 as int)) == n || utf8_len(s@.take(r.0 as int)) < n),
{
    let mut i: usize = 0;
    let mut acc: usize = 0;
    assert(s@.take(0) =~= Seq::<char>::empty());
    while i < s.len() && acc < n
        invariant
            i <= s@.len(),
            acc == utf8_len(s@.take(i as int)),
            acc <= n,
            reach_from(s@, n as nat, 0) == reach_from(s@, n as nat, i as int),
        decreases s@.len() - i,
    {
        proof {
            lemma_take_step(s@, i as int);
        }
        let w = width(s[i]);
        if w > n - acc {
            proof {
                assert(reach_from(s@, n as nat, i + 1) == i + 1);
            }
            return (i + 1, false);
        }
        acc = acc + w;
        i = i + 1;
    }
    (i, true)
}

/// Whether a text longer than `n` bytes can be cut at `n` bytes without
/// splitting a character.
pub fn cuts_cleanly_exec(text: &str, n: usize) -> (r: bool)
    ensures
        r == cuts_cleanly(text@, n as nat),
{
    let s = chars_of(text);
    if !crate::chapter_body::utf8_len_exceeds(&s, n) {
        return true;
    }
    let (_, clean) = cut_index(&s, n);
    proof {
        lemma_reach_reaches(s@, n as nat, 0);
    }
    clean
}

proof fn lemma_reach_reaches(s: Seq<char>, n: nat, k: int)
    requires
        0 <= k <= s.len(),
        utf8_len(s) > n,
    ensures
        utf8_len(s.take(reach_from(s, n, k))) >= n,
    decreases s.len() - k,
{
    if k < s.len() && utf8_len(s.take(k)) < n {
        lemma_reach_reaches(s, n, k + 1);
    } else if k == s.len() {
        assert(s.take(k) =~= s);
    }
}

/// Shortens a text to `n` bytes with a note, where it is longer.
fn truncate_exec(text: &Vec<char>, n: usize) -> (r: Vec<char>)
    ensures
        r@ == truncated(text@, n as nat),
{
    if crate::chapter_body::utf8_len_exceeds(text, n) {
        let (k, _) = cut_index(text, n);
        proof {
            lemma_reach_bounds(text@, n as nat, 0);
        }
        let mut out = crate::text::slice_chars(text, 0, k);
        assert(out@ =~= text@.take(k as int));
        push_str(&mut out, "... (truncated for brevity)");
        out
    } else {
        crate::text::slice_chars(text, 0, text.len())
    }
}

proof fn lemma_reach_bounds(s: Seq<char>, n: nat, k: int)
    requires
        0 <= k <= s.len(),
    ensures
        k <= reach_from(s, n, k) <= s.len(),
    decreases s.len() - k,
{
    if k < s.len() && utf8_len(s.take(k)) < n {
        lemma_reach_bounds(s, n, k + 1);
    }
}

// ---------------------------------------------------------------------------
// Before a chapter
// ---------------------------------------------------------------------------

/// The previous chapters, or the note that the first is being written.
pub open spec fn chapter_progress(prev: Seq<ChapterOutlineView>) -> Seq<char> {
    if joined_chapters(prev).len() == 0 {
        "Starting the first chapter..."@
    } else {
        joined_chapters(prev)
    }
}

/// The context from which the story so far is summarised before a chapter.
pub open spec fn chapter_summary_text(title: Seq<char>, c: Context, prev: Seq<ChapterOutlineView>) -> Seq<char> {
    "Title: "@ + title + "\nBraindump: "@ + c.braindump.content@ + "\nGenre: "@ + c.genre.name@ + " - "@
        + c.genre.description@ + "\nStyle: "@ + c.style.description@ + "\nCharacters: "@
        + characters_text(character_list(c.characters.list@)) + "\nSynopsis: "@ + c.synopsis.content@
        + "\nBook Outline: "@ + outline_text(c.outline@) + "\n\nPrevious Chapters:\n"@ + chapter_progress(prev)
        + "\n\nHere is where we continue the story..."@
}

fn joined_chapters_exec(chs: &Vec<ChapterOutline>) -> (r: Vec<char>)
    ensures
        r@ == joined_chapters(chapters_view(chs@)),
{
    let mut out: Vec<char> = Vec::new();
    let mut i: usize = 0;
    while i < chs.len()
        invariant
            i <= chs@.len(),
            out@ == joined_chapters(chapters_view(chs@.subrange(0, i as int))),
        decreases chs@.len() - i,
    {
        let ghost pre = chapters_view(chs@.subrange(0, i + 1));
        assert(pre.drop_last() =~= chapters_view(chs@.subrange(0, i as int)));
        assert(pre.last() == chs@[i as int]@);
        if i > 0 {
            push_str(&mut out, "\n\n");
        }
        let t = chs[i].to_text();
        push_str(&mut out, t.as_str());
        proof {
            if i == 0 {
                assert(pre.len() == 1);
                assert(pre[0] == chs@[0]@);
            }
        }
        assert(out@ =~= joined_chapters(pre));
        i = i + 1;
    }
    assert(chs@.subrange(0, chs@.len() as int) =~= chs@);
    out
}

fn push_context_head(out: &mut Vec<char>, title: &str, context: &Context, braindump: bool)
    ensures
        final(out)@ == old(out)@ + "Title: "@ + title@ + (if braindump {
            "\nBraindump: "@ + context.braindump.content@
        } else {
            Seq::empty()
        }) + "\nGenre: "@ + context.genre.name@ + " - "@ + context.genre.description@ + "\nStyle: "@
            + context.style.description@,
{
    let ghost before = out@;
    push_str(out, "Title: ");
    push_str(out, title);
    let ghost mid = out@;
    if braindump {
        push_str(out, "\nBraindump: ");
        push_str(out, context.braindump.content.as_str());
    }
    assert(out@ =~= mid + (if braindump {
        "\nBraindump: "@ + context.braindump.content@
    } else {
        Seq::empty()
    }));
    push_str(out, "\nGenre: ");
    push_str(out, context.genre.name.as_str());
    push_str(out, " - ");
    push_str(out, context.genre.description.as_str());
    push_str(out, "\nStyle: ");
    push_str(out, context.style.description.as_str());
}

/// The context from which the story so far is summarised before chapter
/// `previous.len() + 1`; it fails where the outline has no such chapter or the
/// maximum is below it, as a chapter request does.
pub fn chapter_summary_context(title: &str, context: &Context, previous: &Vec<ChapterOutline>, max_chapters: usize) -> (r: Result<String, BookGeneratorError>)
    requires
        previous@.len() < usize::MAX,
    ensures
        match chapter_request_error((previous@.len() + 1) as nat, context.outline@.len(), max_chapters as nat) {
            Some(m) => r matches Err(BookGeneratorError::Generation(x)) && x@ == m,
            None => r matches Ok(s) && s@ == chapter_summary_text(title@, *context, chapters_view(previous@)),
        },
{
    match check_chapter_request(previous.len() + 1, context.outline.chapters.len(), max_chapters) {
        Err(e) => {
            return Err(e);
        },
        Ok(()) => {},
    }
    let mut out: Vec<char> = Vec::new();
    push_context_head(&mut out, title, context, true);
    push_str(&mut out, "\nCharacters: ");
    push_str(&mut out, context.characters.to_text().as_str());
    push_str(&mut out, "\nSynopsis: ");
    push_str(&mut out, context.synopsis.content.as_str());
    push_str(&mut out, "\nBook Outline: ");
    push_str(&mut out, context.outline.to_text().as_str());
    push_str(&mut out, "\n\nPrevious Chapters:\n");
    let joined = joined_chapters_exec(previous);
    if joined.len() == 0 {
        push_str(&mut out, "Starting the first chapter...");
    } else {
        push_all(&mut out, &joined);
    }
    push_str(&mut out, "\n\nHere is where we continue the story...");
    Ok(to_string(&out))
}

// ---------------------------------------------------------------------------
// Before a scene
// ---------------------------------------------------------------------------

/// A scene as the scene summary lists it: its number and title, then its outline.
pub open spec fn scene_entry(s: Scene) -> Seq<char> {
    "Scene "@ + decimal(s.outline.number as nat) + ": "@ + s.title@ + "\n"@ + s.outline.description@
}

/// The previous scenes, or the note that the first is being written.
pub open spec fn scene_progress(prev: Seq<Scene>) -> Seq<char> {
    if prev.len() == 0 {
        "Starting the first scene..."@
    } else {
        "Previous scenes in this chapter:\n\n"@ + joined_with(prev.map_values(|s: Scene| scene_entry(s)), "\n\n"@)
    }
}

/// How many chapters from index `i` on, in order, have a number of at most `n`.
pub open spec fn leading_up_to(chs: Seq<ChapterOutlineView>, n: usize, i: int) -> int
    decreases chs.len() - i,
{
    if i < 0 || i >= chs.len() || chs[i].chapter_number > n {
        if i < 0 { 0 } else { i }
    } else {
        leading_up_to(chs, n, i + 1)
    }
}

/// The context from which the story so far is summarised before a scene of the
/// chapter `ch`: the book, the outline's chapters up to it (while their numbers do
/// not pass it), the chapter, and the previous scenes.
pub open spec fn scene_summary_text(title: Seq<char>, c: Context, ch: ChapterOutlineView, prev: Seq<Scene>) -> Seq<char> {
    "Title: "@ + title + "\nBraindump: "@ + c.braindump.content@ + "\nGenre: "@ + c.genre.name@ + " - "@
        + c.genre.description@ + "\nStyle: "@ + c.style.description@ + "\nSynopsis: "@ + c.synopsis.content@
        + "\nBook Outline: "@ + outline_text(c.outline@) + "\nChapter Outlines:\n"@
        + joined_chapters(c.outline@.take(leading_up_to(c.outline@, ch.chapter_number, 0))) + "\nCurrent Chapter: "@
        + ch.title + ": "@ + ch.description + "\n\n"@ + scene_progress(prev) + "\n\nHere is where we continue the story..."@
}

proof fn lemma_leading_bounds(chs: Seq<ChapterOutlineView>, n: usize, i: int)
    requires
        0 <= i <= chs.len(),
    ensures
        i <= leading_up_to(chs, n, i) <= chs.len(),
        forall|k: int| i <= k < leading_up_to(chs, n, i) ==> #[trigger] chs[k].chapter_number <= n,
    decreases chs.len() - i,
{
    if i < chs.len() && chs[i].chapter_number <= n {
        lemma_leading_bounds(chs, n, i + 1);
    }
}

/// The context from which the story so far is summarised before the scene that
/// follows `previous` in the chapter `chapter`.
pub fn scene_summary_context(title: &str, context: &Context, chapter: &ChapterOutline, previous: &Vec<Scene>) -> (r: String)
    ensures
        r@ == scene_summary_text(title@, *context, chapter@, previous@),
{
    let mut out: Vec<char> = Vec::new();
    push_context_head(&mut out, title, context, true);
    push_str(&mut out, "\nSynopsis: ");
    push_str(&mut out, context.synopsis.content.as_str());
    push_str(&mut out, "\nBook Outline: ");
    push_str(&mut out, context.outline.to_text().as_str());
    push_str(&mut out, "\nChapter Outlines:\n");
    let chs = &context.outline.chapters;
    let ghost cv = context.outline@;
    let mut k: usize = 0;
    while k < chs.len() && chs[k].chapter_number <= chapter.chapter_number
        invariant
            k <= chs@.len(),
            cv == chapters_view(chs@),
            leading_up_to(cv, chapter.chapter_number, 0) == leading_up_to(cv, chapter.chapter_number, k as int),
        decreases chs@.len() - k,
    {
        assert(cv[k as int] == chs@[k as int]@);
        k = k + 1;
    }
    proof {
        if k < chs.len() {
            assert(cv[k as int] == chs@[k as int]@);
        }
    }
    let mut leading: Vec<ChapterOutline> = Vec::new();
    let mut j: usize = 0;
    while j < k
        invariant
            j <= k <= chs@.len(),
            cv == chapters_view(chs@),
            chapters_view(leading@) =~= cv.take(j as int),
        decreases k - j,
    {
        let ghost before = leading@;
        leading.push(chs[j].clone());
        assert(chapters_view(leading@) =~= chapters_view(before).push(chs@[j as int]@));
        j = j + 1;
    }
    push_all(&mut out, &joined_chapters_exec(&leading));
    push_str(&mut out, "\nCurrent Chapter: ");
    push_str(&mut out, chapter.to_text().as_str());
    push_str(&mut out, "\n\n");
    if previous.len() == 0 {
        push_str(&mut out, "Starting the first scene...");
    } else {
        push_str(&mut out, "Previous scenes in this chapter:\n\n");
        let ghost items = previous@.map_values(|s: Scene| scene_entry(s));
        let ghost head = out@;
        let mut i: usize = 0;
        while i < previous.len()
            invariant
                i <= previous@.len(),
                items == previous@.map_values(|s: Scene| scene_entry(s)),
                out@ == head + joined_with(items.take(i as int), "\n\n"@),
            decreases previous@.len() - i,
        {
            let s = &previous[i];
            let mut e = chars_of("Scene ");
            push_decimal(&mut e, s.outline.number);
            push_str(&mut e, ": ");
            push_str(&mut e, s.title.as_str());
            push_str(&mut e, "\n");
            push_str(&mut e, s.outline.description.as_str());
            assert(e@ == items[i as int]);
            proof {
                lemma_joined_push(items.take(i as int), "\n\n"@, items[i as int]);
                assert(items.take(i + 1) =~= items.take(i as int).push(items[i as int]));
            }
            push_item(&mut out, i == 0, "\n\n", &e);
            i = i + 1;
        }
        assert(items.take(previous@.len() as int) =~= items);
    }
    push_str(&mut out, "\n\nHere is where we continue the story...");
    to_string(&out)
}

// ---------------------------------------------------------------------------
// Before a scene's text
// ---------------------------------------------------------------------------

/// A text written so far, as the content summary lists it.
pub open spec fn content_entry(i: int, c: Content, max: nat) -> Seq<char> {
    "Content for Scene "@ + decimal((i + 1) as nat) + ":\n"@ + truncated(c.text@, max)
}

/// The texts written so far, each shortened to `max` bytes, or the note that the
/// first is being written.
pub open spec fn content_progress(prev: Seq<Content>, max: nat) -> Seq<char> {
    if prev.len() == 0 {
        "Starting the first scene content..."@
    } else {
        "Previous content in this chapter:\n\n"@ + joined_with(
            Seq::new(prev.len(), |i: int| content_entry(i, prev[i], max)),
            "\n\n"@,
        )
    }
}

/// A scene outline as "Scene {number}: {title}" and its description.
pub open spec fn scene_outline_entry(s: SceneOutlineView) -> Seq<char> {
    "Scene "@ + decimal(s.number as nat) + ": "@ + s.title + "\n"@ + s.description
}

/// How many scene outlines from index `i` on, in order, have a number of at most `n`.
pub open spec fn scenes_up_to(ss: Seq<SceneOutlineView>, n: usize, i: int) -> int
    decreases ss.len() - i,
{
    if i < 0 || i >= ss.len() || ss[i].number > n {
        if i < 0 { 0 } else { i }
    } else {
        scenes_up_to(ss, n, i + 1)
    }
}

/// The context from which the story so far is summarised before the text of the
/// scene `sc` of the chapter `ch`.
pub open spec fn content_summary_text(
    title: Seq<char>,
    c: Context,
    ch: ChapterOutlineView,
    sc: SceneOutlineView,
    prev: Seq<Content>,
    max: nat,
) -> Seq<char> {
    let shown = ch.scenes.take(scenes_up_to(ch.scenes, sc.number, 0));
    "Title: "@ + title + "\nGenre: "@ + c.genre.name@ + " - "@ + c.genre.description@ + "\nStyle: "@
        + c.style.description@ + "\nSynopsis: "@ + c.synopsis.content@ + "\nBook Outline: "@ + outline_text(c.outline@)
        + "\nChapter Outline: "@ + ch.title + ": "@ + ch.description + "\nScene Outlines:\n"@
        + joined_with(shown.map_values(|s: SceneOutlineView| scene_outline_entry(s)), "\n\n"@) + "\nCurrent Scene: "@
        + scene_outline_entry(sc) + "\n\n"@ + content_progress(prev, max) + "\n\nHere is where we continue the story..."@
}

/// The texts that can be shortened to `max` bytes without splitting a character.
pub open spec fn contents_cut_cleanly(prev: Seq<Content>, max: nat) -> bool {
    forall|i: int| 0 <= i < prev.len() ==> cuts_cleanly(#[trigger] prev[i].text@, max)
}

/// The context from which the story so far is summarised before the text of the
/// scene `scene` of the chapter `chapter`, with the texts written so far, each
/// shortened to `max_content_length` bytes. Shortening must not split a character.
pub fn content_summary_context(
    title: &str,
    context: &Context,
    chapter: &ChapterOutline,
    scene: &SceneOutline,
    previous: &Vec<Content>,
    max_content_length: usize,
) -> (r: String)
    requires
        contents_cut_cleanly(previous@, max_content_length as nat),
        previous@.len() < usize::MAX,
    ensures
        r@ == content_summary_text(title@, *context, chapter@, scene@, previous@, max_content_length as nat),
{
    let mut out: Vec<char> = Vec::new();
    push_context_head(&mut out, title, context, false);
    push_str(&mut out, "\nSynopsis: ");
    push_str(&mut out, context.synopsis.content.as_str());
    push_str(&mut out, "\nBook Outline: ");
    push_str(&mut out, context.outline.to_text().as_str());
    push_str(&mut out, "\nChapter Outline: ");
    push_str(&mut out, chapter.to_text().as_str());
    push_str(&mut out, "\nScene Outlines:\n");
    let ss = &chapter.scenes;
    let ghost sv = chapter@.scenes;
    let ghost shown_items = sv.take(scenes_up_to(sv, scene.number, 0)).map_values(|s: SceneOutlineView| scene_outline_entry(s));
    let ghost head = out@;
    proof {
        lemma_scenes_up_to_bounds(sv, scene.number, 0);
    }
    let mut k: usize = 0;
    while k < ss.len() && ss[k].number <= scene.number
        invariant
            k <= ss@.len(),
            sv == crate::outline::scenes_view(ss@),
            scenes_up_to(sv, scene.number, 0) == scenes_up_to(sv, scene.number, k as int),
            k <= scenes_up_to(sv, scene.number, 0) <= sv.len(),
            shown_items == sv.take(scenes_up_to(sv, scene.number, 0)).map_values(|s: SceneOutlineView| scene_outline_entry(s)),
            out@ == head + joined_with(shown_items.take(k as int), "\n\n"@),
        decreases ss@.len() - k,
    {
        assert(sv[k as int] == ss@[k as int]@);
        proof {
            lemma_scenes_up_to_bounds(sv, scene.number, k as int + 1);
        }
        let e = chars_of(ss[k].to_text().as_str());
        assert(e@ == shown_items[k as int]);
        proof {
            lemma_joined_push(shown_items.take(k as int), "\n\n"@, shown_items[k as int]);
            assert(shown_items.take(k + 1) =~= shown_items.take(k as int).push(shown_items[k as int]));
        }
        push_item(&mut out, k == 0, "\n\n", &e);
        k = k + 1;
    }
    proof {
        if k < ss.len() {
            assert(sv[k as int] == ss@[k as int]@);
        }
        assert(shown_items.take(k as int) =~= shown_items);
    }
    push_str(&mut out, "\nCurrent Scene: ");
    push_str(&mut out, scene.to_text().as_str());
    push_str(&mut out, "\n\n");
    if previous.len() == 0 {
        push_str(&mut out, "Starting the first scene content...");
    } else {
        push_str(&mut out, "Previous content in this chapter:\n\n");
        let ghost items = Seq::new(previous@.len(), |i: int| content_entry(i, previous@[i], max_content_length as nat));
        let ghost start = out@;
        let mut i: usize = 0;
        while i < previous.len()
            invariant
                i <= previous@.len() < usize::MAX,
                items == Seq::new(previous@.len(), |i: int| content_entry(i, previous@[i], max_content_length as nat)),
                out@ == start + joined_with(items.take(i as int), "\n\n"@),
            decreases previous@.len() - i,
        {
            let mut e = chars_of("Content for Scene ");
            push_decimal(&mut e, i + 1);
            push_str(&mut e, ":\n");
            push_all(&mut e, &truncate_exec(&chars_of(previous[i].text.as_str()), max_content_length));
            assert(e@ == items[i as int]);
            proof {
                lemma_joined_push(items.take(i as int), "\n\n"@, items[i as int]);
                assert(items.take(i + 1) =~= items.take(i as int).push(items[i as int]));
            }
            push_item(&mut out, i == 0, "\n\n", &e);
            i = i + 1;
        }
        assert(items.take(previous@.len() as int) =~= items);
    }
    push_str(&mut out, "\n\nHere is where we continue the story...");
    to_string(&out)
}

proof fn lemma_scenes_up_to_bounds(ss: Seq<SceneOutlineView>, n: usize, i: int)
    requires
        0 <= i <= ss.len(),
    ensures
        i <= scenes_up_to(ss, n, i) <= ss.len(),
    decreases ss.len() - i,
{
    if i < ss.len() && ss[i].number <= n {
        lemma_scenes_up_to_bounds(ss, n, i + 1);
    }
}

// ---------------------------------------------------------------------------
// Caching and the summary itself
// ---------------------------------------------------------------------------

/// The name of the file in the book's cache directory that holds a summary.
pub fn cache_file_name(prefix: &str, number: usize) -> (r: String)
    ensures
        r@ == "summary_"@ + prefix@ + "_"@ + decimal(number as nat) + ".json"@,
{
    let mut out = chars_of("summary_");
    push_str(&mut out, prefix);
    push_str(&mut out, "_");
    push_decimal(&mut out, number);
    push_str(&mut out, ".json");
    to_string(&out)
}

/// The cache prefix of the summary before scene `scene` of chapter `chapter`.
pub fn scene_cache_prefix(chapter: usize, scene: usize) -> (r: String)
    ensures
        r@ == "scene_generation_ch"@ + decimal(chapter as nat) + "_scene"@ + decimal(scene as nat),
{
    let mut out = chars_of("scene_generation_ch");
    push_decimal(&mut out, chapter);
    push_str(&mut out, "_scene");
    push_decimal(&mut out, scene);
    to_string(&out)
}

/// The cache prefix of the summary before the text of scene `scene` of chapter
/// `chapter`.
pub fn content_cache_prefix(chapter: usize, scene: usize) -> (r: String)
    ensures
        r@ == "content_ch"@ + decimal(chapter as nat) + "_scene"@ + decimal(scene as nat),
{
    let mut out = chars_of("content_ch");
    push_decimal(&mut out, chapter);
    push_str(&mut out, "_scene");
    push_decimal(&mut out, scene);
    to_string(&out)
}

impl TemporarySummary {
    /// The summary made of a model's answer: its trimmed text, with the hash of the
    /// context it was asked from and the time it was made.
    pub fn from_answer(answer: &str, context_hash: u64, created_at: u64) -> (r: TemporarySummary)
        ensures
            r.content@ == trim(answer@),
            r.last_context_hash == Some(context_hash),
            r.created_at == created_at,
    {
        TemporarySummary {
            content: to_string(&trim_exec(&chars_of(answer))),
            last_context_hash: Some(context_hash),
            created_at,
        }
    }
}

} // verus!
