//! The decisions and texts of a generation run: which chapters are generated and
//! numbered how, which scene outlines a chapter's scenes come from, which scenes
//! still need text, and the prompts and running summary handed to the model.
use vstd::prelude::*;
use vstd::string::StringSliceAdditionalSpecFns;
use crate::book::{Chapter, Context, Scene};
use crate::error::BookGeneratorError;
use crate::outline::{
    chapters_view, scenes_view, ChapterOutline, ChapterOutlineView, Outline, SceneOutline,
    SceneOutlineView, clone_scenes,
};
use crate::text::{
    chars_of, contains, contains_exec, decimal, ends_with, ends_with_exec, owned, push_all,
    push_decimal, push_str, same_text, to_string,
};

verus! {

// ---------------------------------------------------------------------------
// Which chapters are generated
// ---------------------------------------------------------------------------

/// The chapters to generate: for each outline index `i` from `start` (the chapters
/// the book already has) up to the smaller of the outline's length and the
/// maximum, the index and the number `i + 1` that the chapter is given. Nothing
/// where the book already has that many chapters.
pub open spec fn plan(n_outlines: nat, max_chapters: nat, start: nat) -> Seq<(usize, usize)> {
    let end = if n_outlines < max_chapters { n_outlines } else { max_chapters };
    if start >= end {
        Seq::empty()
    } else {
        Seq::new((end - start) as nat, |k: int| ((start + k) as usize, (start + k + 1) as usize))
    }
}

/// Plans the chapters to generate.
pub fn chapter_plan(n_outlines: usize, max_chapters: usize, start: usize) -> (r: Vec<(usize, usize)>)
    ensures
        r@ == plan(n_outlines as nat, max_chapters as nat, start as nat),
{
    let end = if n_outlines < max_chapters { n_outlines } else { max_chapters };
    let mut out: Vec<(usize, usize)> = Vec::new();
    if start >= end {
        return out;
    }
    let mut i: usize = start;
    while i < end
        invariant
            start <= i <= end,
            start < end,
            end == (if n_outlines < max_chapters { n_outlines } else { max_chapters }),
            out@ =~= plan(n_outlines as nat, max_chapters as nat, start as nat).take(i - start),
        decreases end - i,
    {
        out.push((i, i + 1));
        i = i + 1;
    }
    assert(plan(n_outlines as nat, max_chapters as nat, start as nat).take(end - start) =~= plan(n_outlines as nat, max_chapters as nat, start as nat));
    out
}

/// Chapters made from the outline where a book has none: chapter `i + 1` for the
/// outline's chapter `i`, with its title and outline, and no scenes or text.
pub fn chapters_from_outline(outline: &Outline) -> (r: Vec<Chapter>)
    requires
        outline.chapters@.len() < usize::MAX,
    ensures
        r@.len() == outline.chapters@.len(),
        forall|i: int| 0 <= i < r@.len() ==> {
            &&& #[trigger] r@[i].number == i + 1
            &&& r@[i].title@ == outline.chapters@[i].title@
            &&& r@[i].outline@ == outline.chapters@[i]@
            &&& r@[i].scenes@.len() == 0
            &&& r@[i].content@.len() == 0
        },
{
    let mut out: Vec<Chapter> = Vec::new();
    let mut i: usize = 0;
    while i < outline.chapters.len()
        invariant
            i <= outline.chapters@.len() < usize::MAX,
            out@.len() == i,
            forall|k: int| 0 <= k < i ==> {
                &&& #[trigger] out@[k].number == k + 1
                &&& out@[k].title@ == outline.chapters@[k].title@
                &&& out@[k].outline@ == outline.chapters@[k]@
                &&& out@[k].scenes@.len() == 0
                &&& out@[k].content@.len() == 0
            },
        decreases outline.chapters@.len() - i,
    {
        let c = &outline.chapters[i];
        out.push(Chapter {
            number: i + 1,
            title: owned(c.title.as_str()),
            outline: c.clone(),
            scenes: Vec::new(),
            content: String::new(),
        });
        i = i + 1;
    }
    out
}

/// Whether a title is not yet among the titles seen.
pub fn is_new_title(seen: &Vec<String>, title: &str) -> (r: bool)
    ensures
        r == !seen@.map_values(|s: String| s@).contains(title@),
{
    let ghost sv = seen@.map_values(|s: String| s@);
    let t = chars_of(title);
    let mut i: usize = 0;
    while i < seen.len()
        invariant
            i <= seen@.len(),
            sv == seen@.map_values(|s: String| s@),
            t@ == title@,
            forall|j: int| 0 <= j < i ==> sv[j] != title@,
        decreases seen@.len() - i,
    {
        if same_text(&chars_of(seen[i].as_str()), &t) {
            assert(sv[i as int] == title@);
            return false;
        }
        i = i + 1;
    }
    true
}

/// A log of chapter `n`'s generation that is no token record.
pub open spec fn is_generation_log_of(name: Seq<char>, n: nat) -> bool {
    contains(name, "chapter_generation_"@ + decimal(n) + "_"@) && !ends_with(name, "_token_usage.txt"@)
        && !contains(name, "token_usage"@)
}

/// Whether a log file records chapter `n`'s generation.
pub fn is_generation_log_for(name: &str, n: usize) -> (r: bool)
    ensures
        r == is_generation_log_of(name@, n as nat),
{
    let s = chars_of(name);
    let mut p = chars_of("chapter_generation_");
    push_decimal(&mut p, n);
    push_str(&mut p, "_");
    contains_exec(&s, &p) && !ends_with_exec(&s, &chars_of("_token_usage.txt")) && !contains_exec(&s, &chars_of("token_usage"))
}

/// The error of a request for chapter `n`: where the outline has fewer chapters,
/// or the maximum is below it.
pub open spec fn chapter_request_error(n: nat, outline_len: nat, max_chapters: nat) -> Option<Seq<char>> {
    if n > outline_len {
        Some("Attempted to generate chapter "@ + decimal(n) + " when the outline only contains "@ + decimal(outline_len)
            + " chapters"@)
    } else if n > max_chapters {
        Some("Attempted to generate chapter "@ + decimal(n) + " when the maximum is set to "@ + decimal(max_chapters)
            + " chapters"@)
    } else {
        None
    }
}

/// A chapter may be generated where the outline has it and it is within the
/// maximum; otherwise the error names both numbers.
pub fn check_chapter_request(chapter_number: usize, outline_len: usize, max_chapters: usize) -> (r: Result<(), BookGeneratorError>)
    ensures
        match chapter_request_error(chapter_number as nat, outline_len as nat, max_chapters as nat) {
            Some(m) => r matches Err(BookGeneratorError::Generation(x)) && x@ == m,
            None => r is Ok,
        },
{
    if chapter_number > outline_len {
        let mut m = chars_of("Attempted to generate chapter ");
        push_decimal(&mut m, chapter_number);
        push_str(&mut m, " when the outline only contains ");
        push_decimal(&mut m, outline_len);
        push_str(&mut m, " chapters");
        return Err(BookGeneratorError::Generation(to_string(&m)));
    }
    if chapter_number > max_chapters {
        let mut m = chars_of("Attempted to generate chapter ");
        push_decimal(&mut m, chapter_number);
        push_str(&mut m, " when the maximum is set to ");
        push_decimal(&mut m, max_chapters);
        push_str(&mut m, " chapters");
        return Err(BookGeneratorError::Generation(to_string(&m)));
    }
    Ok(())
}

// ---------------------------------------------------------------------------
// Scene outlines and scenes
// ---------------------------------------------------------------------------

/// The first chapter of the outline numbered `n`, from index `i` on.
pub open spec fn outline_chapter(chs: Seq<ChapterOutlineView>, n: usize, i: int) -> Option<ChapterOutlineView>
    decreases chs.len() - i,
{
    if i < 0 || i >= chs.len() {
        None
    } else if chs[i].chapter_number == n {
        Some(chs[i])
    } else {
        outline_chapter(chs, n, i + 1)
    }
}

fn outline_chapter_exec(outline: &Outline, n: usize) -> (r: Option<usize>)
    ensures
        match outline_chapter(outline@, n, 0) {
            Some(c) => r matches Some(i) && i < outline@.len() && outline@[i as int] == c,
            None => r is None,
        },
{
    let mut i: usize = 0;
    while i < outline.chapters.len()
        invariant
            i <= outline.chapters@.len(),
            outline_chapter(outline@, n, 0) == outline_chapter(outline@, n, i as int),
        decreases outline.chapters@.len() - i,
    {
        assert(outline@[i as int] == outline.chapters@[i as int]@);
        if outline.chapters[i].chapter_number == n {
            return Some(i);
        }
        i = i + 1;
    }
    None
}

/// The scene outlines a chapter's scenes are generated from: its own, or, where it
/// has none, those of the book outline's chapter of its number; none (the chapter
/// is skipped) where neither has any.
pub open spec fn scene_outlines_for(chapter: ChapterOutlineView, number: usize, outline: Seq<ChapterOutlineView>) -> Option<Seq<SceneOutlineView>> {
    if chapter.scenes.len() > 0 {
        Some(chapter.scenes)
    } else {
        match outline_chapter(outline, number, 0) {
            Some(c) => if c.scenes.len() > 0 {
                Some(c.scenes)
            } else {
                None
            },
            None => None,
        }
    }
}

/// Picks the scene outlines that a chapter's scenes are generated from.
pub fn scene_outlines_for_chapter(chapter: &Chapter, outline: &Outline) -> (r: Option<Vec<SceneOutline>>)
    ensures
        match scene_outlines_for(chapter.outline@, chapter.number, outline@) {
            Some(s) => r matches Some(v) && scenes_view(v@) == s,
            None => r is None,
        },
{
    if chapter.outline.scenes.len() > 0 {
        return Some(clone_scenes(&chapter.outline.scenes));
    }
    match outline_chapter_exec(outline, chapter.number) {
        Some(i) => {
            if outline.chapters[i].scenes.len() > 0 {
                Some(clone_scenes(&outline.chapters[i].scenes))
            } else {
                None
            }
        },
        None => None,
    }
}

/// The scene outlines a resumed chapter without scenes is completed from: none
/// where it has no scene outlines of its own; else the book outline's chapter of
/// its number where that has more, or its own.
pub open spec fn resumed_scene_outlines(chapter: ChapterOutlineView, number: usize, outline: Seq<ChapterOutlineView>) -> Option<Seq<SceneOutlineView>> {
    if chapter.scenes.len() == 0 {
        None
    } else {
        match outline_chapter(outline, number, 0) {
            Some(c) => if c.scenes.len() > 0 && c.scenes.len() > chapter.scenes.len() {
                Some(c.scenes)
            } else {
                Some(chapter.scenes)
            },
            None => Some(chapter.scenes),
        }
    }
}

/// Picks the scene outlines that a resumed chapter's scenes are generated from.
pub fn resumed_scene_outlines_for(chapter: &Chapter, outline: &Outline) -> (r: Option<Vec<SceneOutline>>)
    ensures
        match resumed_scene_outlines(chapter.outline@, chapter.number, outline@) {
            Some(s) => r matches Some(v) && scenes_view(v@) == s,
            None => r is None,
        },
{
    if chapter.outline.scenes.len() == 0 {
        return None;
    }
    match outline_chapter_exec(outline, chapter.number) {
        Some(i) => {
            let n = outline.chapters[i].scenes.len();
            if n > 0 && n > chapter.outline.scenes.len() {
                Some(clone_scenes(&outline.chapters[i].scenes))
            } else {
                Some(clone_scenes(&chapter.outline.scenes))
            }
        },
        None => Some(clone_scenes(&chapter.outline.scenes)),
    }
}

/// The scenes, by index among `n` scene outlines, whose number (index + 1) is not
/// among the numbers of the scenes that exist.
pub open spec fn missing_scenes(n: nat, existing: Seq<usize>) -> Seq<usize> {
    Seq::new(n, |i: int| i as usize).filter(|i: usize| !existing.contains((i + 1) as usize))
}

/// The indices of the scene outlines whose scenes do not exist yet.
pub fn scenes_to_generate(n: usize, existing: &Vec<usize>) -> (r: Vec<usize>)
    requires
        n < usize::MAX,
    ensures
        r@ == missing_scenes(n as nat, existing@),
{
    let ghost all = Seq::new(n as nat, |i: int| i as usize);
    let ghost pred = |i: usize| !existing@.contains((i + 1) as usize);
    let mut out: Vec<usize> = Vec::new();
    let mut i: usize = 0;
    while i < n
        invariant
            i <= n < usize::MAX,
            all == Seq::new(n as nat, |i: int| i as usize),
            pred == (|i: usize| !existing@.contains((i + 1) as usize)),
            out@ == all.take(i as int).filter(pred),
        decreases n - i,
    {
        proof {
            assert(all.take(i + 1) =~= all.take(i as int).push(i));
            all.take(i as int).lemma_filter_push(i, pred);
        }
        let mut found = false;
        let mut k: usize = 0;
        while k < existing.len()
            invariant
                k <= existing@.len(),
                i < n < usize::MAX,
                found == exists|j: int| 0 <= j < k && existing@[j] == (i + 1) as usize,
            decreases existing@.len() - k,
        {
            if existing[k] == i + 1 {
                found = true;
            }
            k = k + 1;
        }
        assert(found == existing@.contains((i + 1) as usize));
        if !found {
            out.push(i);
        }
        i = i + 1;
    }
    assert(all.take(n as int) =~= all);
    out
}

/// When a chapter is resumed, exactly its missing scenes are generated: among its
/// `n` scene outlines, the one at index `i` is generated if and only if no existing
/// scene has the number `i + 1`, and nothing else is generated.
pub proof fn law_missing_scenes_exactly(n: nat, existing: Seq<usize>)
    requires
        n < usize::MAX,
    ensures
        forall|i: usize| i < n ==> (#[trigger] missing_scenes(n, existing).contains(i) <==> !existing.contains((i + 1) as usize)),
        forall|k: int| 0 <= k < missing_scenes(n, existing).len() ==> #[trigger] missing_scenes(n, existing)[k] < n,
{
    let all = Seq::new(n, |i: int| i as usize);
    let pred = |i: usize| !existing.contains((i + 1) as usize);
    assert(missing_scenes(n, existing) == all.filter(pred));
    assert forall|i: usize| i < n implies (#[trigger] missing_scenes(n, existing).contains(i) <==> !existing.contains((i + 1) as usize)) by {
        assert(all[i as int] == i);
        if pred(i) {
            all.lemma_filter_contains(pred, i as int);
        }
        if all.filter(pred).contains(i) {
            let j = choose|j: int| 0 <= j < all.filter(pred).len() && all.filter(pred)[j] == i;
            all.lemma_filter_pred(pred, j);
        }
    }
    assert forall|k: int| 0 <= k < missing_scenes(n, existing).len() implies #[trigger] missing_scenes(n, existing)[k] < n by {
        let e = all.filter(pred)[k];
        assert(all.filter(pred).contains(e));
        all.lemma_filter_contains_rev(pred, e);
        let j = choose|j: int| 0 <= j < all.len() && all[j] == e;
        assert(all[j] == j as usize);
    }
}

/// The scenes are in order of their outlines' numbers.
pub open spec fn scenes_sorted(v: Seq<Scene>) -> bool {
    forall|i: int, j: int| 0 <= i < j < v.len() ==> v[i].outline.number <= v[j].outline.number
}

/// The scenes whose outline is numbered `n`, in their order.
pub open spec fn scenes_numbered(v: Seq<Scene>, n: usize) -> Seq<Scene> {
    v.filter(|s: Scene| s.outline.number == n)
}

/// Calls `slice::sort_by_key` on the scenes' outline numbers. The sort is stable:
/// the scenes come out ordered by number and the scenes of each number keep their
/// order.
#[verifier::external_body]
fn sort_scenes_by_number(v: &mut Vec<Scene>)
    ensures
        final(v)@.len() == old(v)@.len(),
        scenes_sorted(final(v)@),
        forall|n: usize| #[trigger] scenes_numbered(final(v)@, n) == scenes_numbered(old(v)@, n),
{
    v.sort_by_key(|s| s.outline.number);
}

/// A chapter's scenes after its missing ones were generated: the scenes that
/// existed, then the new ones, ordered by their numbers, where scenes of one
/// number keep that order.
pub fn merged_scenes(existing: Vec<Scene>, new: Vec<Scene>) -> (r: Vec<Scene>)
    ensures
        r@.len() == existing@.len() + new@.len(),
        scenes_sorted(r@),
        forall|n: usize| #[trigger] scenes_numbered(r@, n) == scenes_numbered(existing@ + new@, n),
{
    let mut all = existing;
    let mut added = new;
    all.append(&mut added);
    sort_scenes_by_number(&mut all);
    all
}

/// Another chapter of the book, one not numbered `number`, has this title.
pub open spec fn title_taken(chapters: Seq<Chapter>, title: Seq<char>, number: usize) -> bool {
    exists|i: int| 0 <= i < chapters.len() && (#[trigger] chapters[i]).title@ == title && chapters[i].number != number
}

/// Whether a chapter numbered `number` with this title would repeat the title of
/// another chapter of the book.
pub fn duplicate_chapter_title(chapters: &Vec<Chapter>, title: &str, number: usize) -> (r: bool)
    ensures
        r == title_taken(chapters@, title@, number),
{
    let t = chars_of(title);
    let mut i: usize = 0;
    while i < chapters.len()
        invariant
            i <= chapters@.len(),
            t@ == title@,
            forall|j: int| 0 <= j < i ==> !((#[trigger] chapters@[j]).title@ == title@ && chapters@[j].number != number),
        decreases chapters@.len() - i,
    {
        if chapters[i].number != number && same_text(&chars_of(chapters[i].title.as_str()), &t) {
            return true;
        }
        i = i + 1;
    }
    false
}

/// The indices of a chapter's scenes that have no text yet.
pub fn scenes_without_text(scenes: &Vec<Scene>) -> (r: Vec<usize>)
    ensures
        forall|k: int| 0 <= k < r@.len() ==> r@[k] < scenes@.len() && scenes@[r@[k] as int].content.text@.len() == 0,
        forall|i: int| 0 <= i < scenes@.len() && scenes@[i].content.text@.len() == 0 ==> r@.contains(i as usize),
        forall|a: int, b: int| 0 <= a < b < r@.len() ==> r@[a] < r@[b],
{
    let mut out: Vec<usize> = Vec::new();
    let mut i: usize = 0;
    while i < scenes.len()
        invariant
            i <= scenes@.len(),
            forall|k: int| 0 <= k < out@.len() ==> out@[k] < i && scenes@[out@[k] as int].content.text@.len() == 0,
            forall|j: int| 0 <= j < i && scenes@[j].content.text@.len() == 0 ==> out@.contains(j as usize),
            forall|a: int, b: int| 0 <= a < b < out@.len() ==> out@[a] < out@[b],
        decreases scenes@.len() - i,
    {
        if scenes[i].content.text.as_str().is_empty() {
            let ghost before = out@;
            out.push(i);
            assert forall|j: int| 0 <= j < i + 1 && scenes@[j].content.text@.len() == 0 implies out@.contains(j as usize) by {
                if j < i {
                    assert(before.contains(j as usize));
                    let w = choose|w: int| 0 <= w < before.len() && before[w] == j as usize;
                    assert(out@[w] == j as usize);
                } else {
                    assert(out@[before.len() as int] == i);
                }
            }
        }
        i = i + 1;
    }
    out
}

// ---------------------------------------------------------------------------
// The texts handed to the model while a chapter's text is written
// ---------------------------------------------------------------------------

/// The scene outlines as text: "Scene {n}: {title}", its description, and a blank line.
pub open spec fn outlines_text(ss: Seq<SceneOutlineView>) -> Seq<char>
    decreases ss.len(),
{
    if ss.len() == 0 {
        Seq::empty()
    } else {
        outlines_text(ss.drop_last()) + "Scene "@ + decimal(ss.last().number as nat) + ": "@ + ss.last().title + "\n"@
            + ss.last().description + "\n\n"@
    }
}

/// The scenes that have text, as text: "Scene {n}: {title}", its text, and a blank line.
pub open spec fn written_scenes_text(ss: Seq<Scene>) -> Seq<char>
    decreases ss.len(),
{
    if ss.len() == 0 {
        Seq::empty()
    } else {
        let s = ss.last();
        written_scenes_text(ss.drop_last()) + if s.content.text@.len() > 0 {
            "Scene "@ + decimal(s.outline.number as nat) + ": "@ + s.title@ + "\n"@ + s.content.text@ + "\n\n"@
        } else {
            Seq::empty()
        }
    }
}

/// The running summary with which a chapter's text is written: the book's title,
/// genre, style and synopsis, the chapter, its scene outlines, and the text of the
/// scenes written so far.
pub open spec fn content_summary(c: Context, ch: Chapter) -> Seq<char> {
    let head = "Title: "@ + c.title@ + "\nGenre: "@ + c.genre.name@ + ": "@ + c.genre.description@ + "\nStyle: "@
        + c.style.description@ + "\nSynopsis: "@ + c.synopsis.content@ + "\n\n"@;
    let chapter = "Chapter "@ + decimal(ch.number as nat) + ": "@ + ch.title@ + "\n"@ + ch.outline@.description + "\n\n"@;
    let outlines = "Scene Outlines:\n"@ + outlines_text(ch.outline@.scenes);
    let previous = written_scenes_text(ch.scenes@);
    let tail = if previous.len() > 0 {
        "Previously Generated Content:\n"@ + previous + "\nHere is where we continue the story...\n"@
    } else {
        Seq::empty()
    };
    head + chapter + outlines + tail
}

/// Writes the running summary with which a chapter's text is written.
pub fn content_summary_text(context: &Context, chapter: &Chapter) -> (r: String)
    ensures
        r@ == content_summary(*context, *chapter),
{
    let mut out = chars_of("Title: ");
    push_str(&mut out, context.title.as_str());
    push_str(&mut out, "\nGenre: ");
    push_str(&mut out, context.genre.name.as_str());
    push_str(&mut out, ": ");
    push_str(&mut out, context.genre.description.as_str());
    push_str(&mut out, "\nStyle: ");
    push_str(&mut out, context.style.description.as_str());
    push_str(&mut out, "\nSynopsis: ");
    push_str(&mut out, context.synopsis.content.as_str());
    push_str(&mut out, "\n\n");
    push_str(&mut out, "Chapter ");
    push_decimal(&mut out, chapter.number);
    push_str(&mut out, ": ");
    push_str(&mut out, chapter.title.as_str());
    push_str(&mut out, "\n");
    push_str(&mut out, chapter.outline.description.as_str());
    push_str(&mut out, "\n\n");
    push_str(&mut out, "Scene Outlines:\n");
    let ghost before_outlines = out@;
    let ss = &chapter.outline.scenes;
    let mut i: usize = 0;
    while i < ss.len()
        invariant
            i <= ss@.len(),
            out@ == before_outlines + outlines_text(scenes_view(ss@.subrange(0, i as int))),
        decreases ss@.len() - i,
    {
        let ghost pre = scenes_view(ss@.subrange(0, i + 1));
        assert(pre.drop_last() =~= scenes_view(ss@.subrange(0, i as int)));
        assert(pre.last() == ss@[i as int]@);
        push_str(&mut out, "Scene ");
        push_decimal(&mut out, ss[i].number);
        push_str(&mut out, ": ");
        push_str(&mut out, ss[i].title.as_str());
        push_str(&mut out, "\n");
        push_str(&mut out, ss[i].description.as_str());
        push_str(&mut out, "\n\n");
        assert(out@ =~= before_outlines + outlines_text(pre));
        i = i + 1;
    }
    assert(ss@.subrange(0, ss@.len() as int) =~= ss@);
    let mut previous: Vec<char> = Vec::new();
    let sc = &chapter.scenes;
    let mut j: usize = 0;
    while j < sc.len()
        invariant
            j <= sc@.len(),
            previous@ == written_scenes_text(sc@.subrange(0, j as int)),
        decreases sc@.len() - j,
    {
        let ghost pre = sc@.subrange(0, j + 1);
        assert(pre.drop_last() =~= sc@.subrange(0, j as int));
        let s = &sc[j];
        if !s.content.text.as_str().is_empty() {
            push_str(&mut previous, "Scene ");
            push_decimal(&mut previous, s.outline.number);
            push_str(&mut previous, ": ");
            push_str(&mut previous, s.title.as_str());
            push_str(&mut previous, "\n");
            push_str(&mut previous, s.content.text.as_str());
            push_str(&mut previous, "\n\n");
        }
        assert(previous@ =~= written_scenes_text(pre));
        j = j + 1;
    }
    assert(sc@.subrange(0, sc@.len() as int) =~= sc@);
    if previous.len() > 0 {
        push_str(&mut out, "Previously Generated Content:\n");
        push_all(&mut out, &previous);
        push_str(&mut out, "\nHere is where we continue the story...\n");
    }
    to_string(&out)
}

/// The prompt for a scene's text: the running summary, the style, the scene's
/// outline, and the instructions.
pub open spec fn scene_prompt(summary: Seq<char>, style: Seq<char>, number: nat, title: Seq<char>, description: Seq<char>) -> Seq<char> {
    summary + "\nWriting Style: "@ + style + "\n\n"@ + "Scene "@ + decimal(number) + " Outline: "@ + title + "\n"@
        + description + "\n\n"@
        + "Please write the content for this scene based on the outline and previous context. The content should be engaging, follow the specified writing style, and maintain continuity with previous scenes. Focus on showing rather than telling, include meaningful dialogue, and ensure character actions align with their established personalities."@
}

/// Writes the prompt for a scene's text.
pub fn scene_content_prompt(summary: &str, style: &str, number: usize, title: &str, description: &str) -> (r: String)
    ensures
        r@ == scene_prompt(summary@, style@, number as nat, title@, description@),
{
    let mut out = chars_of(summary);
    push_str(&mut out, "\nWriting Style: ");
    push_str(&mut out, style);
    push_str(&mut out, "\n\n");
    push_str(&mut out, "Scene ");
    push_decimal(&mut out, number);
    push_str(&mut out, " Outline: ");
    push_str(&mut out, title);
    push_str(&mut out, "\n");
    push_str(&mut out, description);
    push_str(&mut out, "\n\n");
    push_str(&mut out, "Please write the content for this scene based on the outline and previous context. The content should be engaging, follow the specified writing style, and maintain continuity with previous scenes. Focus on showing rather than telling, include meaningful dialogue, and ensure character actions align with their established personalities.");
    to_string(&out)
}

/// The running summary after a scene's text is written: the scene and the line that
/// leads on are appended.
pub open spec fn summary_after(summary: Seq<char>, number: nat, title: Seq<char>, text: Seq<char>) -> Seq<char> {
    summary + "\nScene "@ + decimal(number) + ": "@ + title + "\n"@ + text + "\n\n"@ + "Here is where we continue the story...\n"@
}

/// Appends a written scene to the running summary.
pub fn summary_after_scene(summary: &str, number: usize, title: &str, text: &str) -> (r: String)
    ensures
        r@ == summary_after(summary@, number as nat, title@, text@),
{
    let mut out = chars_of(summary);
    push_str(&mut out, "\nScene ");
    push_decimal(&mut out, number);
    push_str(&mut out, ": ");
    push_str(&mut out, title);
    push_str(&mut out, "\n");
    push_str(&mut out, text);
    push_str(&mut out, "\n\n");
    push_str(&mut out, "Here is where we continue the story...\n");
    to_string(&out)
}

/// A chapter's text made of its scenes: each scene's title as a heading, then its text.
pub open spec fn chapter_text(ss: Seq<Scene>) -> Seq<char>
    decreases ss.len(),
{
    if ss.len() == 0 {
        Seq::empty()
    } else {
        chapter_text(ss.drop_last()) + "## "@ + ss.last().title@ + "\n\n"@ + ss.last().content.text@ + "\n\n"@
    }
}

/// Writes a chapter's text from its scenes.
pub fn chapter_text_from_scenes(scenes: &Vec<Scene>) -> (r: String)
    ensures
        r@ == chapter_text(scenes@),
{
    let mut out: Vec<char> = Vec::new();
    let mut i: usize = 0;
    while i < scenes.len()
        invariant
            i <= scenes@.len(),
            out@ == chapter_text(scenes@.subrange(0, i as int)),
        decreases scenes@.len() - i,
    {
        let ghost pre = scenes@.subrange(0, i + 1);
        assert(pre.drop_last() =~= scenes@.subrange(0, i as int));
        push_str(&mut out, "## ");
        push_str(&mut out, scenes[i].title.as_str());
        push_str(&mut out, "\n\n");
        push_str(&mut out, scenes[i].content.text.as_str());
        push_str(&mut out, "\n\n");
        assert(out@ =~= chapter_text(pre));
        i = i + 1;
    }
    assert(scenes@.subrange(0, scenes@.len() as int) =~= scenes@);
    to_string(&out)
}

/// The rough token count of a text that the model gave no count for: a quarter of
/// its length in bytes.
pub fn estimated_tokens(text: &str) -> (r: usize)
    ensures
        r == (text.spec_bytes().len() as usize) / 4,
{
    text.len() / 4
}

/// The name of the log of a scene's text.
pub fn content_log_name(chapter: usize, scene: usize) -> (r: String)
    ensures
        r@ == "content_generation_ch"@ + decimal(chapter as nat) + "_scene"@ + decimal(scene as nat) + ".txt"@,
{
    let mut out = chars_of("content_generation_ch");
    push_decimal(&mut out, chapter);
    push_str(&mut out, "_scene");
    push_decimal(&mut out, scene);
    push_str(&mut out, ".txt");
    to_string(&out)
}

// ---------------------------------------------------------------------------
// The texts handed to the model while a chapter is outlined and a scene is written
// ---------------------------------------------------------------------------

/// The previous chapters, as the chapter prompt gives them.
pub open spec fn previous_chapters(chs: Seq<ChapterOutlineView>) -> Seq<char> {
    if chs.len() == 0 {
        "This is the first chapter of the book."@
    } else {
        "Previous chapters in the book:\n\n"@ + joined_chapters(chs)
    }
}

/// The chapters as "title: description", separated by blank lines.
pub open spec fn joined_chapters(chs: Seq<ChapterOutlineView>) -> Seq<char>
    decreases chs.len(),
{
    if chs.len() == 0 {
        Seq::empty()
    } else if chs.len() == 1 {
        chs[0].title + ": "@ + chs[0].description
    } else {
        joined_chapters(chs.drop_last()) + "\n\n"@ + chs.last().title + ": "@ + chs.last().description
    }
}

/// Writes the previous chapters for the chapter prompt.
pub fn previous_chapters_text(chs: &Vec<ChapterOutline>) -> (r: String)
    ensures
        r@ == previous_chapters(chapters_view(chs@)),
{
    if chs.len() == 0 {
        return owned("This is the first chapter of the book.");
    }
    let mut out = chars_of("Previous chapters in the book:\n\n");
    let ghost head = out@;
    let mut i: usize = 0;
    while i < chs.len()
        invariant
            i <= chs@.len(),
            out@ == head + joined_chapters(chapters_view(chs@.subrange(0, i as int))),
        decreases chs@.len() - i,
    {
        let ghost pre = chapters_view(chs@.subrange(0, i + 1));
        assert(pre.drop_last() =~= chapters_view(chs@.subrange(0, i as int)));
        assert(pre.last() == chs@[i as int]@);
        if i > 0 {
            push_str(&mut out, "\n\n");
        }
        let t = chs[i].to_text();
        push_str(&mut out, t.as_str());
        proof {
            if i == 0 {
                assert(pre.len() == 1);
                assert(pre[0] == chs@[0]@);
            }
        }
        assert(out@ =~= head + joined_chapters(pre));
        i = i + 1;
    }
    assert(chs@.subrange(0, chs@.len() as int) =~= chs@);
    to_string(&out)
}

/// The prompt with which a scene's text is asked for directly.
pub open spec fn content_prompt(chapter: nat, scene: nat, chapter_title: Seq<char>, chapter_description: Seq<char>, scene_title: Seq<char>, scene_description: Seq<char>) -> Seq<char> {
    "# Content Generation for Chapter "@ + decimal(chapter) + " Scene "@ + decimal(scene) + "\n\n"@
        + "## Chapter Title: "@ + chapter_title + "\n"@ + "## Chapter Description: "@ + chapter_description + "\n\n"@
        + "## Scene Title: "@ + scene_title + "\n"@ + "## Scene Description: "@ + scene_description + "\n\n"@
        + "## Instructions\nWrite the full content for this scene based on the description provided. The content should be engaging, descriptive, and match the tone of the book. Include dialogue, action, and description as appropriate for the scene. The content should be at least 500 words but can be longer if needed to fully develop the scene.\n\n## Scene Content\n"@
}

/// Writes the prompt with which a scene's text is asked for directly.
pub fn content_generation_prompt(
    chapter: usize,
    scene: usize,
    chapter_title: &str,
    chapter_description: &str,
    scene_title: &str,
    scene_description: &str,
) -> (r: String)
    ensures
        r@ == content_prompt(chapter as nat, scene as nat, chapter_title@, chapter_description@, scene_title@, scene_description@),
{
    let mut out = chars_of("# Content Generation for Chapter ");
    push_decimal(&mut out, chapter);
    push_str(&mut out, " Scene ");
    push_decimal(&mut out, scene);
    push_str(&mut out, "\n\n");
    push_str(&mut out, "## Chapter Title: ");
    push_str(&mut out, chapter_title);
    push_str(&mut out, "\n");
    push_str(&mut out, "## Chapter Description: ");
    push_str(&mut out, chapter_description);
    push_str(&mut out, "\n\n");
    push_str(&mut out, "## Scene Title: ");
    push_str(&mut out, scene_title);
    push_str(&mut out, "\n");
    push_str(&mut out, "## Scene Description: ");
    push_str(&mut out, scene_description);
    push_str(&mut out, "\n\n");
    push_str(&mut out, "## Instructions\nWrite the full content for this scene based on the description provided. The content should be engaging, descriptive, and match the tone of the book. Include dialogue, action, and description as appropriate for the scene. The content should be at least 500 words but can be longer if needed to fully develop the scene.\n\n## Scene Content\n");
    to_string(&out)
}

} // verus!
