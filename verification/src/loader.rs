//! Reading a book back from its output directory: which log files hold chapters
//! and scenes, the numbers in their names, the chapters and scenes rebuilt from
//! them, and whether the book is complete.
use vstd::prelude::*;
use crate::book::{Chapter, Content, Genre, Scene};
use crate::files::{
    chapter_number_in, extract_chapter_number, extract_scene_number, scene_number_checked,
    scene_number_in,
};
use crate::outline::{
    ChapterOutline, ChapterOutlineView, Outline, SceneOutline, SceneOutlineView, scenes_view,
};
use crate::text::{
    after_first, after_first_exec, before_char, before_char_exec, chars_of, contains,
    contains_exec, decimal, ends_with, ends_with_exec, find, find_exec, lemma_find_from_bounds,
    lines, lines_exec, matches_at, owned, parse_usize, parse_usize_exec, push_all, push_decimal,
    push_str, replace, replace_exec, slice_chars, starts_with, starts_with_exec, suffix_from,
    to_string, trim, trim_exec,
};

verus! {

// ---------------------------------------------------------------------------
// Sorting by number
// ---------------------------------------------------------------------------

/// The pairs are in order of their numbers.
pub open spec fn sorted_pairs(v: Seq<(usize, String)>) -> bool {
    forall|i: int, j: int| 0 <= i < j < v.len() ==> v[i].0 <= v[j].0
}

/// A pair is numbered `n`.
pub open spec fn number_is(n: usize) -> spec_fn((usize, String)) -> bool {
    |p: (usize, String)| p.0 == n
}

/// The pairs numbered `n`, in their order.
pub open spec fn pairs_numbered(v: Seq<(usize, String)>, n: usize) -> Seq<(usize, String)> {
    v.filter(number_is(n))
}

/// The names of the pairs.
pub open spec fn pair_names(v: Seq<(usize, String)>) -> Seq<Seq<char>> {
    v.map_values(|p: (usize, String)| p.1@)
}

/// A name's number, by `key`, is `n`.
pub open spec fn key_is(key: spec_fn(Seq<char>) -> usize, n: usize) -> spec_fn(Seq<char>) -> bool {
    |m: Seq<char>| key(m) == n
}

/// The names whose number, by `key`, is `n`, in their order.
pub open spec fn names_keyed(names: Seq<Seq<char>>, key: spec_fn(Seq<char>) -> usize, n: usize) -> Seq<Seq<char>> {
    names.filter(key_is(key, n))
}

/// The names whose chapter file number is `n`, in their order.
pub open spec fn names_numbered(names: Seq<Seq<char>>, n: usize) -> Seq<Seq<char>> {
    names_keyed(names, |m: Seq<char>| chapter_file_number(m), n)
}

/// Calls `slice::sort_by_key` on the pairs' numbers. The sort is stable: the pairs
/// come out ordered by number and the pairs of each number keep their order.
#[verifier::external_body]
fn sort_pairs_by_number(v: &mut Vec<(usize, String)>)
    ensures
        final(v)@.len() == old(v)@.len(),
        sorted_pairs(final(v)@),
        forall|n: usize| #[trigger] pairs_numbered(final(v)@, n) == pairs_numbered(old(v)@, n),
{
    v.sort_by_key(|p| p.0);
}

// ---------------------------------------------------------------------------
// Chapter files
// ---------------------------------------------------------------------------

/// A number read from a text, or 0.
pub open spec fn number_or_zero(s: Seq<char>) -> usize {
    match parse_usize(s) {
        Some(n) => n,
        None => 0,
    }
}

/// The chapter number in a chapter file's name: "chapter_N.md",
/// "chapter_generation_N_..." or "temporary_summary_chapter_N_..."; 0 for any
/// other name or where no number is read.
pub open spec fn chapter_file_number(n: Seq<char>) -> usize {
    if starts_with(n, "chapter_"@) && ends_with(n, ".md"@) {
        number_or_zero(replace(replace(n, "chapter_"@, Seq::empty()), ".md"@, Seq::empty()))
    } else if starts_with(n, "chapter_generation_"@) {
        number_or_zero(before_char(n.subrange(19, n.len() as int), '_'))
    } else if starts_with(n, "temporary_summary_chapter_"@) {
        number_or_zero(before_char(n.subrange(26, n.len() as int), '_'))
    } else {
        0
    }
}

fn number_or_zero_exec(s: &Vec<char>) -> (r: usize)
    ensures
        r == number_or_zero(s@),
{
    match parse_usize_exec(s) {
        Some(n) => n,
        None => 0,
    }
}

/// Reads the chapter number in a chapter file's name.
pub fn chapter_file_number_of(name: &str) -> (r: usize)
    ensures
        r == chapter_file_number(name@),
{
    proof {
        reveal_strlit("chapter_generation_");
        reveal_strlit("temporary_summary_chapter_");
        reveal_strlit("chapter_");
        reveal_strlit(".md");
    }
    let n = chars_of(name);
    if starts_with_exec(&n, &chars_of("chapter_")) && ends_with_exec(&n, &chars_of(".md")) {
        let a = replace_exec(&n, &chars_of("chapter_"), &Vec::new());
        let b = replace_exec(&a, &chars_of(".md"), &Vec::new());
        number_or_zero_exec(&b)
    } else if starts_with_exec(&n, &chars_of("chapter_generation_")) {
        number_or_zero_exec(&before_char_exec(&suffix_from(&n, 19), '_'))
    } else if starts_with_exec(&n, &chars_of("temporary_summary_chapter_")) {
        number_or_zero_exec(&before_char_exec(&suffix_from(&n, 26), '_'))
    } else {
        0
    }
}

/// A chapter's Markdown log: "chapter_*.md" that is no scene's.
pub open spec fn is_chapter_markdown(n: Seq<char>) -> bool {
    starts_with(n, "chapter_"@) && ends_with(n, ".md"@) && !contains(n, "scene"@)
}

/// A chapter's generation log: "chapter_generation_*.txt" that is no token record.
pub open spec fn is_chapter_generation_log(n: Seq<char>) -> bool {
    starts_with(n, "chapter_generation_"@) && ends_with(n, ".txt"@) && !contains(n, "token_usage"@)
}

/// A chapter's temporary summary: "temporary_summary_chapter_*" that is no token
/// record.
pub open spec fn is_chapter_summary_log(n: Seq<char>) -> bool {
    starts_with(n, "temporary_summary_chapter_"@) && !contains(n, "token_usage"@)
}

/// The names of `names` that the `kind`th test accepts (0: Markdown logs,
/// 1: generation logs, 2: temporary summaries), in order.
pub open spec fn names_of_kind(names: Seq<Seq<char>>, kind: int) -> Seq<Seq<char>> {
    names.filter(|n: Seq<char>| if kind == 0 {
        is_chapter_markdown(n)
    } else if kind == 1 {
        is_chapter_generation_log(n)
    } else {
        is_chapter_summary_log(n)
    })
}

/// The files that chapters are read from: the chapters' Markdown logs, or, where
/// there are none, their generation logs, or else their temporary summaries.
pub open spec fn chapter_sources(names: Seq<Seq<char>>) -> Seq<Seq<char>> {
    if names_of_kind(names, 0).len() > 0 {
        names_of_kind(names, 0)
    } else if names_of_kind(names, 1).len() > 0 {
        names_of_kind(names, 1)
    } else {
        names_of_kind(names, 2)
    }
}

fn is_of_kind(n: &Vec<char>, kind: usize) -> (r: bool)
    ensures
        r == (if kind == 0 {
            is_chapter_markdown(n@)
        } else if kind == 1 {
            is_chapter_generation_log(n@)
        } else {
            is_chapter_summary_log(n@)
        }),
{
    if kind == 0 {
        starts_with_exec(n, &chars_of("chapter_")) && ends_with_exec(n, &chars_of(".md")) && !contains_exec(n, &chars_of("scene"))
    } else if kind == 1 {
        starts_with_exec(n, &chars_of("chapter_generation_")) && ends_with_exec(n, &chars_of(".txt"))
            && !contains_exec(n, &chars_of("token_usage"))
    } else {
        starts_with_exec(n, &chars_of("temporary_summary_chapter_")) && !contains_exec(n, &chars_of("token_usage"))
    }
}

fn names_of_kind_exec(names: &Vec<String>, kind: usize) -> (r: Vec<String>)
    ensures
        r@.map_values(|s: String| s@) == names_of_kind(names@.map_values(|s: String| s@), kind as int),
{
    let ghost all = names@.map_values(|s: String| s@);
    let ghost pred = |n: Seq<char>| if kind == 0 {
        is_chapter_markdown(n)
    } else if kind == 1 {
        is_chapter_generation_log(n)
    } else {
        is_chapter_summary_log(n)
    };
    let mut out: Vec<String> = Vec::new();
    let mut i: usize = 0;
    while i < names.len()
        invariant
            i <= names@.len(),
            all == names@.map_values(|s: String| s@),
            pred == (|n: Seq<char>| if kind == 0 {
                is_chapter_markdown(n)
            } else if kind == 1 {
                is_chapter_generation_log(n)
            } else {
                is_chapter_summary_log(n)
            }),
            out@.map_values(|s: String| s@) == all.take(i as int).filter(pred),
        decreases names@.len() - i,
    {
        proof {
            assert(all.take(i + 1) =~= all.take(i as int).push(all[i as int]));
            all.take(i as int).lemma_filter_push(all[i as int], pred);
        }
        let n = chars_of(names[i].as_str());
        assert(n@ == all[i as int]);
        if is_of_kind(&n, kind) {
            let ghost before = out@;
            out.push(owned(names[i].as_str()));
            assert(out@.map_values(|s: String| s@) =~= before.map_values(|s: String| s@).push(n@));
        }
        i = i + 1;
    }
    assert(all.take(names@.len() as int) =~= all);
    out
}

/// The files that chapters are read from, among the names of the log directory.
pub fn chapter_source_files(names: &Vec<String>) -> (r: Vec<String>)
    ensures
        r@.map_values(|s: String| s@) == chapter_sources(names@.map_values(|s: String| s@)),
{
    let md = names_of_kind_exec(names, 0);
    if md.len() > 0 {
        return md;
    }
    let generation = names_of_kind_exec(names, 1);
    if generation.len() > 0 {
        return generation;
    }
    names_of_kind_exec(names, 2)
}

/// The files that chapters are read from, each with its chapter number, in order of
/// those numbers (files of one number keep their order).
pub fn ordered_chapter_files(names: &Vec<String>) -> (r: Vec<(usize, String)>)
    ensures
        sorted_pairs(r@),
        forall|n: usize| pair_names(#[trigger] pairs_numbered(r@, n))
            == names_numbered(chapter_sources(names@.map_values(|s: String| s@)), n),
{
    let files = chapter_source_files(names);
    let mut numbers: Vec<usize> = Vec::new();
    let mut i: usize = 0;
    while i < files.len()
        invariant
            i <= files@.len(),
            numbers@.len() == i,
            forall|k: int| 0 <= k < i ==> numbers@[k] == chapter_file_number(#[trigger] files@[k]@),
        decreases files@.len() - i,
    {
        numbers.push(chapter_file_number_of(files[i].as_str()));
        i = i + 1;
    }
    pair_and_sort(&files, Ghost(|m: Seq<char>| chapter_file_number(m)), &numbers)
}

proof fn lemma_filter_pairs(v: Seq<(usize, String)>, names: Seq<Seq<char>>, key: spec_fn(Seq<char>) -> usize, n: usize, k: int)
    requires
        0 <= k <= v.len(),
        v.len() == names.len(),
        forall|i: int| 0 <= i < v.len() ==> #[trigger] v[i].1@ == names[i] && v[i].0 == key(names[i]),
    ensures
        pair_names(pairs_numbered(v.take(k), n)) == names_keyed(names.take(k), key, n),
    decreases k,
{
    let pp = number_is(n);
    let pm = key_is(key, n);
    reveal(Seq::filter);
    if k == 0 {
        assert(v.take(0) =~= Seq::<(usize, String)>::empty());
        assert(names.take(0) =~= Seq::<Seq<char>>::empty());
        assert(pairs_numbered(v.take(0), n) =~= Seq::<(usize, String)>::empty());
        assert(names_keyed(names.take(0), key, n) =~= Seq::<Seq<char>>::empty());
    } else {
        lemma_filter_pairs(v, names, key, n, k - 1);
        assert(v.take(k) =~= v.take(k - 1).push(v[k - 1]));
        assert(names.take(k) =~= names.take(k - 1).push(names[k - 1]));
        v.take(k - 1).lemma_filter_push(v[k - 1], pp);
        names.take(k - 1).lemma_filter_push(names[k - 1], pm);
        assert(v[k - 1].1@ == names[k - 1]);
        if pp(v[k - 1]) {
            assert(pair_names(pairs_numbered(v.take(k), n)) =~= pair_names(pairs_numbered(v.take(k - 1), n)).push(names[k - 1]));
        } else {
            assert(pair_names(pairs_numbered(v.take(k), n)) =~= pair_names(pairs_numbered(v.take(k - 1), n)));
        }
    }
}

/// Pairs each name with its number by `key` and sorts the pairs by number, stably.
fn pair_and_sort(files: &Vec<String>, Ghost(key): Ghost<spec_fn(Seq<char>) -> usize>, numbers: &Vec<usize>) -> (r: Vec<(usize, String)>)
    requires
        numbers@.len() == files@.len(),
        forall|k: int| 0 <= k < files@.len() ==> numbers@[k] == key(#[trigger] files@[k]@),
    ensures
        sorted_pairs(r@),
        forall|n: usize| pair_names(#[trigger] pairs_numbered(r@, n)) == names_keyed(files@.map_values(|s: String| s@), key, n),
{
    let ghost fv = files@.map_values(|s: String| s@);
    let mut pairs: Vec<(usize, String)> = Vec::new();
    let mut i: usize = 0;
    while i < files.len()
        invariant
            i <= files@.len(),
            numbers@.len() == files@.len(),
            forall|k: int| 0 <= k < files@.len() ==> numbers@[k] == key(#[trigger] files@[k]@),
            fv == files@.map_values(|s: String| s@),
            pairs@.len() == i,
            forall|k: int| 0 <= k < i ==> #[trigger] pairs@[k].1@ == fv[k] && pairs@[k].0 == key(fv[k]),
        decreases files@.len() - i,
    {
        assert(numbers@[i as int] == key(files@[i as int]@));
        pairs.push((numbers[i], owned(files[i].as_str())));
        i = i + 1;
    }
    let ghost unsorted = pairs@;
    proof {
        assert(fv.len() == unsorted.len());
        assert forall|k: int| 0 <= k < unsorted.len() implies #[trigger] unsorted[k].1@ == fv[k]
            && unsorted[k].0 == key(fv[k]) by {
            assert(pairs@[k].1@ == fv[k]);
        }
        assert forall|n: usize| pair_names(#[trigger] pairs_numbered(unsorted, n)) == names_keyed(fv, key, n) by {
            lemma_filter_pairs(unsorted, fv, key, n, unsorted.len() as int);
            assert(unsorted.take(unsorted.len() as int) =~= unsorted);
            assert(fv.take(fv.len() as int) =~= fv);
        }
    }
    sort_pairs_by_number(&mut pairs);
    pairs
}

// ---------------------------------------------------------------------------
// A chapter rebuilt from its log
// ---------------------------------------------------------------------------

/// The text between the first ':' and the next one, trimmed: the second
/// ':'-separated piece.
pub open spec fn second_piece(l: Seq<char>) -> Seq<char> {
    trim(before_char(after_first(l, ':'), ':'))
}

fn second_piece_exec(l: &Vec<char>) -> (r: Vec<char>)
    ensures
        r@ == second_piece(l@),
{
    trim_exec(&before_char_exec(&after_first_exec(l, ':'), ':'))
}

/// A line that names a chapter with a title after ':'.
pub open spec fn is_chapter_title_line(l: Seq<char>) -> bool {
    contains(l, "Chapter"@) && has_colon(l)
}

/// A line with a ':'.
pub open spec fn has_colon(l: Seq<char>) -> bool {
    crate::text::has_char(l, ':')
}

/// The title that a chapter's log gives from line `i` on: the second piece of the
/// first line that names a chapter, else "Chapter {num}".
pub open spec fn log_title_from(ls: Seq<Seq<char>>, num: usize, i: int) -> Seq<char>
    decreases ls.len() - i,
{
    if i < 0 || i >= ls.len() {
        "Chapter "@ + decimal(num as nat)
    } else if is_chapter_title_line(ls[i]) {
        second_piece(ls[i])
    } else {
        log_title_from(ls, num, i + 1)
    }
}

/// Texts joined by line breaks.
pub open spec fn newline_joined(ss: Seq<Seq<char>>) -> Seq<char>
    decreases ss.len(),
{
    if ss.len() == 0 {
        Seq::empty()
    } else if ss.len() == 1 {
        ss[0]
    } else {
        newline_joined(ss.drop_last()) + "\n"@ + ss.last()
    }
}

/// The state of the scan for scenes in a chapter's log.
pub struct LogScan {
    pub scenes: Seq<SceneOutlineView>,
    pub title: Seq<char>,
    pub desc: Seq<Seq<char>>,
    pub in_scene: bool,
    pub number: nat,
    pub stopped: bool,
}

/// The most scenes taken from a chapter's log.
pub open spec fn max_log_scenes() -> nat {
    10
}

/// One line of the scan: a line with "Scene" and ':' closes the scene being read
/// (where it has a title) and opens the next, whose title is the line's second
/// piece; after the tenth scene the scan stops; other lines of a scene describe it.
pub open spec fn log_scan_step(st: LogScan, line: Seq<char>) -> LogScan {
    if st.stopped {
        st
    } else if contains(line, "Scene"@) && has_colon(line) {
        let scenes = if st.in_scene && st.title.len() > 0 {
            st.scenes.push(SceneOutlineView { title: st.title, description: newline_joined(st.desc), number: st.number as usize })
        } else {
            st.scenes
        };
        let number = st.number + 1;
        if number > max_log_scenes() {
            LogScan { scenes, number, stopped: true, ..st }
        } else {
            LogScan { scenes, title: second_piece(line), desc: Seq::empty(), in_scene: true, number, stopped: false }
        }
    } else if st.in_scene {
        LogScan { desc: st.desc.push(line), ..st }
    } else {
        st
    }
}

/// The scan over the first `k` lines.
pub open spec fn log_scan(ls: Seq<Seq<char>>, k: int) -> LogScan
    decreases k,
{
    if k <= 0 || k > ls.len() {
        LogScan { scenes: Seq::empty(), title: Seq::empty(), desc: Seq::empty(), in_scene: false, number: 0, stopped: false }
    } else {
        log_scan_step(log_scan(ls, k - 1), ls[k - 1])
    }
}

/// The scenes that a chapter's log gives: those the scan closed, and the last one
/// where it has a title and the scan did not stop.
pub open spec fn log_scenes(content: Seq<char>) -> Seq<SceneOutlineView> {
    let st = log_scan(lines(content), lines(content).len() as int);
    if st.in_scene && st.title.len() > 0 && st.number <= max_log_scenes() {
        st.scenes.push(SceneOutlineView { title: st.title, description: newline_joined(st.desc), number: st.number as usize })
    } else {
        st.scenes
    }
}

/// The outline of chapter `num` that its log gives: the title, the first ten lines
/// as description, and the scenes found in it.
pub open spec fn log_chapter_outline(content: Seq<char>, num: usize) -> ChapterOutlineView {
    let ls = lines(content);
    ChapterOutlineView {
        title: log_title_from(ls, num, 0),
        description: newline_joined(ls.take(if ls.len() < 10 { ls.len() as int } else { 10 })),
        scenes: log_scenes(content),
        chapter_number: num,
    }
}

fn newline_joined_exec(ss: &Vec<Vec<char>>, k: usize) -> (r: Vec<char>)
    requires
        k <= ss@.len(),
    ensures
        r@ == newline_joined(ss@.map_values(|s: Vec<char>| s@).take(k as int)),
{
    let ghost all = ss@.map_values(|s: Vec<char>| s@);
    let mut out: Vec<char> = Vec::new();
    let mut i: usize = 0;
    while i < k
        invariant
            i <= k <= ss@.len(),
            all == ss@.map_values(|s: Vec<char>| s@),
            out@ == newline_joined(all.take(i as int)),
        decreases k - i,
    {
        let ghost pre = all.take(i + 1);
        assert(pre.drop_last() =~= all.take(i as int));
        assert(pre.last() == ss@[i as int]@);
        if i > 0 {
            out.push('\n');
        }
        push_all(&mut out, &ss[i]);
        proof {
            reveal_strlit("\n");
            assert(out@ =~= newline_joined(pre));
        }
        i = i + 1;
    }
    out
}

/// The exec state of the scan.
struct LogScanner {
    scenes: Vec<SceneOutline>,
    title: Vec<char>,
    desc: Vec<Vec<char>>,
    in_scene: bool,
    number: usize,
    stopped: bool,
}

impl LogScanner {
    spec fn state(&self) -> LogScan {
        LogScan {
            scenes: scenes_view(self.scenes@),
            title: self.title@,
            desc: self.desc@.map_values(|s: Vec<char>| s@),
            in_scene: self.in_scene,
            number: self.number as nat,
            stopped: self.stopped,
        }
    }

    fn close_scene(&self) -> (r: SceneOutline)
        ensures
            r@ == (SceneOutlineView { title: self.title@, description: newline_joined(self.desc@.map_values(|s: Vec<char>| s@)), number: self.number }),
    {
        let d = newline_joined_exec(&self.desc, self.desc.len());
        assert(self.desc@.map_values(|s: Vec<char>| s@).take(self.desc@.len() as int) =~= self.desc@.map_values(|s: Vec<char>| s@));
        SceneOutline { title: to_string(&self.title), description: to_string(&d), number: self.number }
    }
}

fn log_title_exec(ls: &Vec<Vec<char>>, num: usize) -> (r: Vec<char>)
    ensures
        r@ == log_title_from(ls@.map_values(|s: Vec<char>| s@), num, 0),
{
    let ghost all = ls@.map_values(|s: Vec<char>| s@);
    let mut i: usize = 0;
    while i < ls.len()
        invariant
            i <= ls@.len(),
            all == ls@.map_values(|s: Vec<char>| s@),
            log_title_from(all, num, 0) == log_title_from(all, num, i as int),
        decreases ls@.len() - i,
    {
        assert(all[i as int] == ls@[i as int]@);
        if contains_exec(&ls[i], &chars_of("Chapter")) && crate::text::has_char_exec(&ls[i], ':') {
            return second_piece_exec(&ls[i]);
        }
        i = i + 1;
    }
    let mut title = chars_of("Chapter ");
    push_decimal(&mut title, num);
    title
}

/// Rebuilds chapter `num`'s outline from the text of its log, where the book's
/// outline has no chapter `num`.
pub fn chapter_outline_from_log(content: &str, num: usize) -> (r: ChapterOutline)
    ensures
        r@ == log_chapter_outline(content@, num),
{
    let ls = lines_exec(&chars_of(content));
    let ghost all = lines(content@);
    assert(ls@.map_values(|s: Vec<char>| s@) =~= all);
    // The title.
    let title = log_title_exec(&ls, num);
    // The description.
    let k: usize = if ls.len() < 10 { ls.len() } else { 10 };
    let description = newline_joined_exec(&ls, k);
    // The scenes.
    let mut sc = LogScanner { scenes: Vec::new(), title: Vec::new(), desc: Vec::new(), in_scene: false, number: 0, stopped: false };
    assert(sc.state() == log_scan(all, 0)) by {
        assert(scenes_view(sc.scenes@) =~= Seq::<SceneOutlineView>::empty());
        assert(sc.desc@.map_values(|s: Vec<char>| s@) =~= Seq::<Seq<char>>::empty());
    }
    let mut j: usize = 0;
    while j < ls.len()
        invariant
            j <= ls@.len(),
            all == ls@.map_values(|s: Vec<char>| s@),
            sc.state() == log_scan(all, j as int),
            sc.number <= 11,
            !sc.stopped ==> sc.number <= 10,
        decreases ls@.len() - j,
    {
        let line = &ls[j];
        assert(all[j as int] == line@);
        let ghost st = sc.state();
        if sc.stopped {
        } else if contains_exec(line, &chars_of("Scene")) && crate::text::has_char_exec(line, ':') {
            if sc.in_scene && sc.title.len() > 0 {
                let s = sc.close_scene();
                let ghost before = sc.scenes@;
                sc.scenes.push(s);
                assert(scenes_view(sc.scenes@) =~= scenes_view(before).push(s@));
            }
            sc.number = sc.number + 1;
            if sc.number > 10 {
                sc.stopped = true;
            } else {
                sc.title = second_piece_exec(line);
                sc.desc = Vec::new();
                sc.in_scene = true;
                assert(sc.desc@.map_values(|s: Vec<char>| s@) =~= Seq::<Seq<char>>::empty());
            }
        } else if sc.in_scene {
            let ghost before = sc.desc@;
            sc.desc.push(slice_chars(line, 0, line.len()));
            assert(line@.subrange(0, line@.len() as int) =~= line@);
            assert(sc.desc@.map_values(|s: Vec<char>| s@) =~= before.map_values(|s: Vec<char>| s@).push(line@));
        }
        assert(sc.state() == log_scan_step(st, line@));
        j = j + 1;
    }
    if sc.in_scene && sc.title.len() > 0 && sc.number <= 10 {
        let s = sc.close_scene();
        let ghost before = sc.scenes@;
        sc.scenes.push(s);
        assert(scenes_view(sc.scenes@) =~= scenes_view(before).push(s@));
    }
    ChapterOutline {
        title: to_string(&title),
        description: to_string(&description),
        scenes: sc.scenes,
        chapter_number: num,
    }
}

/// The chapter that a log gives, where it holds no saved chapter: chapter `num` of
/// the book's outline where the outline has it, else the outline rebuilt from the
/// log; the chapter's text is the log's text and it has no scenes yet.
pub fn chapter_from_log(content: &str, num: usize, outline: &Outline) -> (r: Chapter)
    requires
        num > 0,
    ensures
        r.number == num,
        r.outline@ == (if num - 1 < outline@.len() {
            outline@[num - 1]
        } else {
            log_chapter_outline(content@, num)
        }),
        r.title@ == r.outline@.title,
        r.scenes@.len() == 0,
        r.content@ == content@,
{
    let co = if num - 1 < outline.chapters.len() {
        assert(outline@[num - 1] == outline.chapters@[num - 1]@);
        outline.chapters[num - 1].clone()
    } else {
        chapter_outline_from_log(content, num)
    };
    Chapter {
        number: num,
        title: owned(co.title.as_str()),
        outline: co,
        scenes: Vec::new(),
        content: owned(content),
    }
}

/// Whether the chapter file at index `i` is loaded: it has a chapter number, it
/// could be read, and no earlier file of that number was loaded.
pub open spec fn loads_chapter(files: Seq<(usize, String)>, readable: Seq<bool>, i: int) -> bool {
    &&& files[i].0 != 0
    &&& readable[i]
    &&& !exists|j: int| 0 <= j < i && files[j].0 == files[i].0 && readable[j]
}

/// The indices, in order, of the chapter files that are loaded.
pub open spec fn chapters_loaded(files: Seq<(usize, String)>, readable: Seq<bool>) -> Seq<usize> {
    Seq::new(files.len(), |i: int| i as usize).filter(|i: usize| loads_chapter(files, readable, i as int))
}

/// Picks the chapter files to load among the ordered chapter files, given which
/// of them could be read: each chapter number once, from its first readable file;
/// files numbered 0 are skipped.
pub fn chapters_to_load(files: &Vec<(usize, String)>, readable: &Vec<bool>) -> (r: Vec<usize>)
    requires
        readable@.len() == files@.len(),
        files@.len() < usize::MAX,
    ensures
        r@ == chapters_loaded(files@, readable@),
{
    let ghost all = Seq::new(files@.len(), |i: int| i as usize);
    let ghost pred = |i: usize| loads_chapter(files@, readable@, i as int);
    let mut out: Vec<usize> = Vec::new();
    let mut i: usize = 0;
    while i < files.len()
        invariant
            i <= files@.len() < usize::MAX,
            readable@.len() == files@.len(),
            all == Seq::new(files@.len(), |i: int| i as usize),
            pred == (|i: usize| loads_chapter(files@, readable@, i as int)),
            out@ == all.take(i as int).filter(pred),
        decreases files@.len() - i,
    {
        proof {
            assert(all.take(i + 1) =~= all.take(i as int).push(i));
            all.take(i as int).lemma_filter_push(i, pred);
        }
        let n = files[i].0;
        let mut earlier = false;
        let mut j: usize = 0;
        while j < i
            invariant
                j <= i < files@.len(),
                readable@.len() == files@.len(),
                n == files@[i as int].0,
                earlier == exists|k: int| 0 <= k < j && files@[k].0 == n && readable@[k],
            decreases i - j,
        {
            if files[j].0 == n && readable[j] {
                earlier = true;
            }
            j = j + 1;
        }
        if n != 0 && readable[i] && !earlier {
            assert(pred(i));
            out.push(i);
        } else {
            assert(!pred(i));
        }
        i = i + 1;
    }
    assert(all.take(files@.len() as int) =~= all);
    out
}

/// A loaded chapter with the scenes read from its scene files; where none were read
/// it keeps its own.
pub fn with_loaded_scenes(chapter: Chapter, scenes: Vec<Scene>) -> (r: Chapter)
    ensures
        r.number == chapter.number,
        r.title == chapter.title,
        r.outline == chapter.outline,
        r.content == chapter.content,
        r.scenes == if scenes@.len() > 0 { scenes } else { chapter.scenes },
{
    let mut chapter = chapter;
    if scenes.len() > 0 {
        chapter.scenes = scenes;
    }
    chapter
}

// ---------------------------------------------------------------------------
// Scene files
// ---------------------------------------------------------------------------

/// The text before the first `p`, or all of it: the first piece of `split(p)`.
pub open spec fn before_pattern(s: Seq<char>, p: Seq<char>) -> Seq<char> {
    match find(s, p) {
        Some(j) => s.subrange(0, j),
        None => s,
    }
}

/// The second piece of `split(p)`: the text between the first `p` and the next, or
/// `None` where `p` does not occur.
pub open spec fn second_split(s: Seq<char>, p: Seq<char>) -> Option<Seq<char>> {
    match find(s, p) {
        Some(k) => Some(before_pattern(s.subrange(k + p.len(), s.len() as int), p)),
        None => None,
    }
}

fn before_pattern_exec(s: &Vec<char>, p: &Vec<char>) -> (r: Vec<char>)
    ensures
        r@ == before_pattern(s@, p@),
{
    proof {
        lemma_find_from_bounds(s@, p@, 0);
    }
    match find_exec(s, p) {
        Some(j) => slice_chars(s, 0, j),
        None => {
            let r = slice_chars(s, 0, s.len());
            assert(r@ =~= s@);
            r
        },
    }
}

fn second_split_exec(s: &Vec<char>, p: &Vec<char>) -> (r: Option<Vec<char>>)
    ensures
        match second_split(s@, p@) {
            Some(x) => r matches Some(y) && y@ == x,
            None => r is None,
        },
{
    proof {
        lemma_find_from_bounds(s@, p@, 0);
    }
    match find_exec(s, p) {
        Some(k) => {
            assert(matches_at(s@, p@, k as int));
            assert(k + p.len() <= s.len());
            Some(before_pattern_exec(&suffix_from(s, k + p.len()), p))
        },
        None => None,
    }
}

/// The scene number in a scene file's name: the number before the first '_' after
/// the first "scene", or 0.
pub open spec fn scene_file_number(name: Seq<char>) -> usize {
    match second_split(name, "scene"@) {
        Some(piece) => number_or_zero(before_char(piece, '_')),
        None => 0,
    }
}

/// Reads the scene number in a scene file's name.
pub fn scene_file_number_of(name: &str) -> (r: usize)
    ensures
        r == scene_file_number(name@),
{
    match second_split_exec(&chars_of(name), &chars_of("scene")) {
        Some(piece) => number_or_zero_exec(&before_char_exec(&piece, '_')),
        None => 0,
    }
}

/// The chapter that a scene file's name names: the number before the first '_'
/// after the first "ch", where it reads as one.
pub open spec fn scene_file_chapter(name: Seq<char>) -> Option<usize> {
    match second_split(name, "ch"@) {
        Some(piece) => parse_usize(before_char(piece, '_')),
        None => None,
    }
}

/// A log file that holds a scene of chapter `num`: a scene or content log of that
/// chapter, or any scene log, that is no token record and names no other chapter.
pub open spec fn is_scene_file_for(name: Seq<char>, num: nat) -> bool {
    let is_scene = contains(name, "scene_generation_ch"@ + decimal(num) + "_scene"@)
        || contains(name, "content_generation_ch"@ + decimal(num) + "_scene"@)
        || (contains(name, "scene_generation_ch"@) && !contains(name, "token_usage"@));
    &&& is_scene
    &&& !ends_with(name, "_token_usage.txt"@)
    &&& !contains(name, "token_usage"@)
    &&& match scene_file_chapter(name) {
        Some(c) => c == num,
        None => true,
    }
}

/// Whether a log file holds a scene of chapter `num`.
pub fn scene_file_for(name: &str, num: usize) -> (r: bool)
    ensures
        r == is_scene_file_for(name@, num as nat),
{
    let n = chars_of(name);
    let mut p1 = chars_of("scene_generation_ch");
    push_decimal(&mut p1, num);
    push_str(&mut p1, "_scene");
    let mut p2 = chars_of("content_generation_ch");
    push_decimal(&mut p2, num);
    push_str(&mut p2, "_scene");
    let is_scene = contains_exec(&n, &p1) || contains_exec(&n, &p2) || (contains_exec(&n, &chars_of("scene_generation_ch"))
        && !contains_exec(&n, &chars_of("token_usage")));
    if !is_scene || ends_with_exec(&n, &chars_of("_token_usage.txt")) || contains_exec(&n, &chars_of("token_usage")) {
        return false;
    }
    match second_split_exec(&n, &chars_of("ch")) {
        Some(piece) => match parse_usize_exec(&before_char_exec(&piece, '_')) {
            Some(c) => c == num,
            None => true,
        },
        None => true,
    }
}

/// The view of a scene: its title, its outline, and its text with its chapter and
/// scene numbers.
pub open spec fn scene_view(s: Scene) -> (Seq<char>, SceneOutlineView, (Seq<char>, usize, usize)) {
    (s.title@, s.outline@, (s.content.text@, s.content.chapter_number, s.content.scene_number))
}

/// One scene file of chapter `chapter` read into scenes: an unread file gives
/// nothing; a file's number (or, where it names none, the next number) picks the
/// scene of the chapter's outline, and a content log gives the scene its trimmed
/// text.
pub open spec fn load_scene_step(
    scenes: Seq<(Seq<char>, SceneOutlineView, (Seq<char>, usize, usize))>,
    name: Seq<char>,
    text: Option<Seq<char>>,
    chapter: usize,
    outline: Seq<SceneOutlineView>,
) -> Seq<(Seq<char>, SceneOutlineView, (Seq<char>, usize, usize))> {
    match text {
        None => scenes,
        Some(t) => {
            let n = scene_file_number(name);
            let num: int = if n == 0 { scenes.len() + 1int } else { n as int };
            if num > 0 && num <= outline.len() {
                let so = outline[num - 1];
                let content = if contains(name, "content_generation"@) {
                    (trim(t), chapter, num as usize)
                } else {
                    (Seq::<char>::empty(), 0usize, 0usize)
                };
                scenes.push((so.title, so, content))
            } else {
                scenes
            }
        },
    }
}

/// The scenes read from the first `k` scene files.
pub open spec fn load_scenes_from(
    files: Seq<(Seq<char>, Option<Seq<char>>)>,
    k: int,
    chapter: usize,
    outline: Seq<SceneOutlineView>,
) -> Seq<(Seq<char>, SceneOutlineView, (Seq<char>, usize, usize))>
    decreases k,
{
    if k <= 0 || k > files.len() {
        Seq::empty()
    } else {
        load_scene_step(load_scenes_from(files, k - 1, chapter, outline), files[k - 1].0, files[k - 1].1, chapter, outline)
    }
}

/// The name and text of a scene file as plain values.
pub open spec fn file_view(f: (String, Option<String>)) -> (Seq<char>, Option<Seq<char>>) {
    (f.0@, match f.1 {
        Some(t) => Some(t@),
        None => None,
    })
}

/// Reads the scenes of a chapter from its scene files, in order; each file comes
/// with its text, or `None` where it could not be read.
pub fn load_scenes(files: &Vec<(String, Option<String>)>, chapter: usize, outline: &ChapterOutline) -> (r: Vec<Scene>)
    requires
        files@.len() < usize::MAX,
    ensures
        r@.map_values(|s: Scene| scene_view(s)) == load_scenes_from(
            files@.map_values(|f: (String, Option<String>)| file_view(f)),
            files@.len() as int,
            chapter,
            outline@.scenes,
        ),
{
    let ghost fs = files@.map_values(|f: (String, Option<String>)| file_view(f));
    let mut scenes: Vec<Scene> = Vec::new();
    let mut i: usize = 0;
    while i < files.len()
        invariant
            i <= files@.len(),
            files@.len() < usize::MAX,
            fs == files@.map_values(|f: (String, Option<String>)| file_view(f)),
            scenes@.len() <= i,
            scenes@.map_values(|s: Scene| scene_view(s)) == load_scenes_from(fs, i as int, chapter, outline@.scenes),
        decreases files@.len() - i,
    {
        let (name, text) = (&files[i].0, &files[i].1);
        assert(fs[i as int] == file_view(files@[i as int]));
        match text {
            None => {},
            Some(t) => {
                let n = scene_file_number_of(name.as_str());
                let num: usize = if n == 0 { scenes.len() + 1 } else { n };
                if num > 0 && num <= outline.scenes.len() {
                    let so = outline.scenes[num - 1].clone();
                    assert(so@ == outline@.scenes[num - 1]);
                    let content = if contains_exec(&chars_of(name.as_str()), &chars_of("content_generation")) {
                        Content { text: to_string(&trim_exec(&chars_of(t.as_str()))), chapter_number: chapter, scene_number: num }
                    } else {
                        Content::default()
                    };
                    let scene = Scene { title: owned(so.title.as_str()), outline: so, content };
                    let ghost before = scenes@;
                    scenes.push(scene);
                    assert(scenes@.map_values(|s: Scene| scene_view(s)) =~= before.map_values(|s: Scene| scene_view(s)).push(scene_view(scene)));
                }
            },
        }
        i = i + 1;
    }
    scenes
}

/// The scene files of chapter `num` among `names`, in their order.
pub open spec fn scene_files_of(names: Seq<Seq<char>>, num: nat) -> Seq<Seq<char>> {
    names.filter(|m: Seq<char>| is_scene_file_for(m, num))
}

/// The scene files of chapter `num` among the names of the log directory, each with
/// its scene number, in order of those numbers (files of one number keep their
/// order).
pub fn ordered_scene_files(names: &Vec<String>, num: usize) -> (r: Vec<(usize, String)>)
    ensures
        sorted_pairs(r@),
        forall|n: usize| pair_names(#[trigger] pairs_numbered(r@, n)) == names_keyed(
            scene_files_of(names@.map_values(|s: String| s@), num as nat),
            |m: Seq<char>| scene_file_number(m),
            n,
        ),
{
    let ghost all = names@.map_values(|s: String| s@);
    let ghost keep = |m: Seq<char>| is_scene_file_for(m, num as nat);
    let mut files: Vec<String> = Vec::new();
    let mut numbers: Vec<usize> = Vec::new();
    let mut i: usize = 0;
    while i < names.len()
        invariant
            i <= names@.len(),
            all == names@.map_values(|s: String| s@),
            keep == (|m: Seq<char>| is_scene_file_for(m, num as nat)),
            files@.map_values(|s: String| s@) == all.take(i as int).filter(keep),
            numbers@.len() == files@.len(),
            forall|k: int| 0 <= k < files@.len() ==> numbers@[k] == scene_file_number(#[trigger] files@[k]@),
        decreases names@.len() - i,
    {
        proof {
            assert(all.take(i + 1) =~= all.take(i as int).push(all[i as int]));
            all.take(i as int).lemma_filter_push(all[i as int], keep);
        }
        assert(all[i as int] == names@[i as int]@);
        if scene_file_for(names[i].as_str(), num) {
            let ghost before = files@;
            files.push(owned(names[i].as_str()));
            numbers.push(scene_file_number_of(names[i].as_str()));
            assert(files@.map_values(|s: String| s@) =~= before.map_values(|s: String| s@).push(names@[i as int]@));
        }
        i = i + 1;
    }
    assert(all.take(names@.len() as int) =~= all);
    pair_and_sort(&files, Ghost(|m: Seq<char>| scene_file_number(m)), &numbers)
}


// ---------------------------------------------------------------------------
// Whether a book is complete
// ---------------------------------------------------------------------------

/// The extension of a file name, as `Path::extension` gives it: the text after the
/// last '.', where that '.' is not the name's first character.
pub open spec fn extension(name: Seq<char>) -> Option<Seq<char>> {
    let i = crate::text::last_index_of(name, '.', name.len() as int);
    if i <= 0 {
        None
    } else {
        Some(name.subrange(i + 1, name.len() as int))
    }
}

fn extension_exec(name: &Vec<char>) -> (r: Option<Vec<char>>)
    ensures
        match extension(name@) {
            Some(e) => r matches Some(x) && x@ == e,
            None => r is None,
        },
{
    proof {
        crate::text::lemma_last_index_of(name@, '.', name@.len() as int);
    }
    let mut j: usize = name.len();
    while j > 0 && name[j - 1] != '.'
        invariant
            j <= name@.len(),
            crate::text::last_index_of(name@, '.', name@.len() as int) == crate::text::last_index_of(name@, '.', j as int),
        decreases j,
    {
        j = j - 1;
    }
    if j <= 1 {
        None
    } else {
        Some(suffix_from(name, j))
    }
}

/// A rendered chapter page: an ".html" file whose name starts with "chapter_".
pub open spec fn is_rendered_chapter(name: Seq<char>) -> bool {
    extension(name) == Some("html"@) && starts_with(name, "chapter_"@)
}

/// Whether the book directory holds a rendered chapter page.
pub fn has_rendered_chapter(names: &Vec<String>) -> (r: bool)
    ensures
        r == exists|k: int| 0 <= k < names@.len() && is_rendered_chapter(#[trigger] names@[k]@),
{
    let mut i: usize = 0;
    while i < names.len()
        invariant
            i <= names@.len(),
            forall|k: int| 0 <= k < i ==> !is_rendered_chapter(#[trigger] names@[k]@),
        decreases names@.len() - i,
    {
        let n = chars_of(names[i].as_str());
        let html = match extension_exec(&n) {
            Some(e) => crate::text::same_text(&e, &chars_of("html")),
            None => false,
        };
        if html && starts_with_exec(&n, &chars_of("chapter_")) {
            assert(is_rendered_chapter(names@[i as int]@));
            return true;
        }
        i = i + 1;
    }
    false
}

// ---------------------------------------------------------------------------
// The log that holds a scene's text
// ---------------------------------------------------------------------------

/// The names that the log of a scene's text is looked for by.
pub open spec fn content_patterns(chapter: nat, scene: nat) -> (Seq<char>, Seq<char>, Seq<char>) {
    (
        "content_generation_ch"@ + decimal(chapter) + "_scene"@ + decimal(scene),
        "scene_"@ + decimal(scene) + "_content_ch"@ + decimal(chapter),
        "scene_"@ + decimal(scene) + "_content"@,
    )
}

/// A log file that holds the text of the given scene: neither a temporary nor a
/// token-usage log, named after the scene, with the extension "md" or "txt".
pub open spec fn is_content_file_for(name: Seq<char>, chapter: nat, scene: nat) -> bool {
    let (a, b, c) = content_patterns(chapter, scene);
    &&& !contains(name, "temporary"@)
    &&& !contains(name, "token_usage"@)
    &&& contains(name, a) || contains(name, a + "."@) || contains(name, b) || contains(name, c)
    &&& extension(name) == Some("md"@) || extension(name) == Some("txt"@)
}

/// A log of the scene's text whose name carries a timestamp after ".txt_".
pub open spec fn is_stamped_content_file_for(name: Seq<char>, chapter: nat, scene: nat) -> bool {
    starts_with(name, content_patterns(chapter, scene).0 + ".txt_"@)
}

fn content_patterns_exec(chapter: usize, scene: usize) -> (r: (Vec<char>, Vec<char>, Vec<char>, Vec<char>, Vec<char>))
    ensures
        r.0@ == content_patterns(chapter as nat, scene as nat).0,
        r.1@ == content_patterns(chapter as nat, scene as nat).0 + "."@,
        r.2@ == content_patterns(chapter as nat, scene as nat).1,
        r.3@ == content_patterns(chapter as nat, scene as nat).2,
        r.4@ == content_patterns(chapter as nat, scene as nat).0 + ".txt_"@,
{
    let mut a = chars_of("content_generation_ch");
    push_decimal(&mut a, chapter);
    push_str(&mut a, "_scene");
    push_decimal(&mut a, scene);
    let mut a_dot = a.clone();
    push_str(&mut a_dot, ".");
    let mut a_txt = a.clone();
    push_str(&mut a_txt, ".txt_");
    let mut b = chars_of("scene_");
    push_decimal(&mut b, scene);
    push_str(&mut b, "_content_ch");
    push_decimal(&mut b, chapter);
    let mut c = chars_of("scene_");
    push_decimal(&mut c, scene);
    push_str(&mut c, "_content");
    (a, a_dot, b, c, a_txt)
}

fn has_extension(n: &Vec<char>, e: &str) -> (r: bool)
    ensures
        r == (extension(n@) == Some(e@)),
{
    match extension_exec(n) {
        Some(x) => crate::text::same_text(&x, &chars_of(e)),
        None => false,
    }
}

/// The log file, among the names of the files in a book's log directory, that holds
/// the text of the given scene: the first that `is_content_file_for` the scene, else
/// the first with a timestamped name for it, else none. Returns its position.
pub fn find_existing_content_file(names: &Vec<String>, chapter: usize, scene: usize) -> (r: Option<usize>)
    ensures
        match r {
            Some(k) => k < names@.len() && (
                (is_content_file_for(names@[k as int]@, chapter as nat, scene as nat)
                    && forall|j: int| 0 <= j < k ==> !is_content_file_for(#[trigger] names@[j]@, chapter as nat, scene as nat))
                || ((forall|j: int| 0 <= j < names@.len() ==> !is_content_file_for(#[trigger] names@[j]@, chapter as nat, scene as nat))
                    && is_stamped_content_file_for(names@[k as int]@, chapter as nat, scene as nat)
                    && forall|j: int| 0 <= j < k ==> !is_stamped_content_file_for(#[trigger] names@[j]@, chapter as nat, scene as nat))),
            None => forall|j: int| 0 <= j < names@.len() ==> !is_content_file_for(#[trigger] names@[j]@, chapter as nat, scene as nat)
                && !is_stamped_content_file_for(names@[j]@, chapter as nat, scene as nat),
        },
{
    let (a, a_dot, b, c, a_txt) = content_patterns_exec(chapter, scene);
    let temporary = chars_of("temporary");
    let token_usage = chars_of("token_usage");
    let mut i: usize = 0;
    while i < names.len()
        invariant
            i <= names@.len(),
            a@ == content_patterns(chapter as nat, scene as nat).0,
            a_dot@ == content_patterns(chapter as nat, scene as nat).0 + "."@,
            b@ == content_patterns(chapter as nat, scene as nat).1,
            c@ == content_patterns(chapter as nat, scene as nat).2,
            temporary@ == "temporary"@,
            token_usage@ == "token_usage"@,
            forall|j: int| 0 <= j < i ==> !is_content_file_for(#[trigger] names@[j]@, chapter as nat, scene as nat),
        decreases names@.len() - i,
    {
        let n = chars_of(names[i].as_str());
        let named = contains_exec(&n, &a) || contains_exec(&n, &a_dot) || contains_exec(&n, &b)
            || contains_exec(&n, &c);
        let found = !contains_exec(&n, &temporary) && !contains_exec(&n, &token_usage) && named
            && (has_extension(&n, "md") || has_extension(&n, "txt"));
        if found {
            return Some(i);
        }
        i = i + 1;
    }
    let mut i: usize = 0;
    while i < names.len()
        invariant
            i <= names@.len(),
            a_txt@ == content_patterns(chapter as nat, scene as nat).0 + ".txt_"@,
            forall|j: int| 0 <= j < names@.len() ==> !is_content_file_for(#[trigger] names@[j]@, chapter as nat, scene as nat),
            forall|j: int| 0 <= j < i ==> !is_stamped_content_file_for(#[trigger] names@[j]@, chapter as nat, scene as nat),
        decreases names@.len() - i,
    {
        let n = chars_of(names[i].as_str());
        if starts_with_exec(&n, &a_txt) {
            return Some(i);
        }
        i = i + 1;
    }
    None
}

/// An outline line that counts as a chapter when the book's completeness is judged.
pub open spec fn counts_as_chapter(l: Seq<char>) -> bool {
    starts_with(l, "Chapter "@) || starts_with(l, "CHAPTER "@) || (contains(l, "Chapter"@) && has_colon(l))
}

/// The number of the first `k` lines that count as chapters.
pub open spec fn chapter_line_count(ls: Seq<Seq<char>>, k: int) -> nat
    decreases k,
{
    if k <= 0 || k > ls.len() {
        0
    } else {
        chapter_line_count(ls, k - 1) + if counts_as_chapter(ls[k - 1]) { 1nat } else { 0nat }
    }
}

/// The number of chapters that the book's outline leads one to expect: its lines
/// that count as chapters, or ten where there are none.
pub open spec fn expected_chapters(outline: Seq<char>) -> nat {
    let c = chapter_line_count(lines(outline), lines(outline).len() as int);
    if c == 0 {
        10
    } else {
        c
    }
}

/// Counts the chapters that the book's outline leads one to expect.
pub fn expected_chapter_count(outline: &str) -> (r: usize)
    ensures
        r == expected_chapters(outline@),
{
    let ls = lines_exec(&chars_of(outline));
    let ghost all = lines(outline@);
    let mut count: usize = 0;
    let mut i: usize = 0;
    while i < ls.len()
        invariant
            i <= ls@.len(),
            ls@.len() == all.len(),
            all == lines(outline@),
            forall|k: int| 0 <= k < ls@.len() ==> #[trigger] ls@[k]@ == all[k],
            count == chapter_line_count(all, i as int),
            count <= i,
        decreases ls@.len() - i,
    {
        let l = &ls[i];
        assert(l@ == all[i as int]);
        if starts_with_exec(l, &chars_of("Chapter ")) || starts_with_exec(l, &chars_of("CHAPTER "))
            || (contains_exec(l, &chars_of("Chapter")) && crate::text::has_char_exec(l, ':')) {
            count = count + 1;
        }
        i = i + 1;
    }
    if count == 0 {
        10
    } else {
        count
    }
}

/// The number in a rendered chapter source "chapter_N.md".
pub open spec fn chapter_source_number(name: Seq<char>) -> Option<usize> {
    if starts_with(name, "chapter_"@) && ends_with(name, ".md"@) && name.len() >= 11 {
        parse_usize(name.subrange(8, name.len() - 3))
    } else {
        None
    }
}

/// A log that is neither a token record nor a temporary file.
pub open spec fn is_counted_log(name: Seq<char>) -> bool {
    !contains(name, "token_usage"@) && !contains(name, "temporary"@)
}

/// A log of a scene's generation.
pub open spec fn is_scene_log(name: Seq<char>) -> bool {
    contains(name, "scene_generation"@)
}

/// A log of a scene's content.
pub open spec fn is_content_log(name: Seq<char>) -> bool {
    contains(name, "content_generation"@) || (contains(name, "scene_"@) && contains(name, "content"@))
}

/// The chapter that a counted log names, where it names both a chapter and a scene.
pub open spec fn log_chapter(name: Seq<char>) -> Option<usize> {
    if is_counted_log(name) {
        match (chapter_number_in(name), scene_number_in(name)) {
            (Some(c), Some(Some(_))) => Some(c),
            _ => None,
        }
    } else {
        None
    }
}

/// Whether some log of the kind (scenes if `scenes`, else contents) is of chapter `c`.
pub open spec fn has_log_for(logs: Seq<Seq<char>>, c: usize, scenes: bool) -> bool {
    exists|k: int| 0 <= k < logs.len() && log_chapter(#[trigger] logs[k]) == Some(c)
        && (if scenes { is_scene_log(logs[k]) } else { is_content_log(logs[k]) })
}

/// The number of the first `k` chapter sources whose chapter has a log of the kind.
pub open spec fn chapters_with_logs(sources: Seq<usize>, logs: Seq<Seq<char>>, k: int, scenes: bool) -> nat
    decreases k,
{
    if k <= 0 || k > sources.len() {
        0
    } else {
        chapters_with_logs(sources, logs, k - 1, scenes) + if has_log_for(logs, sources[k - 1], scenes) {
            1nat
        } else {
            0nat
        }
    }
}

/// The numbers of the rendered chapter sources among the first `k` names.
pub open spec fn source_numbers(names: Seq<Seq<char>>, k: int) -> Seq<usize>
    decreases k,
{
    if k <= 0 || k > names.len() {
        Seq::empty()
    } else {
        match chapter_source_number(names[k - 1]) {
            Some(n) => source_numbers(names, k - 1).push(n),
            None => source_numbers(names, k - 1),
        }
    }
}

fn chapter_source_number_exec(name: &Vec<char>) -> (r: Option<usize>)
    ensures
        r == chapter_source_number(name@),
{
    if starts_with_exec(name, &chars_of("chapter_")) && ends_with_exec(name, &chars_of(".md")) && name.len() >= 11 {
        parse_usize_exec(&slice_chars(name, 8, name.len() - 3))
    } else {
        None
    }
}

fn log_chapter_exec(name: &str) -> (r: Option<usize>)
    ensures
        r == log_chapter(name@),
{
    let n = chars_of(name);
    if contains_exec(&n, &chars_of("token_usage")) || contains_exec(&n, &chars_of("temporary")) {
        return None;
    }
    let c = extract_chapter_number(name);
    let s = extract_scene_number(name);
    match (c, s) {
        (Some(c), Some(_)) => Some(c),
        _ => None,
    }
}

/// Whether some log of the kind is of chapter `c`.
#[verifier::loop_isolation(false)]
fn has_log_for_exec(chapters: &Vec<Option<usize>>, kinds: &Vec<(bool, bool)>, c: usize, scenes: bool, logs: Ghost<Seq<Seq<char>>>) -> (r: bool)
    requires
        chapters@.len() == logs@.len(),
        kinds@.len() == logs@.len(),
        forall|k: int| 0 <= k < logs@.len() ==> #[trigger] chapters@[k] == log_chapter(logs@[k])
            && kinds@[k] == (is_scene_log(logs@[k]), is_content_log(logs@[k])),
    ensures
        r == has_log_for(logs@, c, scenes),
{
    let mut k: usize = 0;
    while k < chapters.len()
        invariant
            k <= chapters@.len(),
            forall|j: int| 0 <= j < k ==> !(log_chapter(#[trigger] logs@[j]) == Some(c) && (if scenes {
                is_scene_log(logs@[j])
            } else {
                is_content_log(logs@[j])
            })),
        decreases chapters@.len() - k,
    {
        assert(chapters@[k as int] == log_chapter(logs@[k as int]));
        let of_kind = if scenes { kinds[k].0 } else { kinds[k].1 };
        if chapters[k] == Some(c) && of_kind {
            return true;
        }
        k = k + 1;
    }
    false
}

/// The counts by which a book is judged complete: of the rendered chapter sources
/// (the names of the source directory), how many have scene logs and how many have
/// content logs (among the names of the log directory). `None` where there is no
/// chapter source, so that the book is not complete.
pub fn completion_counts(source_names: &Vec<String>, log_names: &Vec<String>) -> (r: Option<(usize, usize)>)
    ensures
        ({
            let sources = source_numbers(source_names@.map_values(|s: String| s@), source_names@.len() as int);
            let logs = log_names@.map_values(|s: String| s@);
            match r {
                None => sources.len() == 0,
                Some((with_scenes, with_content)) => sources.len() > 0
                    && with_scenes == chapters_with_logs(sources, logs, sources.len() as int, true)
                    && with_content == chapters_with_logs(sources, logs, sources.len() as int, false),
            }
        }),
{
    let ghost names = source_names@.map_values(|s: String| s@);
    let ghost logs = log_names@.map_values(|s: String| s@);
    let mut sources: Vec<usize> = Vec::new();
    let mut i: usize = 0;
    while i < source_names.len()
        invariant
            i <= source_names@.len(),
            names == source_names@.map_values(|s: String| s@),
            sources@ == source_numbers(names, i as int),
        decreases source_names@.len() - i,
    {
        assert(names[i as int] == source_names@[i as int]@);
        match chapter_source_number_exec(&chars_of(source_names[i].as_str())) {
            Some(n) => sources.push(n),
            None => {},
        }
        i = i + 1;
    }
    if sources.len() == 0 {
        return None;
    }
    let mut chapters: Vec<Option<usize>> = Vec::new();
    let mut kinds: Vec<(bool, bool)> = Vec::new();
    let mut j: usize = 0;
    while j < log_names.len()
        invariant
            j <= log_names@.len(),
            logs == log_names@.map_values(|s: String| s@),
            chapters@.len() == j,
            kinds@.len() == j,
            forall|k: int| 0 <= k < j ==> #[trigger] chapters@[k] == log_chapter(logs[k])
                && kinds@[k] == (is_scene_log(logs[k]), is_content_log(logs[k])),
        decreases log_names@.len() - j,
    {
        let name = &log_names[j];
        assert(logs[j as int] == name@);
        let ghost old_ch = chapters@;
        let ghost old_kinds = kinds@;
        chapters.push(log_chapter_exec(name.as_str()));
        let n = chars_of(name.as_str());
        let scene_log = contains_exec(&n, &chars_of("scene_generation"));
        let content_log = contains_exec(&n, &chars_of("content_generation")) || (contains_exec(&n, &chars_of("scene_"))
            && contains_exec(&n, &chars_of("content")));
        kinds.push((scene_log, content_log));
        assert(chapters@[j as int] == log_chapter(logs[j as int]));
        assert(kinds@[j as int] == (is_scene_log(logs[j as int]), is_content_log(logs[j as int])));
        assert forall|k: int| 0 <= k < j + 1 implies #[trigger] chapters@[k] == log_chapter(logs[k])
            && kinds@[k] == (is_scene_log(logs[k]), is_content_log(logs[k])) by {
            if k < j {
                assert(chapters@[k] == old_ch[k]);
                assert(kinds@[k] == old_kinds[k]);
                assert(old_ch[k] == log_chapter(logs[k]));
            }
        }
        j = j + 1;
    }
    let mut with_scenes: usize = 0;
    let mut with_content: usize = 0;
    let mut k: usize = 0;
    while k < sources.len()
        invariant
            k <= sources@.len(),
            chapters@.len() == logs.len(),
            kinds@.len() == logs.len(),
            forall|q: int| 0 <= q < logs.len() ==> #[trigger] chapters@[q] == log_chapter(logs[q])
                && kinds@[q] == (is_scene_log(logs[q]), is_content_log(logs[q])),
            with_scenes == chapters_with_logs(sources@, logs, k as int, true),
            with_content == chapters_with_logs(sources@, logs, k as int, false),
            with_scenes <= k,
            with_content <= k,
        decreases sources@.len() - k,
    {
        if has_log_for_exec(&chapters, &kinds, sources[k], true, Ghost(logs)) {
            with_scenes = with_scenes + 1;
        }
        if has_log_for_exec(&chapters, &kinds, sources[k], false, Ghost(logs)) {
            with_content = with_content + 1;
        }
        k = k + 1;
    }
    Some((with_scenes, with_content))
}

// ---------------------------------------------------------------------------
// Scenes rebuilt from their own files
// ---------------------------------------------------------------------------

/// A scene's outline read from its generation log, line by line: a "Title:" or
/// "# " line gives the title (each such line replaces the last); a "Description:"
/// line, or the first plain line while there is no description, gives the
/// description.
pub open spec fn scene_file_step(st: (Seq<char>, Seq<char>), line: Seq<char>) -> (Seq<char>, Seq<char>) {
    if starts_with(line, "Title:"@) || starts_with(line, "# "@) {
        (trim(crate::text::strip_all_prefix(crate::text::strip_all_prefix(line, "Title:"@), "# "@)), st.1)
    } else if starts_with(line, "Description:"@) || (st.1.len() == 0 && line.len() > 0 && !starts_with(line, "#"@)) {
        (st.0, trim(crate::text::strip_all_prefix(line, "Description:"@)))
    } else {
        st
    }
}

/// The title and description after the first `k` lines, starting from
/// "Scene {num}" and no description.
pub open spec fn scene_file_fold(ls: Seq<Seq<char>>, k: int, num: usize) -> (Seq<char>, Seq<char>)
    decreases k,
{
    if k <= 0 || k > ls.len() {
        ("Scene "@ + decimal(num as nat), Seq::empty())
    } else {
        scene_file_step(scene_file_fold(ls, k - 1, num), ls[k - 1])
    }
}

/// Reads scene `num`'s outline from the text of its generation log.
pub fn scene_outline_from_file(content: &str, num: usize) -> (r: SceneOutline)
    ensures
        ({
            let ls = lines(content@);
            let (title, description) = scene_file_fold(ls, ls.len() as int, num);
            r@ == (SceneOutlineView { title, description, number: num })
        }),
{
    let ls = lines_exec(&chars_of(content));
    let ghost all = lines(content@);
    let mut title = chars_of("Scene ");
    push_decimal(&mut title, num);
    let mut description: Vec<char> = Vec::new();
    let mut i: usize = 0;
    while i < ls.len()
        invariant
            i <= ls@.len(),
            ls@.len() == all.len(),
            all == lines(content@),
            forall|k: int| 0 <= k < ls@.len() ==> #[trigger] ls@[k]@ == all[k],
            scene_file_fold(all, i as int, num) == (title@, description@),
        decreases ls@.len() - i,
    {
        let l = &ls[i];
        assert(l@ == all[i as int]);
        if starts_with_exec(l, &chars_of("Title:")) || starts_with_exec(l, &chars_of("# ")) {
            let a = crate::text::strip_all_prefix_exec(l, &chars_of("Title:"));
            title = trim_exec(&crate::text::strip_all_prefix_exec(&a, &chars_of("# ")));
        } else if starts_with_exec(l, &chars_of("Description:")) || (description.len() == 0 && l.len() > 0
            && !starts_with_exec(l, &chars_of("#"))) {
            description = trim_exec(&crate::text::strip_all_prefix_exec(l, &chars_of("Description:")));
        }
        i = i + 1;
    }
    SceneOutline { title: to_string(&title), description: to_string(&description), number: num }
}

/// A heading line of a chapter file ("##..." or "# ..."), trimmed.
pub open spec fn is_heading(t: Seq<char>) -> bool {
    starts_with(t, "##"@) || starts_with(t, "# "@)
}

/// The scan of a chapter file for a scene's section: the last heading that names
/// the scene before the section's end, and the first heading after it.
pub open spec fn scene_bounds(ls: Seq<Seq<char>>, title: Seq<char>, k: int) -> (Option<int>, Option<int>)
    decreases k,
{
    if k <= 0 || k > ls.len() {
        (None, None)
    } else {
        let (start, end) = scene_bounds(ls, title, k - 1);
        let i = k - 1;
        let t = trim(ls[i]);
        if end is Some {
            (start, end)
        } else if contains(t, title) && is_heading(t) {
            (Some(i), None)
        } else if start is Some && is_heading(t) {
            (start, Some(i))
        } else {
            (start, None)
        }
    }
}

/// A scene's text cut out of its chapter's file: the lines between the heading
/// that names the scene and the next heading, or the end of the file where no
/// heading follows, joined by line breaks; none where there is no such heading or
/// no text after it.
pub open spec fn scene_in_chapter(content: Seq<char>, title: Seq<char>) -> Option<Seq<char>> {
    let ls = lines(content);
    match scene_bounds(ls, title, ls.len() as int) {
        (Some(start), e) => {
            let end = match e {
                Some(x) => x,
                None => ls.len() as int,
            };
            let text = newline_joined(ls.subrange(start + 1, end));
            if text.len() > 0 {
                Some(text)
            } else {
                None
            }
        },
        _ => None,
    }
}

proof fn lemma_scene_bounds(ls: Seq<Seq<char>>, title: Seq<char>, k: int)
    requires
        0 <= k <= ls.len(),
    ensures
        scene_bounds(ls, title, k).0 matches Some(s) ==> 0 <= s < k,
        scene_bounds(ls, title, k).1 matches Some(e) ==> scene_bounds(ls, title, k).0 matches Some(s) && s < e < k,
    decreases k,
{
    if k > 0 {
        lemma_scene_bounds(ls, title, k - 1);
    }
}

/// A line that opens a section of a chapter file: once trimmed, it starts with "##"
/// or with "# ".
pub open spec fn opens_section(line: Seq<char>) -> bool {
    starts_with(trim(line), "##"@) || starts_with(trim(line), "# "@)
}

/// A line that opens the section of the scene titled `title`.
pub open spec fn names_scene(line: Seq<char>, title: Seq<char>) -> bool {
    opens_section(line) && contains(trim(line), title)
}

proof fn lemma_bounds_before(ls: Seq<Seq<char>>, title: Seq<char>, s: int, k: int)
    requires
        0 <= k <= s <= ls.len(),
        forall|j: int| 0 <= j < s ==> !names_scene(#[trigger] ls[j], title),
    ensures
        scene_bounds(ls, title, k) == (None::<int>, None::<int>),
    decreases k,
{
    if k > 0 {
        lemma_bounds_before(ls, title, s, k - 1);
        assert(!names_scene(ls[k - 1], title));
    }
}

proof fn lemma_bounds_inside(ls: Seq<Seq<char>>, title: Seq<char>, s: int, e: int, k: int)
    requires
        0 <= s < k <= e <= ls.len(),
        names_scene(ls[s], title),
        forall|j: int| 0 <= j < s ==> !names_scene(#[trigger] ls[j], title),
        forall|j: int| s < j < e ==> !opens_section(#[trigger] ls[j]),
    ensures
        scene_bounds(ls, title, k) == (Some(s), None::<int>),
    decreases k,
{
    if k == s + 1 {
        lemma_bounds_before(ls, title, s, s);
    } else {
        lemma_bounds_inside(ls, title, s, e, k - 1);
        assert(!opens_section(ls[k - 1]));
    }
}

proof fn lemma_bounds_after(ls: Seq<Seq<char>>, title: Seq<char>, s: int, e: int, k: int)
    requires
        0 <= s < e < k <= ls.len(),
        names_scene(ls[s], title),
        forall|j: int| 0 <= j < s ==> !names_scene(#[trigger] ls[j], title),
        forall|j: int| s < j < e ==> !opens_section(#[trigger] ls[j]),
        opens_section(ls[e]),
        !names_scene(ls[e], title),
    ensures
        scene_bounds(ls, title, k) == (Some(s), Some(e)),
    decreases k,
{
    if k == e + 1 {
        lemma_bounds_inside(ls, title, s, e, e);
    } else {
        lemma_bounds_after(ls, title, s, e, k - 1);
    }
}

/// A scene's text is every line after the first heading that names the scene, up to
/// the next heading (a line that starts with "##" or "# ") or the end of the file,
/// joined by line breaks: blank lines and other lines inside do not end it. There is
/// no text where those lines are empty.
pub proof fn law_scene_runs_to_next_heading(content: Seq<char>, title: Seq<char>, s: int, e: int)
    requires
        0 <= s < e <= lines(content).len(),
        names_scene(lines(content)[s], title),
        forall|j: int| 0 <= j < s ==> !names_scene(#[trigger] lines(content)[j], title),
        forall|j: int| s < j < e ==> !opens_section(#[trigger] lines(content)[j]),
        e == lines(content).len() || (opens_section(lines(content)[e]) && !names_scene(
            lines(content)[e],
            title,
        )),
    ensures
        scene_in_chapter(content, title) == (if newline_joined(lines(content).subrange(s + 1, e)).len() > 0 {
            Some(newline_joined(lines(content).subrange(s + 1, e)))
        } else {
            None
        }),
{
    let ls = lines(content);
    if e == ls.len() {
        lemma_bounds_inside(ls, title, s, e, e);
    } else {
        lemma_bounds_after(ls, title, s, e, ls.len() as int);
    }
}

/// Cuts a scene's text out of its chapter's file, by the scene's title.
pub fn extract_scene_from_chapter(chapter_content: &str, scene_title: &str) -> (r: Option<String>)
    ensures
        match scene_in_chapter(chapter_content@, scene_title@) {
            Some(t) => r matches Some(x) && x@ == t,
            None => r is None,
        },
{
    let ls = lines_exec(&chars_of(chapter_content));
    let ghost all = lines(chapter_content@);
    assert(ls@.map_values(|s: Vec<char>| s@) =~= all);
    let title = chars_of(scene_title);
    let mut start: Option<usize> = None;
    let mut end: Option<usize> = None;
    let mut i: usize = 0;
    while i < ls.len()
        invariant
            i <= ls@.len(),
            all == ls@.map_values(|s: Vec<char>| s@),
            title@ == scene_title@,
            scene_bounds(all, scene_title@, i as int) == (
                match start { Some(s) => Some(s as int), None => None },
                match end { Some(e) => Some(e as int), None => None },
            ),
        decreases ls@.len() - i,
    {
        assert(all[i as int] == ls@[i as int]@);
        if end.is_none() {
            let t = trim_exec(&ls[i]);
            let heading = starts_with_exec(&t, &chars_of("##")) || starts_with_exec(&t, &chars_of("# "));
            if contains_exec(&t, &title) && heading {
                start = Some(i);
            } else if start.is_some() && heading {
                end = Some(i);
            }
        }
        i = i + 1;
    }
    proof {
        lemma_scene_bounds(all, scene_title@, all.len() as int);
    }
    match start {
        Some(s) => {
            let e = match end {
                Some(x) => x,
                None => ls.len(),
            };
            let mut middle: Vec<Vec<char>> = Vec::new();
            let mut k: usize = s + 1;
            while k < e
                invariant
                    s + 1 <= k <= e,
                    e <= ls@.len(),
                    all == ls@.map_values(|s: Vec<char>| s@),
                    middle@.map_values(|x: Vec<char>| x@) == all.subrange(s + 1, k as int),
                decreases e - k,
            {
                let ghost before = middle@;
                middle.push(slice_chars(&ls[k], 0, ls[k].len()));
                assert(ls@[k as int]@.subrange(0, ls@[k as int]@.len() as int) =~= ls@[k as int]@);
                assert(middle@.map_values(|x: Vec<char>| x@) =~= before.map_values(|x: Vec<char>| x@).push(all[k as int]));
                assert(all.subrange(s + 1, k + 1) =~= all.subrange(s + 1, k as int).push(all[k as int]));
                k = k + 1;
            }
            let text = newline_joined_exec(&middle, middle.len());
            assert(middle@.map_values(|x: Vec<char>| x@).take(middle@.len() as int) =~= all.subrange(s + 1, e as int));
            if text.len() > 0 {
                Some(to_string(&text))
            } else {
                None
            }
        },
        None => None,
    }
}

// ---------------------------------------------------------------------------
// A chapter's existing scene logs
// ---------------------------------------------------------------------------

/// A log read as the outline of one of chapter `ch`'s scenes: no token record or
/// temporary file, and naming "scene_generation_ch" with the chapter's number.
pub open spec fn is_scene_outline_log(name: Seq<char>, ch: nat) -> bool {
    is_counted_log(name) && contains(name, "scene_generation_ch"@ + decimal(ch))
}

/// A log read as a scene's text: no token record or temporary file, and naming
/// "content_generation_ch" with the chapter's number and "_scene", or "scene_".
pub open spec fn is_scene_text_log(name: Seq<char>, ch: nat) -> bool {
    is_counted_log(name) && (contains(name, "content_generation_ch"@ + decimal(ch) + "_scene"@) || contains(
        name,
        "scene_"@,
    ))
}

/// A log of the kind (outline or text) whose scene number is `s`.
pub open spec fn scene_log_is(name: Seq<char>, ch: nat, outline: bool, s: usize) -> bool {
    &&& if outline {
        is_scene_outline_log(name, ch)
    } else {
        is_scene_text_log(name, ch)
    }
    &&& scene_number_in(name) == Some(Some(s))
}

/// `k` is the first of the names that is a log of the kind with scene number `s`.
pub open spec fn first_scene_log(names: Seq<Seq<char>>, ch: nat, outline: bool, s: usize, k: int) -> bool {
    &&& 0 <= k < names.len()
    &&& scene_log_is(names[k], ch, outline, s)
    &&& forall|j: int| 0 <= j < k ==> !scene_log_is(#[trigger] names[j], ch, outline, s)
}

/// What a log name tells of chapter `ch`'s scenes: whether it is an outline log,
/// whether it is a text log, and, for either, its scene number.
pub open spec fn scene_log_info(name: Seq<char>, ch: nat) -> (bool, bool, Option<usize>) {
    let o = is_scene_outline_log(name, ch);
    let t = is_scene_text_log(name, ch);
    (o, t, if o || t {
        match scene_number_in(name) {
            Some(Some(s)) => Some(s),
            _ => None,
        }
    } else {
        None
    })
}

fn scene_log_info_exec(name: &str, ch: usize) -> (r: (bool, bool, Option<usize>))
    ensures
        r == scene_log_info(name@, ch as nat),
{
    let n = chars_of(name);
    let counted = !contains_exec(&n, &chars_of("token_usage")) && !contains_exec(&n, &chars_of("temporary"));
    let mut p = chars_of("scene_generation_ch");
    push_decimal(&mut p, ch);
    let mut q = chars_of("content_generation_ch");
    push_decimal(&mut q, ch);
    push_str(&mut q, "_scene");
    let o = counted && contains_exec(&n, &p);
    let t = counted && (contains_exec(&n, &q) || contains_exec(&n, &chars_of("scene_")));
    if o || t {
        match scene_number_checked(name) {
            Some(Some(s)) => (o, t, Some(s)),
            _ => (o, t, None),
        }
    } else {
        (o, t, None)
    }
}

/// The index of the first log of the kind with scene number `s`, if any.
fn first_scene_log_exec(
    info: &Vec<(bool, bool, Option<usize>)>,
    outline: bool,
    s: usize,
    all: Ghost<Seq<Seq<char>>>,
    ch: Ghost<nat>,
) -> (r: Option<usize>)
    requires
        info@.len() == all@.len(),
        forall|j: int| 0 <= j < info@.len() ==> #[trigger] info@[j] == scene_log_info(all@[j], ch@),
    ensures
        match r {
            Some(m) => first_scene_log(all@, ch@, outline, s, m as int),
            None => forall|j: int| 0 <= j < all@.len() ==> !scene_log_is(#[trigger] all@[j], ch@, outline, s),
        },
{
    let mut j: usize = 0;
    while j < info.len()
        invariant
            j <= info@.len(),
            info@.len() == all@.len(),
            forall|k: int| 0 <= k < info@.len() ==> #[trigger] info@[k] == scene_log_info(all@[k], ch@),
            forall|k: int| 0 <= k < j ==> !scene_log_is(#[trigger] all@[k], ch@, outline, s),
        decreases info@.len() - j,
    {
        assert(info@[j as int] == scene_log_info(all@[j as int], ch@));
        let of_kind = if outline { info[j].0 } else { info[j].1 };
        if of_kind && info[j].2 == Some(s) {
            return Some(j);
        }
        j = j + 1;
    }
    None
}

/// The scenes of chapter `ch` that the log directory's files hold, in order of
/// their numbers: for each scene number that some outline log has, the index of
/// the first such log, and that of the first text log of that number, if any.
#[verifier::rlimit(40)]
#[verifier::spinoff_prover]
pub fn existing_scene_logs(names: &Vec<String>, ch: usize) -> (r: Vec<(usize, usize, Option<usize>)>)
    ensures
        ({
            let all = names@.map_values(|s: String| s@);
            &&& forall|a: int, b: int| 0 <= a < b < r@.len() ==> r@[a].0 < r@[b].0
            &&& forall|i: int| 0 <= i < r@.len() ==> first_scene_log(all, ch as nat, true, #[trigger] r@[i].0, r@[i].1 as int)
            &&& forall|i: int| 0 <= i < r@.len() ==> match #[trigger] r@[i].2 {
                Some(m) => first_scene_log(all, ch as nat, false, r@[i].0, m as int),
                None => forall|j: int| 0 <= j < all.len() ==> !scene_log_is(#[trigger] all[j], ch as nat, false, r@[i].0),
            }
            &&& forall|k: int, s: usize| 0 <= k < all.len() && #[trigger] scene_log_is(all[k], ch as nat, true, s)
                ==> exists|i: int| 0 <= i < r@.len() && (#[trigger] r@[i]).0 == s
        }),
{
    let ghost all = names@.map_values(|s: String| s@);
    let mut info: Vec<(bool, bool, Option<usize>)> = Vec::new();
    let mut k: usize = 0;
    while k < names.len()
        invariant
            k <= names@.len(),
            all == names@.map_values(|s: String| s@),
            info@.len() == k,
            forall|j: int| 0 <= j < k ==> #[trigger] info@[j] == scene_log_info(all[j], ch as nat),
        decreases names@.len() - k,
    {
        assert(all[k as int] == names@[k as int]@);
        info.push(scene_log_info_exec(names[k].as_str(), ch));
        k = k + 1;
    }
    let mut outl: Vec<(usize, usize)> = Vec::new();
    k = 0;
    while k < info.len()
        invariant
            k <= info@.len(),
            info@.len() == all.len(),
            forall|j: int| 0 <= j < info@.len() ==> #[trigger] info@[j] == scene_log_info(all[j], ch as nat),
            forall|a: int, b: int| 0 <= a < b < outl@.len() ==> outl@[a].0 < outl@[b].0,
            forall|i: int| 0 <= i < outl@.len() ==> (#[trigger] outl@[i]).1 < k
                && first_scene_log(all, ch as nat, true, outl@[i].0, outl@[i].1 as int),
            forall|j: int, s: usize| 0 <= j < k && #[trigger] scene_log_is(all[j], ch as nat, true, s)
                ==> exists|i: int| 0 <= i < outl@.len() && (#[trigger] outl@[i]).0 == s,
        decreases info@.len() - k,
    {
        assert(info@[k as int] == scene_log_info(all[k as int], ch as nat));
        if info[k].0 && info[k].2.is_some() {
            let s = info[k].2.unwrap();
            assert(scene_log_is(all[k as int], ch as nat, true, s));
            let mut pos: usize = 0;
            while pos < outl.len() && outl[pos].0 < s
                invariant
                    pos <= outl@.len(),
                    forall|a: int| 0 <= a < pos ==> (#[trigger] outl@[a]).0 < s,
                decreases outl@.len() - pos,
            {
                pos = pos + 1;
            }
            if pos < outl.len() && outl[pos].0 == s {
            } else {
                proof {
                    assert forall|b: int| pos <= b < outl@.len() implies (#[trigger] outl@[b]).0 > s by {
                        if b > pos {
                            assert(outl@[pos as int].0 < outl@[b].0);
                        }
                    }
                    assert forall|j: int| 0 <= j < k implies !(#[trigger] scene_log_is(all[j], ch as nat, true, s)) by {
                        if scene_log_is(all[j], ch as nat, true, s) {
                            let i = choose|i: int| 0 <= i < outl@.len() && (#[trigger] outl@[i]).0 == s;
                            if i < pos {
                                assert(outl@[i].0 < s);
                            } else {
                                assert(outl@[i].0 > s);
                            }
                        }
                    }
                }
                let ghost before = outl@;
                outl.insert(pos, (s, k));
                proof {
                    assert(outl@ == before.insert(pos as int, (s, k)));
                    assert forall|j: int, t: usize| 0 <= j < k + 1 && #[trigger] scene_log_is(all[j], ch as nat, true, t)
                        implies exists|i: int| 0 <= i < outl@.len() && (#[trigger] outl@[i]).0 == t by {
                        if j == k {
                            assert(outl@[pos as int].0 == s);
                            assert(scene_number_in(all[j]) == Some(Some(t)));
                        } else {
                            let i = choose|i: int| 0 <= i < before.len() && (#[trigger] before[i]).0 == t;
                            if i < pos {
                                assert(outl@[i] == before[i]);
                            } else {
                                assert(outl@[i + 1] == before[i]);
                            }
                        }
                    }
                }
            }
        }
        proof {
            if !(info@[k as int].0 && info@[k as int].2.is_some()) {
                assert forall|t: usize| !#[trigger] scene_log_is(all[k as int], ch as nat, true, t) by {}
            }
        }
        k = k + 1;
    }
    let mut out: Vec<(usize, usize, Option<usize>)> = Vec::new();
    let mut i: usize = 0;
    while i < outl.len()
        invariant
            i <= outl@.len(),
            out@.len() == i,
            info@.len() == all.len(),
            forall|j: int| 0 <= j < info@.len() ==> #[trigger] info@[j] == scene_log_info(all[j], ch as nat),
            forall|a: int, b: int| 0 <= a < b < outl@.len() ==> outl@[a].0 < outl@[b].0,
            forall|x: int| 0 <= x < outl@.len() ==> first_scene_log(all, ch as nat, true, (#[trigger] outl@[x]).0, outl@[x].1 as int),
            forall|x: int| 0 <= x < i ==> (#[trigger] out@[x]).0 == outl@[x].0 && out@[x].1 == outl@[x].1 && match out@[x].2 {
                Some(m) => first_scene_log(all, ch as nat, false, out@[x].0, m as int),
                None => forall|j: int| 0 <= j < all.len() ==> !scene_log_is(#[trigger] all[j], ch as nat, false, out@[x].0),
            },
        decreases outl@.len() - i,
    {
        let (s, first) = outl[i];
        let text = first_scene_log_exec(&info, false, s, Ghost(all), Ghost(ch as nat));
        out.push((s, first, text));
        i = i + 1;
    }
    proof {
        assert forall|j: int, s: usize| 0 <= j < all.len() && #[trigger] scene_log_is(all[j], ch as nat, true, s)
            implies exists|x: int| 0 <= x < out@.len() && (#[trigger] out@[x]).0 == s by {
            let x = choose|x: int| 0 <= x < outl@.len() && (#[trigger] outl@[x]).0 == s;
            assert(out@[x].0 == s);
        }
    }
    out
}

// ---------------------------------------------------------------------------
// The genre in the metadata
// ---------------------------------------------------------------------------

/// The genre that the metadata's "genre" section gives: "name: description" (split
/// at the first ':', both trimmed), or the name "Unknown" with the section as its
/// description.
pub open spec fn metadata_genre(content: Seq<char>) -> (Seq<char>, Seq<char>) {
    match crate::text::find_char_from(content, ':', 0) {
        Some(p) => (trim(content.subrange(0, p)), trim(content.subrange(p + 1, content.len() as int))),
        None => ("Unknown"@, content),
    }
}

/// Reads the genre from the metadata's "genre" section.
pub fn genre_from_metadata(content: &str) -> (r: Genre)
    ensures
        (r.name@, r.description@) == metadata_genre(content@),
{
    let v = chars_of(content);
    proof {
        crate::text::lemma_find_char_from_bounds(v@, ':', 0);
    }
    match crate::text::find_char_from_exec(&v, ':', 0) {
        Some(p) => {
            assert(p < v.len());
            Genre {
                name: to_string(&trim_exec(&slice_chars(&v, 0, p))),
                description: to_string(&trim_exec(&suffix_from(&v, p + 1))),
            }
        },
        None => Genre { name: owned("Unknown"), description: owned(content) },
    }
}
} // verus!
