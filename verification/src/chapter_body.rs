//! The cleaning of a chapter's Markdown before it goes into the PDF and EPUB
//! edition: the chapter heading and metadata lines are dropped, scene headings are
//! reduced to the scene's title, and code blocks are copied as they are.
use vstd::prelude::*;
use crate::files::{digits_end, digits_end_exec};
use crate::text::{
    chars_of, contains, contains_exec, find_char_from, find_char_from_exec,
    lemma_find_char_from_bounds, lines, lines_exec, push_all, push_str, same_text, slice_chars,
    starts_with, starts_with_exec, strip_all_prefix, strip_all_prefix_exec, suffix_from,
    to_string, trim, trim_exec,
};
use crate::unicode::{lowercase, to_lowercase, to_uppercase, uppercase};

verus! {

// ---------------------------------------------------------------------------
// Scene headings
// ---------------------------------------------------------------------------

/// The title in a scene heading such as "Scene 3: The Storm" or "Scene3 The Storm":
/// the trimmed text after the first ':', else the trimmed text after the digits that
/// follow "Scene"; `None` for another heading or an empty title.
pub open spec fn scene_title(h: Seq<char>) -> Option<Seq<char>> {
    if !starts_with(h, "Scene"@) {
        None
    } else {
        let after_colon = match find_char_from(h, ':', 0) {
            Some(p) => trim(h.subrange(p + 1, h.len() as int)),
            None => Seq::empty(),
        };
        if after_colon.len() > 0 {
            Some(after_colon)
        } else {
            let e = digits_end(h, 5);
            if e < h.len() && trim(h.subrange(e, h.len() as int)).len() > 0 {
                Some(trim(h.subrange(e, h.len() as int)))
            } else {
                None
            }
        }
    }
}

fn scene_title_exec(h: &Vec<char>) -> (r: Option<Vec<char>>)
    ensures
        match scene_title(h@) {
            Some(t) => r matches Some(x) && x@ == t,
            None => r is None,
        },
{
    proof {
        reveal_strlit("Scene");
    }
    if !starts_with_exec(h, &chars_of("Scene")) {
        return None;
    }
    proof {
        lemma_find_char_from_bounds(h@, ':', 0);
    }
    match find_char_from_exec(h, ':', 0) {
        Some(p) => {
            assert(find_char_from(h@, ':', 0) == Some(p as int));
            assert(p < h.len());
            let t = trim_exec(&suffix_from(h, p + 1));
            if t.len() > 0 {
                return Some(t);
            }
        },
        None => {},
    }
    assert(h@.len() >= 5);
    let e = digits_end_exec(h, 5);
    if e < h.len() {
        let t = trim_exec(&suffix_from(h, e));
        if t.len() > 0 {
            return Some(t);
        }
    }
    None
}

// ---------------------------------------------------------------------------
// Metadata lines
// ---------------------------------------------------------------------------

/// The number of texts that mark a metadata line.
pub open spec fn pattern_count() -> int {
    30
}

/// The texts that mark a metadata line.
pub open spec fn pattern(i: int) -> Seq<char> {
    if i == 0 { "*Prompt:"@ }
    else if i == 1 { "Braindump:"@ }
    else if i == 2 { "## Braindump"@ }
    else if i == 3 { "## Genre"@ }
    else if i == 4 { "## Style"@ }
    else if i == 5 { "Style:"@ }
    else if i == 6 { "Genre:"@ }
    else if i == 7 { "Recommended Writing Style"@ }
    else if i == 8 { "Writing Style"@ }
    else if i == 9 { "Detailed Outline"@ }
    else if i == 10 { "*Note:"@ }
    else if i == 11 { "Character List"@ }
    else if i == 12 { "Theme:"@ }
    else if i == 13 { "Setting:"@ }
    else if i == 14 { "Tone:"@ }
    else if i == 15 { "POV:"@ }
    else if i == 16 { "Point of View:"@ }
    else if i == 17 { "## Synopsis"@ }
    else if i == 18 { "## Characters"@ }
    else if i == 19 { "## Plot"@ }
    else if i == 20 { "## Setting"@ }
    else if i == 21 { "Chapter Statistics"@ }
    else if i == 22 { "Word Count:"@ }
    else if i == 23 { "## Word Count"@ }
    else if i == 24 { "## Feedback"@ }
    else if i == 25 { "Feedback:"@ }
    else if i == 26 { "Notes:"@ }
    else if i == 27 { "## Notes"@ }
    else if i == 28 { "*Topics:"@ }
    else { "# EMPRESS CYPRESS"@ }
}

fn pattern_exec(i: usize) -> (r: &'static str)
    requires
        i < 30,
    ensures
        r@ == pattern(i as int),
{
    if i == 0 { "*Prompt:" }
    else if i == 1 { "Braindump:" }
    else if i == 2 { "## Braindump" }
    else if i == 3 { "## Genre" }
    else if i == 4 { "## Style" }
    else if i == 5 { "Style:" }
    else if i == 6 { "Genre:" }
    else if i == 7 { "Recommended Writing Style" }
    else if i == 8 { "Writing Style" }
    else if i == 9 { "Detailed Outline" }
    else if i == 10 { "*Note:" }
    else if i == 11 { "Character List" }
    else if i == 12 { "Theme:" }
    else if i == 13 { "Setting:" }
    else if i == 14 { "Tone:" }
    else if i == 15 { "POV:" }
    else if i == 16 { "Point of View:" }
    else if i == 17 { "## Synopsis" }
    else if i == 18 { "## Characters" }
    else if i == 19 { "## Plot" }
    else if i == 20 { "## Setting" }
    else if i == 21 { "Chapter Statistics" }
    else if i == 22 { "Word Count:" }
    else if i == 23 { "## Word Count" }
    else if i == 24 { "## Feedback" }
    else if i == 25 { "Feedback:" }
    else if i == 26 { "Notes:" }
    else if i == 27 { "## Notes" }
    else if i == 28 { "*Topics:" }
    else { "# EMPRESS CYPRESS" }
}

/// `line` holds a pattern, or its lower-case form holds the pattern's.
pub open spec fn pattern_hit(line: Seq<char>, p: Seq<char>) -> bool {
    contains(line, p) || contains(lowercase(line), lowercase(p))
}

/// One of the first `k` patterns is hit.
pub open spec fn any_pattern(line: Seq<char>, k: int) -> bool
    decreases k,
{
    if k <= 0 {
        false
    } else {
        any_pattern(line, k - 1) || pattern_hit(line, pattern(k - 1))
    }
}

/// The UTF-8 length of a character.
pub open spec fn char_width(c: char) -> nat {
    let u = c as u32;
    if u < 0x80 {
        1
    } else if u < 0x800 {
        2
    } else if u < 0x10000 {
        3
    } else {
        4
    }
}

/// The UTF-8 length of a text, which `str::len` gives.
pub open spec fn utf8_len(s: Seq<char>) -> nat
    decreases s.len(),
{
    if s.len() == 0 {
        0
    } else {
        utf8_len(s.drop_last()) + char_width(s.last())
    }
}

proof fn lemma_utf8_len_prefix(s: Seq<char>, i: int)
    requires
        0 <= i <= s.len(),
    ensures
        utf8_len(s.take(i)) <= utf8_len(s),
    decreases s.len() - i,
{
    if i < s.len() {
        lemma_utf8_len_prefix(s, i + 1);
        assert(s.take(i + 1).drop_last() =~= s.take(i));
    } else {
        assert(s.take(i) =~= s);
    }
}

proof fn lemma_any_pattern_grows(line: Seq<char>, k: int, m: int)
    requires
        k <= m,
        any_pattern(line, k),
    ensures
        any_pattern(line, m),
    decreases m - k,
{
    if k < m {
        lemma_any_pattern_grows(line, k, m - 1);
    }
}

/// Whether the UTF-8 length of `s` exceeds `n`.
pub fn utf8_len_exceeds(s: &Vec<char>, n: usize) -> (r: bool)
    ensures
        r == (utf8_len(s@) > n),
{
    let mut acc: usize = 0;
    let mut i: usize = 0;
    while i < s.len()
        invariant
            i <= s@.len(),
            acc == utf8_len(s@.take(i as int)),
            acc <= n,
        decreases s@.len() - i,
    {
        let u = s[i] as u32;
        let w: usize = if u < 0x80 {
            1
        } else if u < 0x800 {
            2
        } else if u < 0x10000 {
            3
        } else {
            4
        };
        assert(s@.take(i + 1).drop_last() =~= s@.take(i as int));
        assert(w == char_width(s@[i as int]));
        if w > n - acc {
            proof {
                lemma_utf8_len_prefix(s@, i + 1);
            }
            return true;
        }
        acc = acc + w;
        i = i + 1;
    }
    assert(s@.take(i as int) =~= s@);
    false
}

/// A line of metadata that is left out of the chapter's text: it holds one of the
/// marking texts (in any case), it is "=====", or it is an upper-case line longer
/// than ten bytes.
pub open spec fn is_metadata_line(line: Seq<char>) -> bool {
    any_pattern(line, pattern_count()) || line == "====="@ || (trim(line) == uppercase(trim(line))
        && utf8_len(trim(line)) > 10)
}

fn is_metadata_line_exec(line: &Vec<char>) -> (r: bool)
    ensures
        r == is_metadata_line(line@),
{
    let text = to_string(line);
    let lower = chars_of(to_lowercase(text.as_str()).as_str());
    let mut i: usize = 0;
    while i < 30
        invariant
            i <= 30,
            lower@ == lowercase(line@),
            !any_pattern(line@, i as int),
        decreases 30 - i,
    {
        let p = pattern_exec(i);
        if contains_exec(line, &chars_of(p)) || contains_exec(&lower, &chars_of(to_lowercase(p).as_str())) {
            proof {
                lemma_any_pattern_grows(line@, i + 1, pattern_count());
            }
            return true;
        }
        i = i + 1;
    }
    if same_text(line, &chars_of("=====")) {
        return true;
    }
    let t = trim_exec(line);
    let upper = chars_of(to_uppercase(to_string(&t).as_str()).as_str());
    same_text(&t, &upper) && utf8_len_exceeds(&t, 10)
}

// ---------------------------------------------------------------------------
// Lines
// ---------------------------------------------------------------------------

/// What a line of the chapter contributes: a scene heading ("## ...") becomes
/// "## {title}"; a chapter heading ("# " with "Chapter" or "CHAPTER") nothing; any
/// other line itself; each with a line break.
pub open spec fn line_output(line: Seq<char>) -> Seq<char> {
    let t = trim(line);
    if starts_with(t, "## "@) {
        match scene_title(strip_all_prefix(t, "## "@)) {
            Some(title) => "## "@ + title + "\n"@,
            None => line + "\n"@,
        }
    } else if starts_with(t, "# "@) && (contains(t, "Chapter"@) || contains(t, "CHAPTER"@)) {
        Seq::empty()
    } else {
        line + "\n"@
    }
}

fn push_line_output(out: &mut Vec<char>, line: &Vec<char>)
    ensures
        final(out)@ == old(out)@ + line_output(line@),
{
    let t = trim_exec(line);
    if starts_with_exec(&t, &chars_of("## ")) {
        let h = strip_all_prefix_exec(&t, &chars_of("## "));
        match scene_title_exec(&h) {
            Some(title) => {
                push_str(out, "## ");
                push_all(out, &title);
                push_str(out, "\n");
                assert(old(out)@ + "## "@ + title@ + "\n"@ =~= old(out)@ + ("## "@ + title@ + "\n"@));
            },
            None => {
                push_all(out, line);
                push_str(out, "\n");
                assert(old(out)@ + line@ + "\n"@ =~= old(out)@ + (line@ + "\n"@));
            },
        }
    } else if starts_with_exec(&t, &chars_of("# ")) && (contains_exec(&t, &chars_of("Chapter"))
        || contains_exec(&t, &chars_of("CHAPTER"))) {
        assert(old(out)@ + Seq::<char>::empty() =~= old(out)@);
    } else {
        push_all(out, line);
        push_str(out, "\n");
        assert(old(out)@ + line@ + "\n"@ =~= old(out)@ + (line@ + "\n"@));
    }
}

/// A line that holds the chapter's description: it starts with '*' once trimmed and
/// is no prompt or note.
pub open spec fn is_description_line(line: Seq<char>) -> bool {
    starts_with(trim(line), "*"@) && !contains(line, "Prompt:"@) && !contains(line, "Note:"@)
}

/// The chapter's description: the first description line among the first `k`
/// lines, trimmed, or nothing.
pub open spec fn description_in(ls: Seq<Seq<char>>, k: int) -> Seq<char>
    decreases k,
{
    if k <= 0 {
        Seq::empty()
    } else if is_description_line(ls[0]) {
        trim(ls[0])
    } else {
        description_in(ls.drop_first(), k - 1)
    }
}

/// The description and the blank line after it, where there is a description.
pub open spec fn description_prefix(d: Seq<char>) -> Seq<char> {
    if d.len() > 0 {
        d + "\n\n"@
    } else {
        Seq::empty()
    }
}

// ---------------------------------------------------------------------------
// The two passes
// ---------------------------------------------------------------------------

/// The state of a pass over the lines: the text so far, whether the first "# "
/// heading has been dropped, whether a code block is open, and whether content has
/// begun.
pub struct PassState {
    pub out: Seq<char>,
    pub skipped: bool,
    pub in_code: bool,
    pub started: bool,
}

/// A line that opens or closes a code block.
pub open spec fn is_fence(t: Seq<char>) -> bool {
    starts_with(t, "```"@) || starts_with(t, "~~~"@)
}

/// One line of the strict pass: fences and code are copied, the first "# " heading,
/// metadata lines and blank lines before the content are dropped, and the rest
/// goes through `line_output`.
pub open spec fn strict_step(st: PassState, line: Seq<char>) -> PassState {
    let t = trim(line);
    if is_fence(t) {
        PassState { out: st.out + line + "\n"@, in_code: !st.in_code, ..st }
    } else if st.in_code {
        PassState { out: st.out + line + "\n"@, ..st }
    } else if !st.skipped && starts_with(t, "# "@) {
        PassState { skipped: true, ..st }
    } else if is_metadata_line(t) {
        st
    } else if !st.started && t.len() == 0 {
        st
    } else {
        PassState { out: st.out + line_output(line), started: true, ..st }
    }
}

/// One line of the lenient pass: the first "# " heading and metadata lines are
/// dropped, the rest goes through `line_output`.
pub open spec fn lenient_step(st: PassState, line: Seq<char>) -> PassState {
    let t = trim(line);
    if !st.skipped && starts_with(t, "# "@) {
        PassState { skipped: true, ..st }
    } else if is_metadata_line(t) && t == trim(t) {
        st
    } else {
        PassState { out: st.out + line_output(line), ..st }
    }
}

/// The strict pass over the first `k` lines.
pub open spec fn strict_pass(ls: Seq<Seq<char>>, k: int, start: PassState) -> PassState
    decreases k,
{
    if k <= 0 || k > ls.len() {
        start
    } else {
        strict_step(strict_pass(ls, k - 1, start), ls[k - 1])
    }
}

/// The lenient pass over the first `k` lines.
pub open spec fn lenient_pass(ls: Seq<Seq<char>>, k: int, start: PassState) -> PassState
    decreases k,
{
    if k <= 0 || k > ls.len() {
        start
    } else {
        lenient_step(lenient_pass(ls, k - 1, start), ls[k - 1])
    }
}

/// The cleaned text of a chapter: the strict pass, or the lenient pass where the
/// strict one yields nothing beyond the description; trimmed either way.
pub open spec fn chapter_body(content: Seq<char>) -> Seq<char> {
    let ls = lines(content);
    let d = description_in(ls, ls.len() as int);
    let start = PassState { out: description_prefix(d), skipped: false, in_code: false, started: false };
    let strict = trim(strict_pass(ls, ls.len() as int, start).out);
    if strict.len() == 0 || strict == trim(d) {
        trim(lenient_pass(ls, ls.len() as int, start).out)
    } else {
        strict
    }
}

fn description_exec(ls: &Vec<Vec<char>>) -> (r: Vec<char>)
    ensures
        r@ == description_in(ls@.map_values(|l: Vec<char>| l@), ls@.len() as int),
{
    let ghost all = ls@.map_values(|l: Vec<char>| l@);
    assert(all.subrange(0, all.len() as int) =~= all);
    let mut i: usize = 0;
    while i < ls.len()
        invariant
            i <= ls@.len(),
            all == ls@.map_values(|l: Vec<char>| l@),
            description_in(all, all.len() as int) == description_in(all.subrange(i as int, all.len() as int), all.len() - i),
        decreases ls@.len() - i,
    {
        let ghost rest = all.subrange(i as int, all.len() as int);
        assert(rest[0] == ls@[i as int]@);
        assert(rest.drop_first() =~= all.subrange(i + 1, all.len() as int));
        let line = &ls[i];
        let t = trim_exec(line);
        if starts_with_exec(&t, &chars_of("*")) && !contains_exec(line, &chars_of("Prompt:"))
            && !contains_exec(line, &chars_of("Note:")) {
            return t;
        }
        i = i + 1;
    }
    Vec::new()
}

/// Processes a chapter's Markdown for the PDF and EPUB edition: the description
/// line (if any) first, then the chapter's text without its first heading,
/// metadata lines, duplicate chapter headings and leading blank lines, scene
/// headings cut to the scene's title; where that leaves nothing beyond the
/// description, a lenient pass that keeps blank lines and code fences as text.
pub fn process_chapter_content(content: &str) -> (r: String)
    ensures
        r@ == chapter_body(content@),
{
    let ls = lines_exec(&chars_of(content));
    let ghost all = ls@.map_values(|l: Vec<char>| l@);
    assert(all =~= lines(content@));
    let d = description_exec(&ls);
    let mut prefix: Vec<char> = Vec::new();
    if d.len() > 0 {
        push_all(&mut prefix, &d);
        push_str(&mut prefix, "\n\n");
    }
    let ghost start = PassState { out: prefix@, skipped: false, in_code: false, started: false };
    assert(prefix@ =~= description_prefix(d@));
    assert(prefix@.subrange(0, prefix@.len() as int) =~= prefix@);
    // The strict pass.
    let mut out = slice_chars(&prefix, 0, prefix.len());
    let mut skipped = false;
    let mut in_code = false;
    let mut started = false;
    let mut i: usize = 0;
    while i < ls.len()
        invariant
            i <= ls@.len(),
            all == ls@.map_values(|l: Vec<char>| l@),
            strict_pass(all, i as int, start) == (PassState { out: out@, skipped, in_code, started }),
        decreases ls@.len() - i,
    {
        let line = &ls[i];
        assert(all[i as int] == line@);
        let t = trim_exec(line);
        if starts_with_exec(&t, &chars_of("```")) || starts_with_exec(&t, &chars_of("~~~")) {
            in_code = !in_code;
            push_all(&mut out, line);
            push_str(&mut out, "\n");
        } else if in_code {
            push_all(&mut out, line);
            push_str(&mut out, "\n");
        } else if !skipped && starts_with_exec(&t, &chars_of("# ")) {
            skipped = true;
        } else if is_metadata_line_exec(&t) {
        } else if !started && t.len() == 0 {
        } else {
            started = true;
            push_line_output(&mut out, line);
        }
        i = i + 1;
    }
    let strict = trim_exec(&out);
    let dt = trim_exec(&d);
    if strict.len() > 0 && !same_text(&strict, &dt) {
        return to_string(&strict);
    }
    // The lenient pass.
    let mut out = slice_chars(&prefix, 0, prefix.len());
    let mut skipped = false;
    let mut i: usize = 0;
    while i < ls.len()
        invariant
            i <= ls@.len(),
            all == ls@.map_values(|l: Vec<char>| l@),
            lenient_pass(all, i as int, start) == (PassState { out: out@, skipped, in_code: false, started: false }),
        decreases ls@.len() - i,
    {
        let line = &ls[i];
        assert(all[i as int] == line@);
        let t = trim_exec(line);
        if !skipped && starts_with_exec(&t, &chars_of("# ")) {
            skipped = true;
        } else if is_metadata_line_exec(&t) && same_text(&t, &trim_exec(&t)) {
        } else {
            push_line_output(&mut out, line);
        }
        i = i + 1;
    }
    to_string(&trim_exec(&out))
}

} // verus!
