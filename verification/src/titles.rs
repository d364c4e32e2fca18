//! Chapter titles as they appear in the finished book: title case, the book's own
//! title removed from a chapter's, and bare "Chapter N" headings replaced by the
//! title that the outline gives that chapter.
use vstd::prelude::*;
use crate::chapter_body::{utf8_len, utf8_len_exceeds};
use crate::text::{
    after_first, after_first_exec, before_char, before_char_exec, chars_of, contains,
    contains_exec, decimal, ends_with, ends_with_exec, has_char, has_char_exec, is_whitespace,
    is_ws, lines, lines_exec, parse_usize, parse_usize_exec, push_all, push_decimal, push_str,
    replace, replace_exec, same_text, starts_with, starts_with_exec, strip_all_prefix,
    strip_all_prefix_exec, strip_all_suffix, strip_all_suffix_exec, to_string, trim, trim_exec,
};
use crate::unicode::{
    all_ascii, ascii_lower_letter, in_ascii, char_alphabetic, char_lower_first, char_upper_first,
    is_alphabetic, lower_first, lowercase,
    to_lowercase, to_uppercase, upper_first, uppercase,
};

verus! {

// ---------------------------------------------------------------------------
// Title case
// ---------------------------------------------------------------------------

/// One character of title casing: a letter is upper-cased where a word starts and
/// lower-cased elsewhere; white space, '-' and ':' start a new word.
pub open spec fn title_case_step(st: (Seq<char>, bool), c: char) -> (Seq<char>, bool) {
    if char_alphabetic(c) {
        if st.1 {
            (st.0.push(char_upper_first(c)), false)
        } else {
            (st.0.push(char_lower_first(c)), false)
        }
    } else {
        (st.0.push(c), if is_ws(c) || c == '-' || c == ':' { true } else { st.1 })
    }
}

/// Title casing of the first `k` characters, with whether the next letter starts a word.
pub open spec fn title_case_prefix(s: Seq<char>, k: int) -> (Seq<char>, bool)
    decreases k,
{
    if k <= 0 || k > s.len() {
        (Seq::empty(), true)
    } else {
        title_case_step(title_case_prefix(s, k - 1), s[k - 1])
    }
}

/// The title-cased text.
pub open spec fn title_cased(s: Seq<char>) -> Seq<char> {
    title_case_prefix(s, s.len() as int).0
}

/// Converts a string to title case.
pub fn title_case(s: &str) -> (r: String)
    ensures
        r@ == title_cased(s@),
{
    let v = chars_of(s);
    let mut out: Vec<char> = Vec::new();
    let mut cap = true;
    let mut i: usize = 0;
    while i < v.len()
        invariant
            i <= v@.len(),
            v@ == s@,
            title_case_prefix(v@, i as int) == (out@, cap),
        decreases v@.len() - i,
    {
        let c = v[i];
        if is_alphabetic(c) {
            if cap {
                out.push(upper_first(c));
                cap = false;
            } else {
                out.push(lower_first(c));
            }
        } else {
            out.push(c);
            if is_whitespace(c) || c == '-' || c == ':' {
                cap = true;
            }
        }
        i = i + 1;
    }
    to_string(&out)
}

/// Title casing writes one character for each character read.
proof fn lemma_title_case_len(s: Seq<char>, k: int)
    requires
        0 <= k <= s.len(),
    ensures
        title_case_prefix(s, k).0.len() == k,
    decreases k,
{
    if k > 0 {
        lemma_title_case_len(s, k - 1);
    }
}

/// The title casing of a longer prefix begins with that of a shorter one.
proof fn lemma_title_case_take(s: Seq<char>, k: int, m: int)
    requires
        0 <= k <= m <= s.len(),
    ensures
        title_case_prefix(s, m).0.take(k) == title_case_prefix(s, k).0,
    decreases m,
{
    lemma_title_case_len(s, k);
    if m > k {
        lemma_title_case_take(s, k, m - 1);
        lemma_title_case_len(s, m - 1);
        assert(title_case_prefix(s, m).0.take(k) =~= title_case_prefix(s, m - 1).0.take(k));
    } else {
        assert(title_case_prefix(s, m).0.take(k) =~= title_case_prefix(s, k).0);
    }
}

/// Title casing keeps the length of the text and every character that is not a
/// letter.
pub proof fn law_title_case_shape(s: Seq<char>)
    ensures
        title_cased(s).len() == s.len(),
        forall|i: int| 0 <= i < s.len() && !char_alphabetic(s[i]) ==> #[trigger] title_cased(s)[i] == s[i],
{
    lemma_title_case_len(s, s.len() as int);
    assert forall|i: int| 0 <= i < s.len() && !char_alphabetic(s[i]) implies #[trigger] title_cased(s)[i] == s[i] by {
        lemma_title_case_take(s, i + 1, s.len() as int);
        lemma_title_case_len(s, i);
        assert(title_cased(s)[i] == title_cased(s).take(i + 1)[i]);
    }
}

/// The case mappings of a letter behave as they do on the ASCII letters: both
/// give letters, and mapping again to either case gives what mapping the letter
/// itself to that case gives.
pub open spec fn case_stable(c: char) -> bool {
    &&& char_alphabetic(char_upper_first(c))
    &&& char_alphabetic(char_lower_first(c))
    &&& char_upper_first(char_upper_first(c)) == char_upper_first(c)
    &&& char_upper_first(char_lower_first(c)) == char_upper_first(c)
    &&& char_lower_first(char_upper_first(c)) == char_lower_first(c)
    &&& char_lower_first(char_lower_first(c)) == char_lower_first(c)
}

/// Title casing the title-cased text reads, up to `k`, as title casing the text did.
proof fn lemma_title_case_twice(s: Seq<char>, k: int)
    requires
        0 <= k <= s.len(),
        forall|i: int| 0 <= i < s.len() && char_alphabetic(#[trigger] s[i]) ==> case_stable(s[i]),
    ensures
        title_case_prefix(title_cased(s), k) == title_case_prefix(s, k),
    decreases k,
{
    let t = title_cased(s);
    let n = s.len() as int;
    lemma_title_case_len(s, n);
    if k > 0 {
        lemma_title_case_twice(s, k - 1);
        lemma_title_case_take(s, k, n);
        lemma_title_case_len(s, k - 1);
        let st = title_case_prefix(s, k - 1);
        let c = s[k - 1];
        let d = t[k - 1];
        assert(t.take(k) == title_case_prefix(s, k).0);
        assert(d == t.take(k)[k - 1]);
        assert(d == title_case_step(st, c).0[k - 1]);
        if char_alphabetic(c) {
            assert(case_stable(c));
        }
        assert(title_case_step(st, d) == title_case_step(st, c));
    }
}

/// Title casing a title-cased text changes nothing, where the case mappings of the
/// text's letters behave as on ASCII letters (as they do for every ASCII text).
pub proof fn law_title_case_idempotent(s: Seq<char>)
    requires
        forall|i: int| 0 <= i < s.len() && char_alphabetic(#[trigger] s[i]) ==> case_stable(s[i]),
    ensures
        title_cased(title_cased(s)) == title_cased(s),
{
    lemma_title_case_len(s, s.len() as int);
    lemma_title_case_twice(s, s.len() as int);
}

/// An ASCII letter's case mappings behave as `case_stable` asks.
proof fn lemma_ascii_case_stable(c: char)
    requires
        in_ascii(c),
        char_alphabetic(c),
    ensures
        case_stable(c),
{
    let u = c as u32;
    if ascii_lower_letter(c) {
        let up = ((u as int) - 32) as char;
        assert(up as u32 == u - 32);
        assert(char_upper_first(c) == up);
        assert(char_lower_first(c) == c);
        assert(char_lower_first(up) == (((up as u32) + 32) as char));
        assert((((up as u32) + 32) as char) as u32 == u);
    } else {
        let low = ((u as int) + 32) as char;
        assert(low as u32 == u + 32);
        assert(char_upper_first(c) == c);
        assert(char_lower_first(c) == low);
        assert(char_upper_first(low) == (((low as u32) - 32) as char));
        assert((((low as u32) - 32) as char) as u32 == u);
    }
}

/// Title casing an ASCII text twice gives what title casing it once gives.
pub proof fn law_title_case_idempotent_on_ascii(s: Seq<char>)
    requires
        all_ascii(s),
    ensures
        title_cased(title_cased(s)) == title_cased(s),
{
    assert forall|i: int| 0 <= i < s.len() && char_alphabetic(#[trigger] s[i]) implies case_stable(s[i]) by {
        lemma_ascii_case_stable(s[i]);
    }
    law_title_case_idempotent(s);
}

// ---------------------------------------------------------------------------
// The book's title inside a chapter's
// ---------------------------------------------------------------------------

/// The book's name occurs in the lower-cased title as a word or phrase of its own.
pub open spec fn distinct_match(tl: Seq<char>, b: Seq<char>) -> bool {
    starts_with(tl, b) || contains(tl, " "@ + b + " "@) || ends_with(tl, b) || contains(
        tl,
        b + " -"@,
    ) || contains(tl, "- "@ + b)
}

/// The title without the book's name `b` (lower case) and its upper-case form,
/// alone or with a dash, trimmed.
pub open spec fn without_book(title: Seq<char>, b: Seq<char>) -> Seq<char> {
    let u = uppercase(b);
    let t1 = replace(title, b, Seq::empty());
    let t2 = replace(t1, u, Seq::empty());
    let t3 = replace(t2, b + " - "@, Seq::empty());
    let t4 = replace(t3, u + " - "@, Seq::empty());
    let t5 = replace(t4, "- "@ + b + " "@, Seq::empty());
    let t6 = replace(t5, "- "@ + u + " "@, Seq::empty());
    trim(t6)
}

/// The title with the first book name of `dirs` (from index `i` on) that it holds
/// removed: a name of three bytes or more, lower-cased, that occurs as a distinct
/// phrase and whose removal leaves something; otherwise the title unchanged.
pub open spec fn strip_book_titles(title: Seq<char>, dirs: Seq<Seq<char>>, i: int) -> Seq<char>
    decreases dirs.len() - i,
{
    if i < 0 || i >= dirs.len() {
        title
    } else {
        let b = lowercase(dirs[i]);
        let tl = lowercase(title);
        if utf8_len(b) >= 3 && contains(tl, b) && distinct_match(tl, b) && without_book(title, b).len()
            > 0 {
            without_book(title, b)
        } else {
            strip_book_titles(title, dirs, i + 1)
        }
    }
}

fn concat3(a: &str, b: &Vec<char>, c: &str) -> (r: Vec<char>)
    ensures
        r@ == a@ + b@ + c@,
{
    let mut r = chars_of(a);
    push_all(&mut r, b);
    push_str(&mut r, c);
    r
}

/// `replace(p, "")`, where an empty `p` leaves the text as it is.
fn remove_all(s: &Vec<char>, p: &Vec<char>) -> (r: Vec<char>)
    ensures
        r@ == replace(s@, p@, Seq::empty()),
{
    if p.len() == 0 {
        proof {
            crate::text::lemma_replace_empty_pattern(s@);
        }
        let r = crate::text::slice_chars(s, 0, s.len());
        assert(r@ =~= s@);
        r
    } else {
        replace_exec(s, p, &Vec::new())
    }
}

fn without_book_exec(title: &Vec<char>, b: &Vec<char>) -> (r: Vec<char>)
    ensures
        r@ == without_book(title@, b@),
{
    let u = chars_of(to_uppercase(to_string(b).as_str()).as_str());
    let t1 = remove_all(title, b);
    let t2 = remove_all(&t1, &u);
    let t3 = remove_all(&t2, &concat3("", b, " - "));
    let t4 = remove_all(&t3, &concat3("", &u, " - "));
    let t5 = remove_all(&t4, &concat3("- ", b, " "));
    let t6 = remove_all(&t5, &concat3("- ", &u, " "));
    proof {
        reveal_strlit("");
        assert(""@ + b@ + " - "@ =~= b@ + " - "@);
        assert(""@ + u@ + " - "@ =~= u@ + " - "@);
    }
    trim_exec(&t6)
}

/// Removes the book's title from a chapter title. `book_dirs` are the names of the
/// directories that hold books, in the order in which they are looked at.
pub fn remove_book_title_from_chapter(title: &str, book_dirs: &Vec<String>) -> (r: String)
    ensures
        r@ == strip_book_titles(title@, book_dirs@.map_values(|d: String| d@), 0),
{
    let ghost dirs = book_dirs@.map_values(|d: String| d@);
    let t = chars_of(title);
    let tl = chars_of(to_lowercase(title).as_str());
    let mut i: usize = 0;
    while i < book_dirs.len()
        invariant
            i <= book_dirs@.len(),
            dirs == book_dirs@.map_values(|d: String| d@),
            t@ == title@,
            tl@ == lowercase(title@),
            strip_book_titles(title@, dirs, 0) == strip_book_titles(title@, dirs, i as int),
        decreases book_dirs@.len() - i,
    {
        assert(dirs[i as int] == book_dirs@[i as int]@);
        let b = chars_of(to_lowercase(book_dirs[i].as_str()).as_str());
        if !utf8_len_exceeds(&b, 2) {
            i = i + 1;
            continue;
        }
        if contains_exec(&tl, &b) {
            let distinct = starts_with_exec(&tl, &b) || contains_exec(&tl, &concat3(" ", &b, " "))
                || ends_with_exec(&tl, &b) || contains_exec(&tl, &concat3("", &b, " -"))
                || contains_exec(&tl, &concat3("- ", &b, ""));
            proof {
                reveal_strlit("");
                assert(""@ + b@ + " -"@ =~= b@ + " -"@);
                assert("- "@ + b@ + ""@ =~= "- "@ + b@);
            }
            if distinct {
                let result = without_book_exec(&t, &b);
                if result.len() > 0 {
                    return to_string(&result);
                }
            }
        }
        i = i + 1;
    }
    owned_text(title)
}

fn owned_text(s: &str) -> (r: String)
    ensures
        r@ == s@,
{
    crate::text::owned(s)
}

// ---------------------------------------------------------------------------
// Titles in outlines
// ---------------------------------------------------------------------------

/// The start of an outline line that names chapter `n`.
pub open spec fn chapter_key(n: nat) -> Seq<char> {
    "Chapter "@ + decimal(n) + ": "@
}

/// The title on an outline line: the second ':'-separated piece, trimmed.
pub open spec fn outline_line_title(line: Seq<char>) -> Seq<char> {
    trim(before_char(after_first(line, ':'), ':'))
}

/// The title of chapter `n` on the lines from `i` on: the first line that starts
/// with "Chapter {n}: " and has a title.
pub open spec fn title_in_lines(ls: Seq<Seq<char>>, n: nat, i: int) -> Option<Seq<char>>
    decreases ls.len() - i,
{
    if i < 0 || i >= ls.len() {
        None
    } else if starts_with(ls[i], chapter_key(n)) && outline_line_title(ls[i]).len() > 0 {
        Some(outline_line_title(ls[i]))
    } else {
        title_in_lines(ls, n, i + 1)
    }
}

/// The title of chapter `n` in the outline texts from index `j` on.
pub open spec fn title_in_outlines(outlines: Seq<Seq<char>>, n: nat, j: int) -> Option<Seq<char>>
    decreases outlines.len() - j,
{
    if j < 0 || j >= outlines.len() {
        None
    } else {
        match title_in_lines(lines(outlines[j]), n, 0) {
            Some(t) => Some(t),
            None => title_in_outlines(outlines, n, j + 1),
        }
    }
}

fn title_in_text(text: &str, key: &Vec<char>, n: Ghost<nat>) -> (r: Option<Vec<char>>)
    requires
        key@ == chapter_key(n@),
    ensures
        match title_in_lines(lines(text@), n@, 0) {
            Some(t) => r matches Some(x) && x@ == t,
            None => r is None,
        },
{
    let ls = lines_exec(&chars_of(text));
    let ghost all = lines(text@);
    let mut i: usize = 0;
    while i < ls.len()
        invariant
            i <= ls@.len(),
            ls@.len() == all.len(),
            all == lines(text@),
            forall|k: int| 0 <= k < ls@.len() ==> #[trigger] ls@[k]@ == all[k],
            key@ == chapter_key(n@),
            title_in_lines(all, n@, 0) == title_in_lines(all, n@, i as int),
        decreases ls@.len() - i,
    {
        assert(ls@[i as int]@ == all[i as int]);
        if starts_with_exec(&ls[i], key) {
            let t = trim_exec(&before_char_exec(&after_first_exec(&ls[i], ':'), ':'));
            if t.len() > 0 {
                return Some(t);
            }
        }
        i = i + 1;
    }
    None
}

/// Finds the title of chapter `chapter_num` in outline texts, taken in order.
pub fn find_chapter_title_in_outlines(chapter_num: usize, outlines: &Vec<String>) -> (r: Option<String>)
    ensures
        match title_in_outlines(outlines@.map_values(|o: String| o@), chapter_num as nat, 0) {
            Some(t) => r matches Some(x) && x@ == t,
            None => r is None,
        },
{
    let ghost all = outlines@.map_values(|o: String| o@);
    let mut key = chars_of("Chapter ");
    push_decimal(&mut key, chapter_num);
    push_str(&mut key, ": ");
    let mut j: usize = 0;
    while j < outlines.len()
        invariant
            j <= outlines@.len(),
            all == outlines@.map_values(|o: String| o@),
            key@ == chapter_key(chapter_num as nat),
            title_in_outlines(all, chapter_num as nat, 0) == title_in_outlines(all, chapter_num as nat, j as int),
        decreases outlines@.len() - j,
    {
        assert(all[j as int] == outlines@[j as int]@);
        match title_in_text(outlines[j].as_str(), &key, Ghost(chapter_num as nat)) {
            Some(t) => {
                return Some(to_string(&t));
            },
            None => {},
        }
        j = j + 1;
    }
    None
}

// ---------------------------------------------------------------------------
// Cleaning a chapter title
// ---------------------------------------------------------------------------

/// The outline's title for chapter `n`, else "Chapter {n}".
pub open spec fn numbered_title(outlines: Seq<Seq<char>>, n: nat) -> Seq<char> {
    match title_in_outlines(outlines, n, 0) {
        Some(t) => t,
        None => "Chapter "@ + decimal(n),
    }
}

/// A chapter title as the finished book shows it. The book's name is removed, then
/// a "- Detailed Outline" suffix; a "Chapter N: title" keeps the title, or, where
/// the title is empty or repeats the number, becomes the outline's title for the
/// chapter (else "Chapter N"); an upper-case "CHAPTER" title is title-cased; a bare
/// "Chapter N" becomes the outline's title where there is one.
pub open spec fn cleaned_title(title: Seq<char>, dirs: Seq<Seq<char>>, outlines: Seq<Seq<char>>) -> Seq<char> {
    let t0 = strip_book_titles(title, dirs, 0);
    let t = if ends_with(t0, "- Detailed Outline"@) {
        trim(strip_all_suffix(t0, "- Detailed Outline"@))
    } else {
        t0
    };
    if contains(t, "Chapter"@) && has_char(t, ':') {
        let num_part = trim(before_char(t, ':'));
        let title_part = trim(before_char(after_first(t, ':'), ':'));
        if starts_with(title_part, "Chapter "@) || title_part == num_part || trim(title_part).len() == 0 {
            let num_text = trim(strip_all_prefix(num_part, "Chapter "@));
            match parse_usize(num_text) {
                Some(n) => numbered_title(outlines, n as nat),
                None => num_text,
            }
        } else {
            title_part
        }
    } else if uppercase(t) == t && contains(t, "CHAPTER"@) {
        title_cased(t)
    } else if starts_with(t, "Chapter "@) {
        match parse_usize(trim(strip_all_prefix(t, "Chapter "@))) {
            Some(n) => match title_in_outlines(outlines, n as nat, 0) {
                Some(o) => o,
                None => t,
            },
            None => t,
        }
    } else {
        t
    }
}

/// Cleans a chapter title for the finished book. `book_dirs` are the names of the
/// directories that hold books and `outlines` the texts of the outline files, each
/// in the order in which they are looked at.
pub fn clean_chapter_title(title: &str, book_dirs: &Vec<String>, outlines: &Vec<String>) -> (r: String)
    ensures
        r@ == cleaned_title(title@, book_dirs@.map_values(|d: String| d@), outlines@.map_values(|o: String| o@)),
{
    let t0 = chars_of(remove_book_title_from_chapter(title, book_dirs).as_str());
    let suffix = chars_of("- Detailed Outline");
    let t = if ends_with_exec(&t0, &suffix) {
        trim_exec(&strip_all_suffix_exec(&t0, &suffix))
    } else {
        t0
    };
    if contains_exec(&t, &chars_of("Chapter")) && has_char_exec(&t, ':') {
        let num_part = trim_exec(&before_char_exec(&t, ':'));
        let title_part = trim_exec(&before_char_exec(&after_first_exec(&t, ':'), ':'));
        if starts_with_exec(&title_part, &chars_of("Chapter ")) || same_text(&title_part, &num_part)
            || trim_exec(&title_part).len() == 0 {
            let num_text = trim_exec(&strip_all_prefix_exec(&num_part, &chars_of("Chapter ")));
            match parse_usize_exec(&num_text) {
                Some(n) => {
                    match find_chapter_title_in_outlines(n, outlines) {
                        Some(o) => return o,
                        None => {
                            let mut r = chars_of("Chapter ");
                            push_decimal(&mut r, n);
                            return to_string(&r);
                        },
                    }
                },
                None => return to_string(&num_text),
            }
        }
        return to_string(&title_part);
    }
    let text = to_string(&t);
    let upper = chars_of(to_uppercase(text.as_str()).as_str());
    if same_text(&upper, &t) && contains_exec(&t, &chars_of("CHAPTER")) {
        return title_case(text.as_str());
    }
    if starts_with_exec(&t, &chars_of("Chapter ")) {
        let num_text = trim_exec(&strip_all_prefix_exec(&t, &chars_of("Chapter ")));
        match parse_usize_exec(&num_text) {
            Some(n) => {
                match find_chapter_title_in_outlines(n, outlines) {
                    Some(o) => return o,
                    None => {},
                }
            },
            None => {},
        }
    }
    text
}

} // verus!
