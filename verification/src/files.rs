//! Names of the files and directories that a book's generation writes: safe names
//! built from titles, and the chapter and scene numbers read back from file names.
use vstd::prelude::*;
use crate::text::{
    chars_of, contains, contains_exec, ends_with, ends_with_exec, find_from, find_from_exec,
    is_digit, lemma_find_from_bounds, matches_at, parse_usize, parse_usize_exec, replace,
    replace_exec, same_text, slice_chars, split, split_exec, starts_with, starts_with_exec,
    strip_all_prefix, strip_all_prefix_exec, to_string, trim, trim_exec,
};
use crate::unicode::{
    all_ascii, ascii_lower, ascii_upper_letter, char_alphanumeric, is_alphanumeric, lowercase,
    to_lowercase,
};

verus! {

// ---------------------------------------------------------------------------
// Directory and file names
// ---------------------------------------------------------------------------

/// Every character that is neither alphanumeric nor '-' replaced by '-'.
pub open spec fn dashes_for_symbols(s: Seq<char>) -> Seq<char> {
    Seq::new(s.len(), |i: int| if !char_alphanumeric(s[i]) && s[i] != '-' { '-' } else { s[i] })
}

/// The first index at or after `i` that does not hold '-' (or the length).
pub open spec fn skip_dashes(s: Seq<char>, i: int) -> int
    decreases s.len() - i,
{
    if i < 0 || i >= s.len() {
        if i < 0 { 0 } else { s.len() as int }
    } else if s[i] == '-' {
        skip_dashes(s, i + 1)
    } else {
        i
    }
}

/// The end of `s.subrange(0, j)` once trailing dashes are dropped.
pub open spec fn trailing_dashes_start(s: Seq<char>, j: int) -> int
    decreases j,
{
    if j <= 0 || j > s.len() {
        0
    } else if s[j - 1] == '-' {
        trailing_dashes_start(s, j - 1)
    } else {
        j
    }
}

/// `trim_matches('-')`: leading and trailing dashes removed.
pub open spec fn trim_dashes(s: Seq<char>) -> Seq<char> {
    let a = skip_dashes(s, 0);
    let t = s.subrange(a, s.len() as int);
    t.subrange(0, trailing_dashes_start(t, t.len() as int))
}

/// The directory name that `sanitize_directory_name` makes of a book's title.
pub open spec fn directory_name(name: Seq<char>) -> Seq<char> {
    trim_dashes(replace(dashes_for_symbols(lowercase(name)), "--"@, "-"@))
}

proof fn lemma_skip_dashes(s: Seq<char>, i: int)
    requires
        0 <= i <= s.len(),
    ensures
        i <= skip_dashes(s, i) <= s.len(),
        skip_dashes(s, i) < s.len() ==> s[skip_dashes(s, i)] != '-',
    decreases s.len() - i,
{
    if i < s.len() && s[i] == '-' {
        lemma_skip_dashes(s, i + 1);
    }
}

proof fn lemma_trailing_dashes(s: Seq<char>, j: int)
    requires
        0 <= j <= s.len(),
    ensures
        0 <= trailing_dashes_start(s, j) <= j,
        trailing_dashes_start(s, j) > 0 ==> s[trailing_dashes_start(s, j) - 1] != '-',
    decreases j,
{
    if j > 0 && s[j - 1] == '-' {
        lemma_trailing_dashes(s, j - 1);
    }
}

fn trim_dashes_exec(s: &Vec<char>) -> (r: Vec<char>)
    ensures
        r@ == trim_dashes(s@),
        r@.len() > 0 ==> r@[0] != '-' && r@.last() != '-',
{
    let mut a: usize = 0;
    while a < s.len() && s[a] == '-'
        invariant
            a <= s@.len(),
            skip_dashes(s@, 0) == skip_dashes(s@, a as int),
        decreases s@.len() - a,
    {
        a = a + 1;
    }
    proof {
        lemma_skip_dashes(s@, 0);
    }
    let t = slice_chars(s, a, s.len());
    let mut b: usize = t.len();
    while b > 0 && t[b - 1] == '-'
        invariant
            b <= t@.len(),
            trailing_dashes_start(t@, t@.len() as int) == trailing_dashes_start(t@, b as int),
        decreases b,
    {
        b = b - 1;
    }
    proof {
        lemma_trailing_dashes(t@, t@.len() as int);
    }
    slice_chars(&t, 0, b)
}

/// Makes a directory name of a book's title: lower case, every character that is
/// neither alphanumeric nor '-' made a '-', each "--" made "-", and no dash at
/// either end.
pub fn sanitize_directory_name(name: &str) -> (r: String)
    ensures
        r@ == directory_name(name@),
        r@.len() > 0 ==> r@[0] != '-' && r@.last() != '-',
        forall|i: int| 0 <= i < r@.len() ==> char_alphanumeric(#[trigger] r@[i]) || r@[i] == '-',
{
    let lower = chars_of(to_lowercase(name).as_str());
    let mut mapped: Vec<char> = Vec::new();
    let mut i: usize = 0;
    while i < lower.len()
        invariant
            i <= lower@.len(),
            mapped@ =~= dashes_for_symbols(lower@).subrange(0, i as int),
        decreases lower@.len() - i,
    {
        let c = lower[i];
        if !is_alphanumeric(c) && c != '-' {
            mapped.push('-');
        } else {
            mapped.push(c);
        }
        i = i + 1;
    }
    assert(mapped@ =~= dashes_for_symbols(lower@));
    proof {
        reveal_strlit("--");
    }
    let dash = chars_of("-");
    let collapsed = replace_exec(&mapped, &chars_of("--"), &dash);
    let trimmed = trim_dashes_exec(&collapsed);
    proof {
        let prop = |c: char| char_alphanumeric(c) || c == '-';
        reveal_strlit("-");
        assert(dash@ == seq!['-']);
        assert forall|j: int| 0 <= j < mapped@.len() implies prop(#[trigger] mapped@[j]) by {}
        assert forall|j: int| 0 <= j < dash@.len() implies prop(#[trigger] dash@[j]) by {}
        crate::text::lemma_replace_from_keeps(mapped@, "--"@, dash@, 0, prop);
        assert forall|j: int| 0 <= j < collapsed@.len() implies prop(#[trigger] collapsed@[j]) by {}
        lemma_trim_dashes_within(collapsed@);
    }
    to_string(&trimmed)
}

proof fn lemma_trim_dashes_within(s: Seq<char>)
    ensures
        ({
            let a = skip_dashes(s, 0);
            let t = s.subrange(a, s.len() as int);
            &&& 0 <= a <= s.len()
            &&& trim_dashes(s).len() <= t.len()
            &&& forall|j: int| 0 <= j < trim_dashes(s).len() ==> #[trigger] trim_dashes(s)[j] == s[a + j]
        }),
{
    lemma_skip_dashes(s, 0);
    let a = skip_dashes(s, 0);
    let t = s.subrange(a, s.len() as int);
    lemma_trailing_dashes(t, t.len() as int);
}

/// A directory name made of an ASCII title holds no upper-case ASCII letter.
pub proof fn law_directory_name_lower_case(name: Seq<char>)
    requires
        all_ascii(name),
    ensures
        forall|i: int| 0 <= i < directory_name(name).len() ==> !ascii_upper_letter(#[trigger] directory_name(name)[i]),
{
    reveal_strlit("--");
    reveal_strlit("-");
    let lower = lowercase(name);
    assert(lower == name.map_values(|c: char| ascii_lower(c)));
    let prop = |c: char| !ascii_upper_letter(c);
    assert forall|j: int| 0 <= j < lower.len() implies prop(#[trigger] lower[j]) by {
        let c = name[j];
        assert(lower[j] == ascii_lower(c));
        if ascii_upper_letter(c) {
            assert(((c as u32) + 32) as char as u32 == (c as u32) + 32);
        }
    }
    let mapped = dashes_for_symbols(lower);
    assert forall|j: int| 0 <= j < mapped.len() implies prop(#[trigger] mapped[j]) by {
        assert(lower[j] == lower[j]);
    }
    assert forall|j: int| 0 <= j < "-"@.len() implies prop(#[trigger] "-"@[j]) by {}
    crate::text::lemma_replace_from_keeps(mapped, "--"@, "-"@, 0, prop);
    let collapsed = replace(mapped, "--"@, "-"@);
    assert forall|j: int| 0 <= j < collapsed.len() implies prop(#[trigger] collapsed[j]) by {}
    lemma_trim_dashes_within(collapsed);
}

/// A character that `sanitize_filename` keeps.
pub open spec fn filename_char(c: char) -> bool {
    char_alphanumeric(c) || c == ' ' || c == '-' || c == '_'
}

/// The file name that `sanitize_filename` makes: every other character made a '-',
/// then trimmed.
pub open spec fn file_name(name: Seq<char>) -> Seq<char> {
    trim(Seq::new(name.len(), |i: int| if filename_char(name[i]) { name[i] } else { '-' }))
}

/// Makes a file name for the PDF and EPUB outputs: characters other than
/// alphanumerics, spaces, '-' and '_' become '-', and surrounding white space goes.
pub fn sanitize_filename(filename: &str) -> (r: String)
    ensures
        r@ == file_name(filename@),
        forall|i: int| 0 <= i < r@.len() ==> filename_char(#[trigger] r@[i]) || r@[i] == '-',
{
    let s = chars_of(filename);
    let mut mapped: Vec<char> = Vec::new();
    let mut i: usize = 0;
    while i < s.len()
        invariant
            i <= s@.len(),
            mapped@ =~= Seq::new(
                s@.len(),
                |k: int| if filename_char(s@[k]) { s@[k] } else { '-' },
            ).subrange(0, i as int),
        decreases s@.len() - i,
    {
        let c = s[i];
        if is_alphanumeric(c) || c == ' ' || c == '-' || c == '_' {
            mapped.push(c);
        } else {
            mapped.push('-');
        }
        i = i + 1;
    }
    let ghost full = Seq::new(s@.len(), |k: int| if filename_char(s@[k]) { s@[k] } else { '-' });
    assert(mapped@ =~= full);
    let r = trim_exec(&mapped);
    proof {
        crate::text::lemma_skip_ws_from_bounds(full, 0);
        let t = crate::text::trim_start(full);
        crate::text::lemma_trailing_ws_start_bounds(t, t.len() as int);
        assert forall|i: int| 0 <= i < r@.len() implies filename_char(#[trigger] r@[i]) || r@[i] == '-' by {
            let a = crate::text::skip_ws_from(full, 0);
            assert(r@[i] == t[i]);
            assert(t[i] == full[a + i]);
        }
    }
    to_string(&r)
}

/// A sanitised file name is made of kept characters only, has no white space at
/// either end, is no longer than the name it came from, and is its own sanitised
/// name: sanitising twice changes nothing.
pub proof fn law_sanitized_file_name(name: Seq<char>)
    ensures
        forall|i: int| 0 <= i < file_name(name).len() ==> filename_char(#[trigger] file_name(name)[i]),
        trim(file_name(name)) == file_name(name),
        file_name(name).len() <= name.len(),
        file_name(file_name(name)) == file_name(name),
{
    let m = Seq::new(name.len(), |i: int| if filename_char(name[i]) { name[i] } else { '-' });
    let r = file_name(name);
    crate::text::lemma_trim_idempotent(m);
    assert forall|i: int| 0 <= i < r.len() implies filename_char(#[trigger] r[i]) by {
        let j = choose|j: int| 0 <= j < m.len() && r[i] == m[j];
        assert(filename_char(m[j]));
    }
    let m2 = Seq::new(r.len(), |i: int| if filename_char(r[i]) { r[i] } else { '-' });
    assert(m2 =~= r);
}

// ---------------------------------------------------------------------------
// Numbers in file names
// ---------------------------------------------------------------------------

/// An ASCII character, one byte in UTF-8.
pub open spec fn is_ascii_char(c: char) -> bool {
    (c as u32) < 128
}

fn is_ascii_exec(c: char) -> (r: bool)
    ensures
        r == is_ascii_char(c),
{
    (c as u32) < 128
}

/// The end of the run of ASCII digits that starts at `i`.
pub open spec fn digits_end(s: Seq<char>, i: int) -> int
    decreases s.len() - i,
{
    if i < 0 || i >= s.len() {
        if i < 0 { 0 } else { s.len() as int }
    } else if is_digit(s[i]) {
        digits_end(s, i + 1)
    } else {
        i
    }
}

proof fn lemma_digits_end(s: Seq<char>, i: int)
    requires
        0 <= i <= s.len(),
    ensures
        i <= digits_end(s, i) <= s.len(),
        forall|k: int| i <= k < digits_end(s, i) ==> is_digit(#[trigger] s[k]),
        digits_end(s, i) < s.len() ==> !is_digit(s[digits_end(s, i)]),
    decreases s.len() - i,
{
    if i < s.len() && is_digit(s[i]) {
        lemma_digits_end(s, i + 1);
    }
}

pub fn digits_end_exec(s: &Vec<char>, i: usize) -> (r: usize)
    requires
        i <= s@.len(),
    ensures
        r == digits_end(s@, i as int),
        i <= r <= s@.len(),
{
    proof {
        lemma_digits_end(s@, i as int);
    }
    let mut e = i;
    while e < s.len() && '0' <= s[e] && s[e] <= '9'
        invariant
            i <= e <= s@.len(),
            digits_end(s@, i as int) == digits_end(s@, e as int),
        decreases s@.len() - e,
    {
        e = e + 1;
    }
    e
}

/// The index of the first piece, from index `k` on, that starts with "scene".
pub open spec fn first_scene_piece(pieces: Seq<Seq<char>>, k: int) -> Option<int>
    decreases pieces.len() - k,
{
    if k < 0 || k >= pieces.len() {
        None
    } else if starts_with(pieces[k], "scene"@) {
        Some(k)
    } else {
        first_scene_piece(pieces, k + 1)
    }
}

/// The scene number that the '_'-separated pieces give: the first piece that
/// starts with "scene" read as "scene" and a number ("scene3" gives 3); where that
/// piece is "scene" alone, as in "scene_3_content.md", the next piece read as a
/// number.
pub open spec fn piece_scene_number(pieces: Seq<Seq<char>>) -> Option<usize> {
    match first_scene_piece(pieces, 0) {
        Some(k) => match parse_usize(strip_all_prefix(pieces[k], "scene"@)) {
            Some(n) => Some(n),
            None => if pieces[k] == "scene"@ && k + 1 < pieces.len() {
                parse_usize(pieces[k + 1])
            } else {
                None
            },
        },
        None => None,
    }
}

/// The scan of `extract_scene_number` for "scene" followed by digits, from position
/// `cur`: `None` where reading the byte after the digits would split a character,
/// that is where the digits after an examined "scene" are followed by a character
/// that is not ASCII.
pub open spec fn scene_scan(s: Seq<char>, cur: int) -> Option<Option<usize>>
    decreases s.len() + 1 - cur,
{
    if cur < 0 || cur > s.len() {
        Some(None)
    } else {
        match find_from(s, "scene"@, cur) {
            None => Some(None),
            Some(k) => {
                let st = k + 5;
                if k < cur || st >= s.len() {
                    Some(None)
                } else {
                    let e = digits_end(s, st);
                    if e < s.len() && !is_ascii_char(s[e]) {
                        None
                    } else if e > st && parse_usize(s.subrange(st, e)) is Some {
                        Some(parse_usize(s.subrange(st, e)))
                    } else {
                        scene_scan(s, st)
                    }
                }
            },
        }
    }
}

/// The scene number in a file name, as `extract_scene_number` reads it: first from
/// the '_'-separated pieces ("scene3" gives 3, "scene_3_content.md" gives 3); else
/// the first "scene" followed by digits anywhere.
pub open spec fn scene_number_in(s: Seq<char>) -> Option<Option<usize>> {
    match piece_scene_number(split(s, '_')) {
        Some(n) => Some(Some(n)),
        None => scene_scan(s, 0),
    }
}

/// The file names on which `extract_scene_number` returns rather than panics.
pub open spec fn scene_number_defined(s: Seq<char>) -> bool {
    scene_number_in(s) is Some
}

/// The scene number that the '_'-separated pieces of `s` give.
fn first_piece_number(s: &Vec<char>, scene: &Vec<char>) -> (r: Option<usize>)
    requires
        scene@ == "scene"@,
    ensures
        r == piece_scene_number(split(s@, '_')),
{
    let pieces = split_exec(s, '_');
    let ghost ps = split(s@, '_');
    let mut k: usize = 0;
    while k < pieces.len()
        invariant
            k <= pieces@.len(),
            pieces@.len() == ps.len(),
            ps == split(s@, '_'),
            forall|j: int| 0 <= j < pieces@.len() ==> #[trigger] pieces@[j]@ == ps[j],
            first_scene_piece(ps, 0) == first_scene_piece(ps, k as int),
            scene@ == "scene"@,
        decreases pieces@.len() - k,
    {
        assert(pieces@[k as int]@ == ps[k as int]);
        if starts_with_exec(&pieces[k], scene) {
            let rest = strip_all_prefix_exec(&pieces[k], scene);
            match parse_usize_exec(&rest) {
                Some(n) => {
                    return Some(n);
                },
                None => {
                    if same_text(&pieces[k], scene) && k + 1 < pieces.len() {
                        assert(pieces@[k + 1]@ == ps[k + 1]);
                        return parse_usize_exec(&pieces[k + 1]);
                    }
                    return None;
                },
            }
        }
        k = k + 1;
    }
    None
}

/// Reads a scene number from a file name such as "scene_generation_ch2_scene3.txt",
/// and tells where `extract_scene_number` cannot read one: `None` on the names on
/// which it panics, else its result.
pub fn scene_number_checked(filename: &str) -> (r: Option<Option<usize>>)
    ensures
        r == scene_number_in(filename@),
{
    proof {
        reveal_strlit("scene");
    }
    let s = chars_of(filename);
    let scene = chars_of("scene");
    if let Some(n) = first_piece_number(&s, &scene) {
        return Some(Some(n));
    }
    assert(scene_number_in(s@) == scene_scan(s@, 0));
    let mut cur: usize = 0;
    loop
        invariant
            cur <= s@.len(),
            s@ == filename@,
            scene@ == "scene"@,
            scene_number_in(s@) == scene_scan(s@, cur as int),
        decreases s@.len() + 1 - cur,
    {
        proof {
            reveal_strlit("scene");
            lemma_find_from_bounds(s@, scene@, cur as int);
        }
        match find_from_exec(&s, &scene, cur) {
            None => {
                return Some(None);
            },
            Some(k) => {
                assert(matches_at(s@, scene@, k as int));
                assert(k + 5 <= s.len());
                let st = k + 5;
                if st >= s.len() {
                    return Some(None);
                }
                let e = digits_end_exec(&s, st);
                if e < s.len() && !is_ascii_exec(s[e]) {
                    return None;
                }
                if e > st {
                    let digits = slice_chars(&s, st, e);
                    match parse_usize_exec(&digits) {
                        Some(n) => {
                            return Some(Some(n));
                        },
                        None => {},
                    }
                }
                cur = st;
            },
        }
    }
}

/// Reads a scene number from a file name such as "scene_3_content.md" (the number
/// in "scene_X_*") or "scene_generation_ch2_scene3.txt": first from the
/// '_'-separated pieces, else from the first "scene" followed by digits. `None` where
/// there is none, and where the digits after an examined "scene" run into a
/// character that is not ASCII.
pub fn extract_scene_number(filename: &str) -> (r: Option<usize>)
    ensures
        r == match scene_number_in(filename@) {
            Some(x) => x,
            None => None,
        },
{
    match scene_number_checked(filename) {
        Some(r) => r,
        None => None,
    }
}

/// The number in the run of ASCII digits right after the first `key` in `s`.
pub open spec fn number_after(s: Seq<char>, key: Seq<char>) -> Option<usize> {
    match crate::text::find(s, key) {
        Some(p) => {
            let start = p + key.len();
            let end = digits_end(s, start);
            if start < end {
                parse_usize(s.subrange(start, end))
            } else {
                None
            }
        },
        None => None,
    }
}

/// The chapter number in a file name, as `extract_chapter_number` reads it: the
/// digits after the first "chapter_", else the digits after the first "ch".
pub open spec fn chapter_number_in(s: Seq<char>) -> Option<usize> {
    match number_after(s, "chapter_"@) {
        Some(n) => Some(n),
        None => number_after(s, "ch"@),
    }
}

fn number_after_exec(s: &Vec<char>, key: &Vec<char>) -> (r: Option<usize>)
    ensures
        r == number_after(s@, key@),
{
    proof {
        lemma_find_from_bounds(s@, key@, 0);
    }
    match crate::text::find_exec(s, key) {
        Some(p) => {
            assert(matches_at(s@, key@, p as int));
            assert(p + key.len() <= s.len());
            let start = p + key.len();
            let end = digits_end_exec(s, start);
            if start < end {
                let digits = slice_chars(s, start, end);
                parse_usize_exec(&digits)
            } else {
                None
            }
        },
        None => None,
    }
}

/// Reads a chapter number from a file name such as "chapter_3.md" or
/// "content_generation_ch2_scene1.txt".
pub fn extract_chapter_number(filename: &str) -> (r: Option<usize>)
    ensures
        r == chapter_number_in(filename@),
{
    let s = chars_of(filename);
    match number_after_exec(&s, &chars_of("chapter_")) {
        Some(n) => Some(n),
        None => number_after_exec(&s, &chars_of("ch")),
    }
}


// ---------------------------------------------------------------------------
// Which logs are cleaned up
// ---------------------------------------------------------------------------

/// A log that is kept whatever its age, when essential logs are kept: a chapter's
/// markdown ("chapter_…md"), and the generation logs of chapters and scenes other
/// than token-usage logs.
pub open spec fn is_essential_log(name: Seq<char>) -> bool {
    ||| starts_with(name, "chapter_"@) && ends_with(name, ".md"@)
    ||| (starts_with(name, "chapter_generation_"@) || starts_with(name, "scene_generation_"@))
        && !contains(name, "token_usage"@)
}

/// Whether a log file of the given age is removed: it is older than the retention
/// period (the age, in seconds and nanoseconds, is above `retention_days` days), and
/// it is not an essential log kept because `keep_essential` is set.
pub open spec fn log_removed(name: Seq<char>, keep_essential: bool, age_secs: nat, age_nanos: nat, retention_days: nat) -> bool {
    &&& !(keep_essential && is_essential_log(name))
    &&& (age_secs > retention_days * 86400 || (age_secs == retention_days * 86400 && age_nanos > 0))
}

/// Whether the log file `name`, of the given age, is removed when old logs are
/// cleaned up.
pub fn should_remove_log(name: &str, keep_essential: bool, age_secs: u64, age_nanos: u32, retention_days: u64) -> (r: bool)
    requires
        retention_days * 86400 <= u64::MAX,
    ensures
        r == log_removed(name@, keep_essential, age_secs as nat, age_nanos as nat, retention_days as nat),
{
    if keep_essential {
        let n = chars_of(name);
        let markdown = starts_with_exec(&n, &chars_of("chapter_")) && ends_with_exec(&n, &chars_of(".md"));
        let generation = (starts_with_exec(&n, &chars_of("chapter_generation_"))
            || starts_with_exec(&n, &chars_of("scene_generation_")))
            && !contains_exec(&n, &chars_of("token_usage"));
        if markdown || generation {
            return false;
        }
    }
    let retention = retention_days * 24 * 60 * 60;
    age_secs > retention || (age_secs == retention && age_nanos > 0)
}

} // verus!
