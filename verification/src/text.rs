//! Character-level text operations with exact specifications.
//!
//! Strings are modelled by their view, a `Seq<char>`; every operation here is
//! stated as a spec function over such sequences and implemented on `Vec<char>`.
use vstd::prelude::*;

verus! {

// ---------------------------------------------------------------------------
// Character classes
// ---------------------------------------------------------------------------

/// The Unicode `White_Space` property, which `char::is_whitespace` tests.
pub open spec fn is_ws(c: char) -> bool {
    let u = c as u32;
    (0x9 <= u && u <= 0xd) || u == 0x20 || u == 0x85 || u == 0xa0 || u == 0x1680
        || (0x2000 <= u && u <= 0x200a) || u == 0x2028 || u == 0x2029 || u == 0x202f
        || u == 0x205f || u == 0x3000
}

/// Whether `c` is Unicode white space.
pub fn is_whitespace(c: char) -> (r: bool)
    ensures
        r == is_ws(c),
{
    let u = c as u32;
    (0x9 <= u && u <= 0xd) || u == 0x20 || u == 0x85 || u == 0xa0 || u == 0x1680
        || (0x2000 <= u && u <= 0x200a) || u == 0x2028 || u == 0x2029 || u == 0x202f
        || u == 0x205f || u == 0x3000
}

/// An ASCII decimal digit.
pub open spec fn is_digit(c: char) -> bool {
    '0' <= c && c <= '9'
}

/// The value of an ASCII digit.
pub open spec fn digit_value(c: char) -> int {
    (c as u32) - ('0' as u32)
}

// ---------------------------------------------------------------------------
// Prefixes, suffixes, searching
// ---------------------------------------------------------------------------

/// `p` occurs in `s` at index `i`.
pub open spec fn matches_at(s: Seq<char>, p: Seq<char>, i: int) -> bool {
    0 <= i && i + p.len() <= s.len() && s.subrange(i, i + p.len()) == p
}

pub open spec fn starts_with(s: Seq<char>, p: Seq<char>) -> bool {
    matches_at(s, p, 0)
}

pub open spec fn ends_with(s: Seq<char>, p: Seq<char>) -> bool {
    p.len() <= s.len() && matches_at(s, p, s.len() - p.len())
}

/// The first index at or after `i` where `p` occurs in `s`.
pub open spec fn find_from(s: Seq<char>, p: Seq<char>, i: int) -> Option<int>
    decreases s.len() + 1 - i,
{
    if i < 0 || i + p.len() > s.len() {
        None
    } else if matches_at(s, p, i) {
        Some(i)
    } else {
        find_from(s, p, i + 1)
    }
}

/// The first occurrence of `p` in `s`, as `str::find` reports it (in characters).
pub open spec fn find(s: Seq<char>, p: Seq<char>) -> Option<int> {
    find_from(s, p, 0)
}

pub open spec fn contains(s: Seq<char>, p: Seq<char>) -> bool {
    find(s, p) is Some
}

/// The first index at or after `i` that holds `c`.
pub open spec fn find_char_from(s: Seq<char>, c: char, i: int) -> Option<int>
    decreases s.len() - i,
{
    if i < 0 || i >= s.len() {
        None
    } else if s[i] == c {
        Some(i)
    } else {
        find_char_from(s, c, i + 1)
    }
}

pub open spec fn has_char(s: Seq<char>, c: char) -> bool {
    find_char_from(s, c, 0) is Some
}

pub proof fn lemma_find_from_bounds(s: Seq<char>, p: Seq<char>, i: int)
    requires
        0 <= i,
    ensures
        find_from(s, p, i) matches Some(k) ==> i <= k && matches_at(s, p, k) && (forall|j: int|
            i <= j < k ==> !matches_at(s, p, j)),
        find_from(s, p, i) is None ==> (forall|j: int| i <= j ==> !#[trigger] matches_at(s, p, j)),
    decreases s.len() + 1 - i,
{
    if i + p.len() > s.len() {
    } else if matches_at(s, p, i) {
    } else {
        lemma_find_from_bounds(s, p, i + 1);
    }
}

pub proof fn lemma_find_char_from_bounds(s: Seq<char>, c: char, i: int)
    requires
        0 <= i,
    ensures
        find_char_from(s, c, i) matches Some(k) ==> i <= k < s.len() && s[k] == c && (forall|j: int|
            i <= j < k ==> s[j] != c),
        find_char_from(s, c, i) is None ==> (forall|j: int| i <= j < s.len() ==> s[j] != c),
    decreases s.len() - i,
{
    if i < s.len() && s[i] != c {
        lemma_find_char_from_bounds(s, c, i + 1);
    }
}

/// `matches_at` character by character.
pub proof fn lemma_matches_at_chars(s: Seq<char>, p: Seq<char>, i: int)
    ensures
        matches_at(s, p, i) <==> (0 <= i && i + p.len() <= s.len() && forall|t: int|
            0 <= t < p.len() ==> #[trigger] s[i + t] == p[t]),
{
    if 0 <= i && i + p.len() <= s.len() {
        if forall|t: int| 0 <= t < p.len() ==> #[trigger] s[i + t] == p[t] {
            assert forall|t: int| 0 <= t < p.len() implies #[trigger] s.subrange(i, i + p.len())[t]
                == p[t] by {
                assert(s[i + t] == p[t]);
            }
            assert(s.subrange(i, i + p.len()) =~= p);
        }
        if matches_at(s, p, i) {
            assert forall|t: int| 0 <= t < p.len() implies #[trigger] s[i + t] == p[t] by {
                assert(s.subrange(i, i + p.len())[t] == s[i + t]);
            }
        }
    }
}

/// The first occurrence is at `k` when `p` occurs there and nowhere before.
pub proof fn lemma_find_is(s: Seq<char>, p: Seq<char>, k: int)
    requires
        matches_at(s, p, k),
        forall|j: int| 0 <= j < k ==> !#[trigger] matches_at(s, p, j),
    ensures
        find(s, p) == Some(k),
{
    lemma_find_from_is(s, p, 0, k);
}

proof fn lemma_find_from_is(s: Seq<char>, p: Seq<char>, i: int, k: int)
    requires
        0 <= i <= k,
        matches_at(s, p, k),
        forall|j: int| i <= j < k ==> !#[trigger] matches_at(s, p, j),
    ensures
        find_from(s, p, i) == Some(k),
    decreases k - i,
{
    if i < k {
        lemma_find_from_is(s, p, i + 1, k);
    }
}

/// There is no first occurrence when `p` occurs nowhere.
pub proof fn lemma_find_none(s: Seq<char>, p: Seq<char>)
    requires
        forall|j: int| 0 <= j ==> !#[trigger] matches_at(s, p, j),
    ensures
        find(s, p) is None,
{
    lemma_find_from_none(s, p, 0);
}

proof fn lemma_find_from_none(s: Seq<char>, p: Seq<char>, i: int)
    requires
        0 <= i,
        forall|j: int| i <= j ==> !#[trigger] matches_at(s, p, j),
    ensures
        find_from(s, p, i) is None,
    decreases s.len() + 1 - i,
{
    if i + p.len() <= s.len() {
        lemma_find_from_none(s, p, i + 1);
    }
}

/// Whether `p` occurs in `s` at index `i`.
pub fn matches_at_exec(s: &Vec<char>, p: &Vec<char>, i: usize) -> (r: bool)
    ensures
        r == matches_at(s@, p@, i as int),
{
    if i > s.len() || p.len() > s.len() - i {
        return false;
    }
    let n = s.len();
    let mut k: usize = 0;
    while k < p.len()
        invariant
            n == s@.len(),
            i + p@.len() <= s@.len(),
            k <= p@.len(),
            forall|j: int| 0 <= j < k ==> s@[i + j] == p@[j],
        decreases p@.len() - k,
    {
        assert(i + k < s@.len());
        if s[i + k] != p[k] {
            assert(s@.subrange(i as int, i + p@.len())[k as int] != p@[k as int]);
            return false;
        }
        k = k + 1;
    }
    assert(s@.subrange(i as int, i + p@.len()) =~= p@);
    true
}

pub fn starts_with_exec(s: &Vec<char>, p: &Vec<char>) -> (r: bool)
    ensures
        r == starts_with(s@, p@),
{
    matches_at_exec(s, p, 0)
}

pub fn ends_with_exec(s: &Vec<char>, p: &Vec<char>) -> (r: bool)
    ensures
        r == ends_with(s@, p@),
{
    if p.len() > s.len() {
        false
    } else {
        matches_at_exec(s, p, s.len() - p.len())
    }
}

/// The first occurrence of `p` in `s` at or after `from`.
pub fn find_from_exec(s: &Vec<char>, p: &Vec<char>, from: usize) -> (r: Option<usize>)
    ensures
        r matches Some(k) ==> find_from(s@, p@, from as int) == Some(k as int),
        r is None ==> find_from(s@, p@, from as int) is None,
{
    let mut i = from;
    loop
        invariant
            from <= i,
            find_from(s@, p@, from as int) == find_from(s@, p@, i as int),
        decreases s@.len() + 1 - i,
    {
        if i > s.len() || p.len() > s.len() - i {
            return None;
        }
        if matches_at_exec(s, p, i) {
            return Some(i);
        }
        assert(i < s@.len()) by {
            if i == s@.len() {
                assert(s@.subrange(i as int, i as int) =~= p@);
            }
        }
        i = i + 1;
    }
}

pub fn find_exec(s: &Vec<char>, p: &Vec<char>) -> (r: Option<usize>)
    ensures
        r matches Some(k) ==> find(s@, p@) == Some(k as int),
        r is None ==> find(s@, p@) is None,
{
    find_from_exec(s, p, 0)
}

pub fn contains_exec(s: &Vec<char>, p: &Vec<char>) -> (r: bool)
    ensures
        r == contains(s@, p@),
{
    find_exec(s, p).is_some()
}

/// The first index at or after `from` that holds `c`.
pub fn find_char_from_exec(s: &Vec<char>, c: char, from: usize) -> (r: Option<usize>)
    ensures
        r matches Some(k) ==> find_char_from(s@, c, from as int) == Some(k as int),
        r is None ==> find_char_from(s@, c, from as int) is None,
{
    let mut i = from;
    while i < s.len()
        invariant
            from <= i,
            find_char_from(s@, c, from as int) == find_char_from(s@, c, i as int),
        decreases s@.len() - i,
    {
        if s[i] == c {
            return Some(i);
        }
        i = i + 1;
    }
    None
}

pub fn has_char_exec(s: &Vec<char>, c: char) -> (r: bool)
    ensures
        r == has_char(s@, c),
{
    find_char_from_exec(s, c, 0).is_some()
}

// ---------------------------------------------------------------------------
// Trimming
// ---------------------------------------------------------------------------

/// The first index at or after `i` that does not hold white space (or the length).
pub open spec fn skip_ws_from(s: Seq<char>, i: int) -> int
    decreases s.len() - i,
{
    if i < 0 || i >= s.len() {
        if i < 0 { 0 } else { s.len() as int }
    } else if is_ws(s[i]) {
        skip_ws_from(s, i + 1)
    } else {
        i
    }
}

/// The end of `s.subrange(0, j)` once trailing white space is dropped.
pub open spec fn trailing_ws_start(s: Seq<char>, j: int) -> int
    decreases j,
{
    if j <= 0 || j > s.len() {
        if j <= 0 { 0 } else { trailing_ws_start(s, s.len() as int) }
    } else if is_ws(s[j - 1]) {
        trailing_ws_start(s, j - 1)
    } else {
        j
    }
}

pub open spec fn trim_start(s: Seq<char>) -> Seq<char> {
    s.subrange(skip_ws_from(s, 0), s.len() as int)
}

pub open spec fn trim_end(s: Seq<char>) -> Seq<char> {
    s.subrange(0, trailing_ws_start(s, s.len() as int))
}

/// `str::trim`: leading and trailing white space removed.
pub open spec fn trim(s: Seq<char>) -> Seq<char> {
    trim_end(trim_start(s))
}

pub proof fn lemma_skip_ws_from_bounds(s: Seq<char>, i: int)
    requires
        0 <= i <= s.len(),
    ensures
        i <= skip_ws_from(s, i) <= s.len(),
        forall|k: int| i <= k < skip_ws_from(s, i) ==> is_ws(s[k]),
        skip_ws_from(s, i) < s.len() ==> !is_ws(s[skip_ws_from(s, i)]),
    decreases s.len() - i,
{
    if i < s.len() && is_ws(s[i]) {
        lemma_skip_ws_from_bounds(s, i + 1);
    }
}

pub proof fn lemma_trailing_ws_start_bounds(s: Seq<char>, j: int)
    requires
        0 <= j <= s.len(),
    ensures
        0 <= trailing_ws_start(s, j) <= j,
        forall|k: int| trailing_ws_start(s, j) <= k < j ==> is_ws(s[k]),
        trailing_ws_start(s, j) > 0 ==> !is_ws(s[trailing_ws_start(s, j) - 1]),
    decreases j,
{
    if j > 0 && is_ws(s[j - 1]) {
        lemma_trailing_ws_start_bounds(s, j - 1);
    }
}

/// A subrange `s[a..b]` as a new vector.
pub fn slice_chars(s: &Vec<char>, a: usize, b: usize) -> (r: Vec<char>)
    requires
        a <= b <= s@.len(),
    ensures
        r@ == s@.subrange(a as int, b as int),
{
    let mut r: Vec<char> = Vec::new();
    let mut i = a;
    while i < b
        invariant
            a <= i <= b <= s@.len(),
            r@ == s@.subrange(a as int, i as int),
        decreases b - i,
    {
        r.push(s[i]);
        i = i + 1;
        assert(r@ =~= s@.subrange(a as int, i as int));
    }
    r
}

/// The suffix of `s` starting at `a`.
pub fn suffix_from(s: &Vec<char>, a: usize) -> (r: Vec<char>)
    requires
        a <= s@.len(),
    ensures
        r@ == s@.subrange(a as int, s@.len() as int),
{
    slice_chars(s, a, s.len())
}

pub fn trim_start_exec(s: &Vec<char>) -> (r: Vec<char>)
    ensures
        r@ == trim_start(s@),
{
    let mut i: usize = 0;
    while i < s.len() && is_whitespace(s[i])
        invariant
            i <= s@.len(),
            skip_ws_from(s@, 0) == skip_ws_from(s@, i as int),
        decreases s@.len() - i,
    {
        i = i + 1;
    }
    slice_chars(s, i, s.len())
}

pub fn trim_end_exec(s: &Vec<char>) -> (r: Vec<char>)
    ensures
        r@ == trim_end(s@),
{
    let mut j: usize = s.len();
    while j > 0 && is_whitespace(s[j - 1])
        invariant
            j <= s@.len(),
            trailing_ws_start(s@, s@.len() as int) == trailing_ws_start(s@, j as int),
        decreases j,
    {
        j = j - 1;
    }
    slice_chars(s, 0, j)
}

pub fn trim_exec(s: &Vec<char>) -> (r: Vec<char>)
    ensures
        r@ == trim(s@),
{
    let t = trim_start_exec(s);
    trim_end_exec(&t)
}

/// The first index at or after `i` that holds white space (or the length).
pub open spec fn word_end_from(s: Seq<char>, i: int) -> int
    decreases s.len() - i,
{
    if i < 0 || i >= s.len() {
        if i < 0 { 0 } else { s.len() as int }
    } else if is_ws(s[i]) {
        i
    } else {
        word_end_from(s, i + 1)
    }
}

/// The first item of `str::split_whitespace`.
pub open spec fn first_word(s: Seq<char>) -> Option<Seq<char>> {
    let a = skip_ws_from(s, 0);
    if a >= s.len() {
        None
    } else {
        Some(s.subrange(a, word_end_from(s, a)))
    }
}

/// The first item of `split(c)`: the text before the first `c`, or all of it.
pub open spec fn before_char(s: Seq<char>, c: char) -> Seq<char> {
    match find_char_from(s, c, 0) {
        Some(k) => s.subrange(0, k),
        None => s,
    }
}

pub proof fn lemma_word_end_from_bounds(s: Seq<char>, i: int)
    requires
        0 <= i <= s.len(),
    ensures
        i <= word_end_from(s, i) <= s.len(),
    decreases s.len() - i,
{
    if i < s.len() && !is_ws(s[i]) {
        lemma_word_end_from_bounds(s, i + 1);
    }
}

pub fn first_word_exec(s: &Vec<char>) -> (r: Option<Vec<char>>)
    ensures
        r matches Some(w) ==> first_word(s@) == Some(w@),
        r is None ==> first_word(s@) is None,
{
    let mut a: usize = 0;
    while a < s.len() && is_whitespace(s[a])
        invariant
            a <= s@.len(),
            skip_ws_from(s@, 0) == skip_ws_from(s@, a as int),
        decreases s@.len() - a,
    {
        a = a + 1;
    }
    if a >= s.len() {
        return None;
    }
    let mut b: usize = a;
    while b < s.len() && !is_whitespace(s[b])
        invariant
            a <= b <= s@.len(),
            word_end_from(s@, a as int) == word_end_from(s@, b as int),
        decreases s@.len() - b,
    {
        b = b + 1;
    }
    Some(slice_chars(s, a, b))
}

pub fn before_char_exec(s: &Vec<char>, c: char) -> (r: Vec<char>)
    ensures
        r@ == before_char(s@, c),
{
    proof {
        lemma_find_char_from_bounds(s@, c, 0);
    }
    match find_char_from_exec(s, c, 0) {
        Some(k) => slice_chars(s, 0, k),
        None => {
            let r = slice_chars(s, 0, s.len());
            assert(r@ =~= s@);
            r
        },
    }
}

/// `split(c)` from index `i` on: the pieces between occurrences of `c`.
pub open spec fn split_from(s: Seq<char>, c: char, i: int) -> Seq<Seq<char>>
    decreases s.len() + 1 - i,
{
    if i < 0 || i > s.len() {
        Seq::empty()
    } else {
        match find_char_from(s, c, i) {
            Some(k) => if k >= i && k < s.len() {
                seq![s.subrange(i, k)] + split_from(s, c, k + 1)
            } else {
                Seq::empty()
            },
            None => seq![s.subrange(i, s.len() as int)],
        }
    }
}

/// `str::split` on a character.
pub open spec fn split(s: Seq<char>, c: char) -> Seq<Seq<char>> {
    split_from(s, c, 0)
}

/// Splits `s` at every `c`, as `str::split` does.
pub fn split_exec(s: &Vec<char>, c: char) -> (r: Vec<Vec<char>>)
    ensures
        r@.len() == split(s@, c).len(),
        forall|k: int| 0 <= k < r@.len() ==> #[trigger] r@[k]@ == split(s@, c)[k],
{
    let mut r: Vec<Vec<char>> = Vec::new();
    let mut i: usize = 0;
    let ghost done: Seq<Seq<char>> = Seq::empty();
    loop
        invariant
            i <= s@.len(),
            split(s@, c) == done + split_from(s@, c, i as int),
            r@.len() == done.len(),
            forall|k: int| 0 <= k < r@.len() ==> #[trigger] r@[k]@ == done[k],
        decreases s@.len() + 1 - i,
    {
        proof {
            lemma_find_char_from_bounds(s@, c, i as int);
        }
        match find_char_from_exec(s, c, i) {
            Some(k) => {
                let piece = slice_chars(s, i, k);
                proof {
                    assert(split_from(s@, c, i as int) == seq![piece@] + split_from(s@, c, k + 1));
                    assert(done + split_from(s@, c, i as int) =~= done.push(piece@) + split_from(
                        s@,
                        c,
                        k + 1,
                    ));
                    done = done.push(piece@);
                }
                r.push(piece);
                assert(k < s.len());
                i = k + 1;
            },
            None => {
                let piece = slice_chars(s, i, s.len());
                proof {
                    assert(split_from(s@, c, i as int) == seq![piece@]);
                    assert(done + split_from(s@, c, i as int) =~= done.push(piece@));
                    done = done.push(piece@);
                }
                r.push(piece);
                return r;
            },
        }
    }
}

/// `trim_start_matches(p)`: every leading copy of `p` removed.
pub open spec fn strip_all_prefix(s: Seq<char>, p: Seq<char>) -> Seq<char>
    decreases s.len(),
{
    if p.len() > 0 && starts_with(s, p) {
        strip_all_prefix(s.subrange(p.len() as int, s.len() as int), p)
    } else {
        s
    }
}

pub fn strip_all_prefix_exec(s: &Vec<char>, p: &Vec<char>) -> (r: Vec<char>)
    ensures
        r@ == strip_all_prefix(s@, p@),
{
    let mut i: usize = 0;
    assert(s@.subrange(0, s@.len() as int) =~= s@);
    while p.len() > 0 && i <= s.len() && matches_at_exec(s, p, i)
        invariant
            i <= s@.len(),
            strip_all_prefix(s@, p@) == strip_all_prefix(s@.subrange(i as int, s@.len() as int), p@),
        decreases s@.len() - i,
    {
        let ghost rest = s@.subrange(i as int, s@.len() as int);
        assert(rest.subrange(0, p@.len() as int) =~= s@.subrange(i as int, i + p@.len()));
        assert(rest.subrange(p@.len() as int, rest.len() as int) =~= s@.subrange(
            i + p@.len(),
            s@.len() as int,
        ));
        i = i + p.len();
    }
    let r = suffix_from(s, i);
    proof {
        let rest = s@.subrange(i as int, s@.len() as int);
        if p@.len() > 0 {
            if starts_with(rest, p@) {
                assert(rest.subrange(0, p@.len() as int) =~= s@.subrange(i as int, i + p@.len()));
                assert(matches_at(s@, p@, i as int));
            }
        }
    }
    r
}

/// `str::replace`: each occurrence of `p`, scanning left to right without overlap,
/// replaced by `q`.
pub open spec fn replace_from(s: Seq<char>, p: Seq<char>, q: Seq<char>, i: int) -> Seq<char>
    decreases s.len() + 1 - i,
{
    if i < 0 || i > s.len() || p.len() == 0 {
        Seq::empty()
    } else {
        match find_from(s, p, i) {
            Some(k) => if k >= i && k + p.len() <= s.len() {
                s.subrange(i, k) + q + replace_from(s, p, q, k + p.len())
            } else {
                Seq::empty()
            },
            None => s.subrange(i, s.len() as int),
        }
    }
}

/// `q` before, between and after the characters of `s`: what `str::replace` gives
/// for an empty pattern.
pub open spec fn interleave(s: Seq<char>, q: Seq<char>) -> Seq<char>
    decreases s.len(),
{
    if s.len() == 0 {
        q
    } else {
        interleave(s.drop_last(), q) + seq![s.last()] + q
    }
}

/// `str::replace(p, q)`.
pub open spec fn replace(s: Seq<char>, p: Seq<char>, q: Seq<char>) -> Seq<char> {
    if p.len() == 0 {
        interleave(s, q)
    } else {
        replace_from(s, p, q, 0)
    }
}

/// A replacement keeps a property of every character where the text and the
/// replacement have it.
pub proof fn lemma_replace_from_keeps(s: Seq<char>, p: Seq<char>, q: Seq<char>, i: int, prop: spec_fn(char) -> bool)
    requires
        forall|j: int| 0 <= j < s.len() ==> prop(#[trigger] s[j]),
        forall|j: int| 0 <= j < q.len() ==> prop(#[trigger] q[j]),
    ensures
        forall|j: int| 0 <= j < replace_from(s, p, q, i).len() ==> prop(#[trigger] replace_from(s, p, q, i)[j]),
    decreases s.len() + 1 - i,
{
    if i < 0 || i > s.len() || p.len() == 0 {
    } else {
        match find_from(s, p, i) {
            Some(k) => {
                if k >= i && k + p.len() <= s.len() {
                    lemma_replace_from_keeps(s, p, q, k + p.len(), prop);
                    let a = s.subrange(i, k);
                    let rest = replace_from(s, p, q, k + p.len());
                    let r = a + q + rest;
                    assert(replace_from(s, p, q, i) == r);
                    assert forall|j: int| 0 <= j < r.len() implies prop(#[trigger] r[j]) by {
                        if j < a.len() {
                            assert(r[j] == s[i + j]);
                        } else if j < a.len() + q.len() {
                            assert(r[j] == q[j - a.len()]);
                        } else {
                            assert(r[j] == rest[j - a.len() - q.len()]);
                        }
                    }
                }
            },
            None => {
                let r = s.subrange(i, s.len() as int);
                assert forall|j: int| 0 <= j < r.len() implies prop(#[trigger] r[j]) by {
                    assert(r[j] == s[i + j]);
                }
            },
        }
    }
}

/// A text with no white space at either end is its own trimmed form.
pub proof fn lemma_trim_unchanged(s: Seq<char>)
    requires
        s.len() > 0,
        !is_ws(s[0]),
        !is_ws(s[s.len() - 1]),
    ensures
        trim(s) == s,
{
    assert(skip_ws_from(s, 0) == 0);
    assert(trim_start(s) =~= s);
    assert(trailing_ws_start(s, s.len() as int) == s.len());
    assert(trim_end(s) =~= s);
}

/// A text none of whose characters is `c` does not hold `c`.
pub proof fn lemma_no_char(s: Seq<char>, c: char)
    requires
        forall|k: int| 0 <= k < s.len() ==> s[k] != c,
    ensures
        !has_char(s, c),
{
    lemma_find_char_from_bounds(s, c, 0);
}

/// A text none of whose characters is the first of `p` does not contain `p`.
pub proof fn lemma_no_first_char(s: Seq<char>, p: Seq<char>)
    requires
        p.len() > 0,
        forall|k: int| 0 <= k < s.len() ==> s[k] != p[0],
    ensures
        !contains(s, p),
{
    lemma_find_from_bounds(s, p, 0);
    if let Some(k) = find(s, p) {
        lemma_matches_at_chars(s, p, k);
        assert(s[k + 0] == p[0]);
    }
}

/// An occurrence anywhere makes a text contain a pattern.
pub proof fn lemma_occurs_contains(s: Seq<char>, p: Seq<char>, j: int)
    requires
        matches_at(s, p, j),
    ensures
        contains(s, p),
{
    lemma_find_from_bounds(s, p, 0);
}

/// Replacing an empty pattern by nothing leaves the text as it is.
pub proof fn lemma_replace_empty_pattern(s: Seq<char>)
    ensures
        replace(s, Seq::empty(), Seq::empty()) == s,
    decreases s.len(),
{
    if s.len() > 0 {
        lemma_replace_empty_pattern(s.drop_last());
        assert(interleave(s.drop_last(), Seq::empty()) + seq![s.last()] + Seq::<char>::empty() =~= s);
    } else {
        assert(interleave(s, Seq::empty()) =~= s);
    }
}

pub fn replace_exec(s: &Vec<char>, p: &Vec<char>, q: &Vec<char>) -> (r: Vec<char>)
    requires
        p@.len() > 0,
    ensures
        r@ == replace(s@, p@, q@),
{
    let mut r: Vec<char> = Vec::new();
    let mut i: usize = 0;
    loop
        invariant
            i <= s@.len(),
            p@.len() > 0,
            replace(s@, p@, q@) == r@ + replace_from(s@, p@, q@, i as int),
        decreases s@.len() + 1 - i,
    {
        proof {
            lemma_find_from_bounds(s@, p@, i as int);
        }
        match find_from_exec(s, p, i) {
            Some(k) => {
                let piece = slice_chars(s, i, k);
                let ghost before = r@;
                push_all(&mut r, &piece);
                push_all(&mut r, q);
                assert(before + replace_from(s@, p@, q@, i as int) =~= r@ + replace_from(
                    s@,
                    p@,
                    q@,
                    k + p@.len(),
                ));
                assert(matches_at(s@, p@, k as int));
                assert(k + p.len() <= s.len());
                i = k + p.len();
            },
            None => {
                let piece = slice_chars(s, i, s.len());
                let ghost before = r@;
                push_all(&mut r, &piece);
                assert(before + replace_from(s@, p@, q@, i as int) =~= r@);
                return r;
            },
        }
    }
}

// ---------------------------------------------------------------------------
// Lines
// ---------------------------------------------------------------------------

/// The end of the line that starts at `i`: the index of the next `'\n'`, or the length.
pub open spec fn line_end(s: Seq<char>, i: int) -> int {
    match find_char_from(s, '\n', i) {
        Some(k) => k,
        None => s.len() as int,
    }
}

/// A line's text without the `'\r'` of a `"\r\n"` terminator.
pub open spec fn strip_cr(line: Seq<char>, terminated: bool) -> Seq<char> {
    if terminated && line.len() > 0 && line.last() == '\r' {
        line.drop_last()
    } else {
        line
    }
}

/// `str::lines` from index `i` on.
pub open spec fn lines_from(s: Seq<char>, i: int) -> Seq<Seq<char>>
    decreases s.len() - i,
{
    if i < 0 || i >= s.len() {
        Seq::empty()
    } else {
        let e = line_end(s, i);
        if e < s.len() && e >= i {
            seq![strip_cr(s.subrange(i, e), true)] + lines_from(s, e + 1)
        } else {
            seq![s.subrange(i, s.len() as int)]
        }
    }
}

/// `str::lines`: the lines of `s`, split at `'\n'`, a `'\r'` before the `'\n'`
/// dropped, and no empty line after a final line terminator.
pub open spec fn lines(s: Seq<char>) -> Seq<Seq<char>> {
    lines_from(s, 0)
}

pub proof fn lemma_line_end_bounds(s: Seq<char>, i: int)
    requires
        0 <= i <= s.len(),
    ensures
        i <= line_end(s, i) <= s.len(),
        line_end(s, i) < s.len() ==> s[line_end(s, i)] == '\n',
        forall|k: int| i <= k < line_end(s, i) ==> s[k] != '\n',
{
    lemma_find_char_from_bounds(s, '\n', i);
}

/// Splits `s` into its lines as `str::lines` does.
pub fn lines_exec(s: &Vec<char>) -> (r: Vec<Vec<char>>)
    ensures
        r@.len() == lines(s@).len(),
        forall|k: int| 0 <= k < r@.len() ==> #[trigger] r@[k]@ == lines(s@)[k],
{
    let mut r: Vec<Vec<char>> = Vec::new();
    let mut i: usize = 0;
    let ghost done: Seq<Seq<char>> = Seq::empty();
    while i < s.len()
        invariant
            i <= s@.len(),
            lines(s@) == done + lines_from(s@, i as int),
            r@.len() == done.len(),
            forall|k: int| 0 <= k < r@.len() ==> #[trigger] r@[k]@ == done[k],
        decreases s@.len() - i,
    {
        proof {
            lemma_line_end_bounds(s@, i as int);
        }
        let e = match find_char_from_exec(s, '\n', i) {
            Some(k) => k,
            None => s.len(),
        };
        if e < s.len() {
            let mut line = slice_chars(s, i, e);
            let ghost raw = line@;
            if line.len() > 0 && line[line.len() - 1] == '\r' {
                line.pop();
                assert(line@ =~= raw.drop_last());
            }
            proof {
                assert(line@ == strip_cr(s@.subrange(i as int, e as int), true));
                assert(lines_from(s@, i as int) == seq![line@] + lines_from(s@, e + 1));
                assert(done + lines_from(s@, i as int) =~= done.push(line@) + lines_from(
                    s@,
                    e + 1,
                ));
                done = done.push(line@);
            }
            r.push(line);
            i = e + 1;
        } else {
            let line = slice_chars(s, i, s.len());
            proof {
                assert(lines_from(s@, i as int) == seq![line@]);
                assert(lines_from(s@, s@.len() as int) == Seq::<Seq<char>>::empty());
                assert(done + lines_from(s@, i as int) =~= done.push(line@) + lines_from(
                    s@,
                    s@.len() as int,
                ));
                done = done.push(line@);
            }
            r.push(line);
            i = s.len();
        }
    }
    proof {
        assert(lines_from(s@, i as int) == Seq::<Seq<char>>::empty());
        assert(done + Seq::<Seq<char>>::empty() =~= done);
    }
    r
}

// ---------------------------------------------------------------------------
// Numbers
// ---------------------------------------------------------------------------

/// All characters of `s` are ASCII digits.
pub open spec fn all_digits(s: Seq<char>) -> bool {
    forall|i: int| 0 <= i < s.len() ==> is_digit(#[trigger] s[i])
}

/// The value of a sequence of ASCII digits, read in base ten.
pub open spec fn digits_value(s: Seq<char>) -> int
    decreases s.len(),
{
    if s.len() == 0 {
        0
    } else {
        digits_value(s.drop_last()) * 10 + digit_value(s.last())
    }
}

/// The digits of a number text: what follows an optional leading `'+'`.
pub open spec fn unsigned_digits(s: Seq<char>) -> Seq<char> {
    if s.len() > 0 && s[0] == '+' { s.drop_first() } else { s }
}

/// `str::parse::<usize>`: an optional `'+'`, then at least one ASCII digit, with a
/// value that fits in `usize`.
pub open spec fn parse_usize(s: Seq<char>) -> Option<usize> {
    let d = unsigned_digits(s);
    if d.len() > 0 && all_digits(d) && digits_value(d) <= usize::MAX {
        Some(digits_value(d) as usize)
    } else {
        None
    }
}

/// `str::parse::<u64>`: an optional `'+'`, then at least one ASCII digit, with a
/// value that fits in `u64`.
pub open spec fn parse_u64(s: Seq<char>) -> Option<u64> {
    let d = unsigned_digits(s);
    if d.len() > 0 && all_digits(d) && digits_value(d) <= u64::MAX {
        Some(digits_value(d) as u64)
    } else {
        None
    }
}

pub proof fn lemma_digits_value_nonneg(s: Seq<char>)
    requires
        all_digits(s),
    ensures
        digits_value(s) >= 0,
    decreases s.len(),
{
    if s.len() > 0 {
        assert(all_digits(s.drop_last())) by {
            assert forall|i: int| 0 <= i < s.drop_last().len() implies is_digit(
                #[trigger] s.drop_last()[i],
            ) by {
                assert(s.drop_last()[i] == s[i]);
            }
        }
        lemma_digits_value_nonneg(s.drop_last());
        assert(is_digit(s[s.len() - 1]));
    }
}

/// Parses a decimal number as `str::parse::<u64>` does.
pub fn parse_u64_exec(s: &Vec<char>) -> (r: Option<u64>)
    ensures
        r == parse_u64(s@),
{
    let start: usize = if s.len() > 0 && s[0] == '+' { 1 } else { 0 };
    let ghost d = if s@.len() > 0 && s@[0] == '+' { s@.drop_first() } else { s@ };
    assert(d =~= s@.subrange(start as int, s@.len() as int));
    if start >= s.len() {
        assert(d.len() == 0);
        return None;
    }
    let mut acc: u64 = 0;
    let mut i: usize = start;
    let mut overflow = false;
    while i < s.len()
        invariant
            start <= i <= s@.len(),
            d == (if s@.len() > 0 && s@[0] == '+' { s@.drop_first() } else { s@ }),
            d =~= s@.subrange(start as int, s@.len() as int),
            all_digits(s@.subrange(start as int, i as int)),
            !overflow ==> acc == digits_value(s@.subrange(start as int, i as int)),
            overflow ==> digits_value(s@.subrange(start as int, i as int)) > u64::MAX,
        decreases s@.len() - i,
    {
        let c = s[i];
        if !('0' <= c && c <= '9') {
            assert(!all_digits(d)) by {
                assert(d[i - start] == c);
                assert(!is_digit(d[i - start]));
            }
            return None;
        }
        let ghost prev = s@.subrange(start as int, i as int);
        let ghost next = s@.subrange(start as int, i + 1);
        assert(next.drop_last() =~= prev);
        assert(next.last() == c);
        assert(all_digits(next)) by {
            assert forall|j: int| 0 <= j < next.len() implies is_digit(#[trigger] next[j]) by {
                if j < prev.len() {
                    assert(next[j] == prev[j]);
                }
            }
        }
        let dv = (c as u32 - '0' as u32) as u64;
        assert(dv == digit_value(c));
        if overflow {
            proof {
                lemma_digits_value_nonneg(prev);
                assert(digits_value(next) == digits_value(prev) * 10 + dv);
            }
        } else if acc > (u64::MAX - dv) / 10 {
            proof {
                assert(digits_value(next) == acc * 10 + dv);
                assert(acc * 10 + dv > u64::MAX) by (nonlinear_arith)
                    requires
                        acc > (u64::MAX - dv) / 10,
                        dv <= 9,
                ;
            }
            overflow = true;
        } else {
            assert(acc * 10 + dv <= u64::MAX) by (nonlinear_arith)
                requires
                    acc <= (u64::MAX - dv) / 10,
                    dv <= 9,
            ;
            acc = acc * 10 + dv;
        }
        i = i + 1;
    }
    assert(s@.subrange(start as int, i as int) =~= d);
    if overflow {
        None
    } else {
        Some(acc)
    }
}

/// Parses a decimal number as `str::parse::<usize>` does.
pub fn parse_usize_exec(s: &Vec<char>) -> (r: Option<usize>)
    ensures
        r == parse_usize(s@),
{
    assert(usize::MAX <= u64::MAX);
    proof {
        let d = unsigned_digits(s@);
        if all_digits(d) {
            lemma_digits_value_nonneg(d);
        }
    }
    match parse_u64_exec(s) {
        Some(v) => {
            if v <= usize::MAX as u64 {
                Some(v as usize)
            } else {
                None
            }
        },
        None => None,
    }
}

/// The decimal text of `n`, as `format!("{}", n)` writes it.
pub open spec fn decimal(n: nat) -> Seq<char>
    decreases n,
{
    if n < 10 {
        seq![digit_char(n)]
    } else {
        decimal(n / 10).push(digit_char(n % 10))
    }
}

/// The ASCII digit for a value below ten.
pub open spec fn digit_char(d: nat) -> char {
    if d == 0 {
        '0'
    } else if d == 1 {
        '1'
    } else if d == 2 {
        '2'
    } else if d == 3 {
        '3'
    } else if d == 4 {
        '4'
    } else if d == 5 {
        '5'
    } else if d == 6 {
        '6'
    } else if d == 7 {
        '7'
    } else if d == 8 {
        '8'
    } else {
        '9'
    }
}

fn digit_char_exec(d: usize) -> (c: char)
    requires
        d < 10,
    ensures
        c == digit_char(d as nat),
{
    if d == 0 {
        '0'
    } else if d == 1 {
        '1'
    } else if d == 2 {
        '2'
    } else if d == 3 {
        '3'
    } else if d == 4 {
        '4'
    } else if d == 5 {
        '5'
    } else if d == 6 {
        '6'
    } else if d == 7 {
        '7'
    } else if d == 8 {
        '8'
    } else {
        '9'
    }
}

/// The decimal text of a number is made of digits, and is not empty.
pub proof fn lemma_decimal_digits(n: nat)
    ensures
        decimal(n).len() > 0,
        forall|i: int| 0 <= i < decimal(n).len() ==> is_digit(#[trigger] decimal(n)[i]),
    decreases n,
{
    if n >= 10 {
        lemma_decimal_digits(n / 10);
        let d = decimal(n / 10);
        assert forall|i: int| 0 <= i < decimal(n).len() implies is_digit(#[trigger] decimal(n)[i]) by {
            if i < d.len() {
                assert(decimal(n)[i] == d[i]);
            }
        }
    }
}

/// Appends the decimal text of `n` to `out`.
pub fn push_decimal(out: &mut Vec<char>, n: usize)
    ensures
        final(out)@ == old(out)@ + decimal(n as nat),
    decreases n,
{
    if n < 10 {
        out.push(digit_char_exec(n));
        assert(old(out)@.push(digit_char(n as nat)) =~= old(out)@ + decimal(n as nat));
    } else {
        push_decimal(out, n / 10);
        out.push(digit_char_exec(n % 10));
        assert(old(out)@ + decimal((n / 10) as nat) + seq![digit_char((n % 10) as nat)]
            =~= old(out)@ + decimal(n as nat));
    }
}

// ---------------------------------------------------------------------------
// Building text
// ---------------------------------------------------------------------------

/// Appends all of `t` to `out`.
pub fn push_all(out: &mut Vec<char>, t: &Vec<char>)
    ensures
        final(out)@ == old(out)@ + t@,
{
    let mut i: usize = 0;
    while i < t.len()
        invariant
            i <= t@.len(),
            out@ == old(out)@ + t@.subrange(0, i as int),
        decreases t@.len() - i,
    {
        out.push(t[i]);
        i = i + 1;
        assert(out@ =~= old(out)@ + t@.subrange(0, i as int));
    }
    assert(t@.subrange(0, t@.len() as int) =~= t@);
}

/// Appends the characters of a string slice to `out`.
pub fn push_str(out: &mut Vec<char>, s: &str)
    ensures
        final(out)@ == old(out)@ + s@,
{
    let t = chars_of(s);
    push_all(out, &t);
}

/// Collects the characters of a string slice into a vector.
pub fn chars_of(s: &str) -> (v: Vec<char>)
    ensures
        v@ == s@,
{
    let mut v: Vec<char> = Vec::new();
    for c in it: s.chars()
        invariant
            v@ == it.seq().take(it.index() as int),
    {
        v.push(c);
    }
    v
}

/// Appends one character to a `String`.
#[verifier::external_body]
fn string_push(s: &mut String, c: char)
    ensures
        final(s)@ == old(s)@.push(c),
{
    s.push(c);
}

/// Builds a `String` from characters.
pub fn to_string(v: &Vec<char>) -> (s: String)
    ensures
        s@ == v@,
{
    let mut s = String::new();
    let mut i: usize = 0;
    while i < v.len()
        invariant
            i <= v@.len(),
            s@ == v@.subrange(0, i as int),
        decreases v@.len() - i,
    {
        string_push(&mut s, v[i]);
        i = i + 1;
        assert(s@ =~= v@.subrange(0, i as int));
    }
    assert(v@.subrange(0, v@.len() as int) =~= v@);
    s
}

/// A `String` holding the characters of `s`.
pub fn owned(s: &str) -> (r: String)
    ensures
        r@ == s@,
{
    s.to_owned()
}

/// Whether two texts are equal.
pub fn same_text(a: &Vec<char>, b: &Vec<char>) -> (r: bool)
    ensures
        r == (a@ == b@),
{
    if a.len() != b.len() {
        return false;
    }
    let mut i: usize = 0;
    while i < a.len()
        invariant
            a@.len() == b@.len(),
            i <= a@.len(),
            forall|j: int| 0 <= j < i ==> a@[j] == b@[j],
        decreases a@.len() - i,
    {
        if a[i] != b[i] {
            return false;
        }
        i = i + 1;
    }
    assert(a@ =~= b@);
    true
}


// ---------------------------------------------------------------------------
// Runs of one character at the end, and the piece after the last separator
// ---------------------------------------------------------------------------

/// The end of `s.subrange(0, j)` once its trailing run of `c` is dropped.
pub open spec fn trailing_run_start(s: Seq<char>, c: char, j: int) -> int
    decreases j,
{
    if j <= 0 || j > s.len() {
        0
    } else if s[j - 1] == c {
        trailing_run_start(s, c, j - 1)
    } else {
        j
    }
}

/// `str::trim_end_matches(c)`: every trailing `c` removed.
pub open spec fn trim_end_char(s: Seq<char>, c: char) -> Seq<char> {
    s.subrange(0, trailing_run_start(s, c, s.len() as int))
}

pub proof fn lemma_trailing_run_start(s: Seq<char>, c: char, j: int)
    requires
        0 <= j <= s.len(),
    ensures
        0 <= trailing_run_start(s, c, j) <= j,
        trailing_run_start(s, c, j) > 0 ==> s[trailing_run_start(s, c, j) - 1] != c,
        forall|k: int| trailing_run_start(s, c, j) <= k < j ==> s[k] == c,
    decreases j,
{
    if j > 0 && s[j - 1] == c {
        lemma_trailing_run_start(s, c, j - 1);
    }
}

/// Removes every trailing `c`.
pub fn trim_end_char_exec(s: &Vec<char>, c: char) -> (r: Vec<char>)
    ensures
        r@ == trim_end_char(s@, c),
{
    let mut b: usize = s.len();
    while b > 0 && s[b - 1] == c
        invariant
            b <= s@.len(),
            trailing_run_start(s@, c, s@.len() as int) == trailing_run_start(s@, c, b as int),
        decreases b,
    {
        b = b - 1;
    }
    slice_chars(s, 0, b)
}

/// The index of the last `c` in `s.subrange(0, j)`, or -1 where there is none.
pub open spec fn last_index_of(s: Seq<char>, c: char, j: int) -> int
    decreases j,
{
    if j <= 0 || j > s.len() {
        -1
    } else if s[j - 1] == c {
        j - 1
    } else {
        last_index_of(s, c, j - 1)
    }
}

/// The first piece of `str::rsplit(c)`: the text after the last `c`, or all of `s`.
pub open spec fn after_last(s: Seq<char>, c: char) -> Seq<char> {
    s.subrange(last_index_of(s, c, s.len() as int) + 1, s.len() as int)
}

pub proof fn lemma_last_index_of(s: Seq<char>, c: char, j: int)
    requires
        0 <= j <= s.len(),
    ensures
        -1 <= last_index_of(s, c, j) < j,
        last_index_of(s, c, j) >= 0 ==> s[last_index_of(s, c, j)] == c,
        forall|k: int| last_index_of(s, c, j) < k < j ==> s[k] != c,
    decreases j,
{
    if j > 0 && s[j - 1] != c {
        lemma_last_index_of(s, c, j - 1);
    }
}

/// The text after the last `c` in `s`, or all of `s`.
pub fn after_last_exec(s: &Vec<char>, c: char) -> (r: Vec<char>)
    ensures
        r@ == after_last(s@, c),
{
    let mut j: usize = s.len();
    while j > 0 && s[j - 1] != c
        invariant
            j <= s@.len(),
            last_index_of(s@, c, s@.len() as int) == last_index_of(s@, c, j as int),
        decreases j,
    {
        j = j - 1;
    }
    slice_chars(s, j, s.len())
}


/// `trim_end_matches(p)`: every trailing copy of `p` removed.
pub open spec fn strip_all_suffix(s: Seq<char>, p: Seq<char>) -> Seq<char>
    decreases s.len(),
{
    if p.len() > 0 && ends_with(s, p) {
        strip_all_suffix(s.subrange(0, s.len() - p.len()), p)
    } else {
        s
    }
}

pub fn strip_all_suffix_exec(s: &Vec<char>, p: &Vec<char>) -> (r: Vec<char>)
    ensures
        r@ == strip_all_suffix(s@, p@),
{
    let mut j: usize = s.len();
    assert(s@.subrange(0, s@.len() as int) =~= s@);
    while p.len() > 0 && j >= p.len() && matches_at_exec(s, p, j - p.len())
        invariant
            j <= s@.len(),
            strip_all_suffix(s@, p@) == strip_all_suffix(s@.subrange(0, j as int), p@),
        decreases j,
    {
        let ghost pre = s@.subrange(0, j as int);
        assert(pre.subrange(pre.len() - p@.len(), pre.len() as int) =~= s@.subrange(
            j - p@.len(),
            j as int,
        ));
        assert(pre.subrange(0, pre.len() - p@.len()) =~= s@.subrange(0, j - p@.len()));
        j = j - p.len();
    }
    let r = slice_chars(s, 0, j);
    proof {
        let pre = s@.subrange(0, j as int);
        if p@.len() > 0 && ends_with(pre, p@) {
            assert(pre.subrange(pre.len() - p@.len(), pre.len() as int) =~= s@.subrange(
                j - p@.len(),
                j as int,
            ));
            assert(matches_at(s@, p@, j - p@.len()));
        }
    }
    r
}

/// The text after the first `c`, or nothing where there is none.
pub open spec fn after_first(s: Seq<char>, c: char) -> Seq<char> {
    match find_char_from(s, c, 0) {
        Some(k) => s.subrange(k + 1, s.len() as int),
        None => Seq::empty(),
    }
}

pub fn after_first_exec(s: &Vec<char>, c: char) -> (r: Vec<char>)
    ensures
        r@ == after_first(s@, c),
{
    proof {
        lemma_find_char_from_bounds(s@, c, 0);
    }
    match find_char_from_exec(s, c, 0) {
        Some(k) => {
            assert(k < s.len());
            suffix_from(s, k + 1)
        },
        None => Vec::new(),
    }
}

// ---------------------------------------------------------------------------
// Lemmas on lines and trimming
// ---------------------------------------------------------------------------

/// The first `c` from `i` on is the same in a text and in any text that extends it,
/// where the shorter text holds one.
pub proof fn lemma_find_char_extended(t: Seq<char>, s: Seq<char>, c: char, i: int)
    requires
        0 <= i,
        t.len() <= s.len(),
        s.subrange(0, t.len() as int) == t,
        find_char_from(t, c, i) is Some,
    ensures
        find_char_from(s, c, i) == find_char_from(t, c, i),
    decreases t.len() - i,
{
    assert(s[i] == s.subrange(0, t.len() as int)[i]);
    if t[i] != c {
        lemma_find_char_extended(t, s, c, i + 1);
    }
}

/// The lines of `t + l + "\n"` from a line start `i` of `t`: those of `t`, then `l`.
proof fn lemma_lines_from_append(t: Seq<char>, l: Seq<char>, i: int)
    requires
        0 <= i <= t.len(),
        i == 0 || t[i - 1] == '\n',
        t.len() == 0 || t.last() == '\n',
        !has_char(l, '\n'),
        !(l.len() > 0 && l.last() == '\r'),
    ensures
        lines_from(t + l + seq!['\n'], i) == lines_from(t, i).push(l),
    decreases t.len() - i,
{
    let s = t + l + seq!['\n'];
    assert(s.subrange(0, t.len() as int) =~= t);
    lemma_find_char_from_bounds(l, '\n', 0);
    if i == t.len() {
        assert forall|k: int| i <= k < s.len() - 1 implies s[k] != '\n' by {
            assert(s[k] == l[k - i]);
        }
        lemma_find_char_from_bounds(s, '\n', i);
        assert(s[s.len() - 1] == '\n');
        let e = line_end(s, i);
        assert(e == s.len() - 1) by {
            match find_char_from(s, '\n', i) {
                Some(k) => {
                    if k < s.len() - 1 {
                        assert(s[k] != '\n');
                    }
                    if k > s.len() - 1 {
                        assert(s[s.len() - 1] != '\n');
                    }
                },
                None => {
                    assert(s[s.len() - 1] != '\n');
                },
            }
        }
        assert(s.subrange(i, e) =~= l);
        assert(lines_from(s, e + 1) =~= Seq::<Seq<char>>::empty());
        assert(lines_from(t, i) =~= Seq::<Seq<char>>::empty());
        assert(lines_from(s, i) =~= seq![l]);
    } else {
        assert(t[t.len() - 1] == '\n');
        lemma_find_char_from_bounds(t, '\n', i);
        assert(find_char_from(t, '\n', i) is Some) by {
            if find_char_from(t, '\n', i) is None {
                assert(t[t.len() - 1] != '\n');
            }
        }
        lemma_find_char_extended(t, s, '\n', i);
        let e = line_end(t, i);
        assert(line_end(s, i) == e);
        assert(s.subrange(i, e) =~= t.subrange(i, e));
        lemma_lines_from_append(t, l, e + 1);
    }
}

/// Appending a line and its line break to a text that ends a line appends the line.
pub proof fn lemma_lines_append(t: Seq<char>, l: Seq<char>)
    requires
        t.len() == 0 || t.last() == '\n',
        !has_char(l, '\n'),
        !(l.len() > 0 && l.last() == '\r'),
    ensures
        lines(t + l + "\n"@) == lines(t).push(l),
{
    reveal_strlit("\n");
    assert("\n"@ =~= seq!['\n']);
    lemma_lines_from_append(t, l, 0);
}

/// White space in front of a text does not change its trimmed form.
pub proof fn lemma_trim_after_space(w: Seq<char>, d: Seq<char>)
    requires
        forall|k: int| 0 <= k < w.len() ==> is_ws(#[trigger] w[k]),
    ensures
        trim(w + d) == trim(d),
{
    let s = w + d;
    lemma_skip_past_ws(s, w.len() as int, 0);
    lemma_skip_ws_from_bounds(d, 0);
    lemma_skip_ws_from_bounds(s, 0);
    lemma_skip_shift(w, d, 0);
    assert(trim_start(s) =~= trim_start(d));
}

proof fn lemma_skip_past_ws(s: Seq<char>, n: int, i: int)
    requires
        0 <= i <= n <= s.len(),
        forall|k: int| i <= k < n ==> is_ws(#[trigger] s[k]),
    ensures
        skip_ws_from(s, i) == skip_ws_from(s, n),
    decreases n - i,
{
    if i < n {
        lemma_skip_past_ws(s, n, i + 1);
    }
}

proof fn lemma_skip_shift(w: Seq<char>, d: Seq<char>, j: int)
    requires
        0 <= j <= d.len(),
    ensures
        skip_ws_from(w + d, w.len() + j) == w.len() + skip_ws_from(d, j),
    decreases d.len() - j,
{
    if j < d.len() {
        assert((w + d)[w.len() + j] == d[j]);
        if is_ws(d[j]) {
            lemma_skip_shift(w, d, j + 1);
        }
    }
}

/// The first `c` from `i` on is at `k` when `s[k]` is `c` and no `c` comes before.
pub proof fn lemma_find_char_at(s: Seq<char>, c: char, i: int, k: int)
    requires
        0 <= i <= k < s.len(),
        s[k] == c,
        forall|j: int| i <= j < k ==> s[j] != c,
    ensures
        find_char_from(s, c, i) == Some(k),
    decreases k - i,
{
    if i < k {
        lemma_find_char_at(s, c, i + 1, k);
    }
}

/// A trimmed text that is not empty ends with a character that is not white space.
pub proof fn lemma_trim_last(s: Seq<char>)
    ensures
        trim(s).len() > 0 ==> !is_ws(trim(s).last()),
{
    let t = trim_start(s);
    lemma_skip_ws_from_bounds(s, 0);
    lemma_trailing_ws_start_bounds(t, t.len() as int);
}
/// Trimming a trimmed text leaves it as it is, and trimming keeps a part of the
/// text: every character of `trim(s)` is one of `s`'s.
pub proof fn lemma_trim_idempotent(s: Seq<char>)
    ensures
        trim(trim(s)) == trim(s),
        trim(s).len() <= s.len(),
        forall|i: int| 0 <= i < trim(s).len() ==> exists|j: int| 0 <= j < s.len() && #[trigger] trim(s)[i] == s[j],
{
    let t = trim_start(s);
    lemma_skip_ws_from_bounds(s, 0);
    lemma_trailing_ws_start_bounds(t, t.len() as int);
    let a = skip_ws_from(s, 0);
    let r = trim(s);
    assert forall|i: int| 0 <= i < r.len() implies exists|j: int| 0 <= j < s.len() && #[trigger] r[i] == s[j] by {
        assert(r[i] == s[a + i]);
    }
    if r.len() > 0 {
        assert(r[0] == s[a]);
        lemma_trim_last(s);
        lemma_trim_unchanged(r);
    } else {
        lemma_skip_ws_from_bounds(r, 0);
        let t2 = trim_start(r);
        lemma_trailing_ws_start_bounds(t2, t2.len() as int);
        assert(trim(r) =~= r);
    }
}
proof fn lemma_skip_before_push(d: Seq<char>, c: char, i: int)
    requires
        0 <= i <= d.len(),
        is_ws(c),
    ensures
        skip_ws_from(d.push(c), i) == if skip_ws_from(d, i) < d.len() { skip_ws_from(d, i) } else { d.len() + 1int },
    decreases d.len() - i,
{
    let s = d.push(c);
    if i == d.len() {
        assert(s[i] == c);
        assert(skip_ws_from(s, i + 1) == s.len());
    } else {
        assert(s[i] == d[i]);
        if is_ws(d[i]) {
            lemma_skip_before_push(d, c, i + 1);
        }
    }
}

proof fn lemma_trailing_before_push(t: Seq<char>, c: char, j: int)
    requires
        0 <= j <= t.len(),
    ensures
        trailing_ws_start(t.push(c), j) == trailing_ws_start(t, j),
    decreases j,
{
    if j > 0 {
        assert(t.push(c)[j - 1] == t[j - 1]);
        lemma_trailing_before_push(t, c, j - 1);
    }
}

/// White space after a text does not change its trimmed form.
pub proof fn lemma_trim_before_space(d: Seq<char>, c: char)
    requires
        is_ws(c),
    ensures
        trim(d.push(c)) == trim(d),
{
    let s = d.push(c);
    lemma_skip_before_push(d, c, 0);
    lemma_skip_ws_from_bounds(d, 0);
    let a0 = skip_ws_from(d, 0);
    if a0 < d.len() {
        let t = trim_start(d);
        assert(trim_start(s) =~= t.push(c));
        lemma_trailing_before_push(t, c, t.len() as int);
        let tp = t.push(c);
        assert(tp[tp.len() - 1] == c);
        assert(trailing_ws_start(tp, tp.len() as int) == trailing_ws_start(tp, t.len() as int));
        lemma_trailing_ws_start_bounds(t, t.len() as int);
        assert(trim_end(tp) =~= trim_end(t));
    } else {
        assert(trim_start(s) =~= Seq::<char>::empty());
        assert(trim_start(d) =~= Seq::<char>::empty());
    }
}
} // verus!
