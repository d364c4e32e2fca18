//! The counts of a finished book: characters, words, chapters and scenes, with the
//! averages and estimates drawn from them, and the time a run took as text.
use vstd::prelude::*;
use crate::book::{Book, Chapter, Scene};
use crate::render::{words_exec, words_from};
use crate::text::{chars_of, decimal, push_decimal, push_str, to_string};

verus! {

/// The characters of the first `k` scenes' texts.
pub open spec fn scene_chars(ss: Seq<Scene>, k: int) -> nat
    decreases k,
{
    if k <= 0 || k > ss.len() {
        0
    } else {
        scene_chars(ss, k - 1) + ss[k - 1].content.text@.len()
    }
}

/// The words of the first `k` scenes' texts, as `split_whitespace` counts them.
pub open spec fn scene_words(ss: Seq<Scene>, k: int) -> nat
    decreases k,
{
    if k <= 0 || k > ss.len() {
        0
    } else {
        scene_words(ss, k - 1) + words_from(ss[k - 1].content.text@, 0).len()
    }
}

/// The characters of the first `k` chapters' scenes.
pub open spec fn book_chars(chs: Seq<Chapter>, k: int) -> nat
    decreases k,
{
    if k <= 0 || k > chs.len() {
        0
    } else {
        book_chars(chs, k - 1) + scene_chars(chs[k - 1].scenes@, chs[k - 1].scenes@.len() as int)
    }
}

/// The words of the first `k` chapters' scenes.
pub open spec fn book_words(chs: Seq<Chapter>, k: int) -> nat
    decreases k,
{
    if k <= 0 || k > chs.len() {
        0
    } else {
        book_words(chs, k - 1) + scene_words(chs[k - 1].scenes@, chs[k - 1].scenes@.len() as int)
    }
}

/// The scenes of the first `k` chapters.
pub open spec fn book_scenes(chs: Seq<Chapter>, k: int) -> nat
    decreases k,
{
    if k <= 0 || k > chs.len() {
        0
    } else {
        book_scenes(chs, k - 1) + chs[k - 1].scenes@.len()
    }
}

/// `a / b` rounded up.
pub open spec fn ceil_div(a: nat, b: nat) -> nat {
    if a % b == 0 {
        a / b
    } else {
        a / b + 1
    }
}

/// The counts of a book.
#[derive(Debug, Clone, Copy)]
pub struct BookCounts {
    pub total_characters: usize,
    pub total_words: usize,
    pub total_chapters: usize,
    pub total_scenes: usize,
    pub avg_words_per_chapter: usize,
    pub avg_words_per_scene: usize,
    /// At 275 words a page.
    pub estimated_pages: usize,
    /// At 250 words a minute.
    pub reading_time_minutes: usize,
}

impl BookCounts {
    /// Counts a book: the characters and words of all its scenes' texts, its
    /// chapters and scenes, the average words per chapter and per scene (0 where
    /// there are none), and its pages and reading time, rounded up.
    pub fn of(book: &Book) -> (r: BookCounts)
        requires
            book_chars(book.chapters@, book.chapters@.len() as int) <= usize::MAX,
            book_words(book.chapters@, book.chapters@.len() as int) <= usize::MAX,
            book_scenes(book.chapters@, book.chapters@.len() as int) <= usize::MAX,
        ensures
            r.total_characters == book_chars(book.chapters@, book.chapters@.len() as int),
            r.total_words == book_words(book.chapters@, book.chapters@.len() as int),
            r.total_chapters == book.chapters@.len(),
            r.total_scenes == book_scenes(book.chapters@, book.chapters@.len() as int),
            r.avg_words_per_chapter == if r.total_chapters > 0 { r.total_words / r.total_chapters } else { 0 },
            r.avg_words_per_scene == if r.total_scenes > 0 { r.total_words / r.total_scenes } else { 0 },
            r.estimated_pages == ceil_div(r.total_words as nat, 275),
            r.reading_time_minutes == ceil_div(r.total_words as nat, 250),
    {
        let chs = &book.chapters;
        let mut characters: usize = 0;
        let mut words: usize = 0;
        let mut scenes: usize = 0;
        let mut i: usize = 0;
        while i < chs.len()
            invariant
                i <= chs@.len(),
                book_chars(chs@, chs@.len() as int) <= usize::MAX,
                book_words(chs@, chs@.len() as int) <= usize::MAX,
                book_scenes(chs@, chs@.len() as int) <= usize::MAX,
                characters == book_chars(chs@, i as int),
                words == book_words(chs@, i as int),
                scenes == book_scenes(chs@, i as int),
            decreases chs@.len() - i,
        {
            proof {
                lemma_book_sums_grow(chs@, i + 1, chs@.len() as int);
            }
            let ss = &chs[i].scenes;
            scenes = scenes + ss.len();
            let mut j: usize = 0;
            while j < ss.len()
                invariant
                    j <= ss@.len(),
                    i < chs@.len(),
                    ss@ == chs@[i as int].scenes@,
                    book_chars(chs@, i + 1) <= usize::MAX,
                    book_words(chs@, i + 1) <= usize::MAX,
                    characters == book_chars(chs@, i as int) + scene_chars(ss@, j as int),
                    words == book_words(chs@, i as int) + scene_words(ss@, j as int),
                decreases ss@.len() - j,
            {
                proof {
                    lemma_scene_sums_grow(ss@, j + 1, ss@.len() as int);
                }
                let text = chars_of(ss[j].content.text.as_str());
                let w = words_exec(&text);
                assert(w@.len() == words_from(text@, 0).len()) by {
                    assert(w@.map_values(|x: Vec<char>| x@).len() == w@.len());
                }
                characters = characters + text.len();
                words = words + w.len();
                j = j + 1;
            }
            i = i + 1;
        }
        let chapters = chs.len();
        let avg_chapter = if chapters > 0 { words / chapters } else { 0 };
        let avg_scene = if scenes > 0 { words / scenes } else { 0 };
        let pages = if words % 275 == 0 { words / 275 } else { words / 275 + 1 };
        let minutes = if words % 250 == 0 { words / 250 } else { words / 250 + 1 };
        BookCounts {
            total_characters: characters,
            total_words: words,
            total_chapters: chapters,
            total_scenes: scenes,
            avg_words_per_chapter: avg_chapter,
            avg_words_per_scene: avg_scene,
            estimated_pages: pages,
            reading_time_minutes: minutes,
        }
    }
}

proof fn lemma_scene_sums_grow(ss: Seq<Scene>, k: int, n: int)
    requires
        0 <= k <= n <= ss.len(),
    ensures
        scene_chars(ss, k) <= scene_chars(ss, n),
        scene_words(ss, k) <= scene_words(ss, n),
    decreases n - k,
{
    if k < n {
        lemma_scene_sums_grow(ss, k, n - 1);
    }
}

proof fn lemma_book_sums_grow(chs: Seq<Chapter>, k: int, n: int)
    requires
        0 <= k <= n <= chs.len(),
    ensures
        book_chars(chs, k) <= book_chars(chs, n),
        book_words(chs, k) <= book_words(chs, n),
        book_scenes(chs, k) <= book_scenes(chs, n),
    decreases n - k,
{
    if k < n {
        lemma_book_sums_grow(chs, k, n - 1);
    }
}

/// A time in whole seconds as text: "{h}h {m}m {s}s", "{m}m {s}s" or "{s}s", by the
/// largest unit that is not zero.
pub open spec fn duration_text(secs: nat) -> Seq<char> {
    let h = secs / 3600;
    let m = (secs % 3600) / 60;
    let s = secs % 60;
    if h > 0 {
        decimal(h) + "h "@ + decimal(m) + "m "@ + decimal(s) + "s"@
    } else if m > 0 {
        decimal(m) + "m "@ + decimal(s) + "s"@
    } else {
        decimal(s) + "s"@
    }
}

/// Writes a time in whole seconds as text.
pub fn format_duration(secs: u64) -> (r: String)
    ensures
        r@ == duration_text(secs as nat),
{
    let h = secs / 3600;
    let m = (secs % 3600) / 60;
    let s = secs % 60;
    let mut out: Vec<char> = Vec::new();
    if h > 0 {
        push_decimal_u64(&mut out, h);
        push_str(&mut out, "h ");
        push_decimal_u64(&mut out, m);
        push_str(&mut out, "m ");
        push_decimal_u64(&mut out, s);
        push_str(&mut out, "s");
        assert(out@ =~= duration_text(secs as nat));
    } else if m > 0 {
        push_decimal_u64(&mut out, m);
        push_str(&mut out, "m ");
        push_decimal_u64(&mut out, s);
        push_str(&mut out, "s");
        assert(out@ =~= duration_text(secs as nat));
    } else {
        push_decimal_u64(&mut out, s);
        push_str(&mut out, "s");
        assert(out@ =~= duration_text(secs as nat));
    }
    to_string(&out)
}

/// Appends the decimal text of a 64-bit number.
fn push_decimal_u64(out: &mut Vec<char>, n: u64)
    ensures
        final(out)@ == old(out)@ + decimal(n as nat),
    decreases n,
{
    if n < 10 {
        push_decimal(out, n as usize);
    } else {
        push_decimal_u64(out, n / 10);
        let ghost mid = out@;
        push_decimal(out, (n % 10) as usize);
        assert(decimal((n % 10) as nat) == seq![crate::text::digit_char((n % 10) as nat)]);
        assert(old(out)@ + decimal((n / 10) as nat) + seq![crate::text::digit_char((n % 10) as nat)]
            =~= old(out)@ + decimal(n as nat));
    }
}

/// A duration's text adds back up to its seconds, naming the units from the largest
/// that is not zero: for `secs` made of `h` hours, `m` minutes and `s` seconds
/// (minutes and seconds below sixty), the text is "{s}s" below a minute,
/// "{m}m {s}s" below an hour, and "{h}h {m}m {s}s" from an hour on.
pub proof fn law_duration_text_adds_up(secs: nat, h: nat, m: nat, s: nat)
    requires
        secs == 3600 * h + 60 * m + s,
        m < 60,
        s < 60,
    ensures
        h == 0 && m == 0 ==> duration_text(secs) == decimal(s) + "s"@,
        h == 0 && m > 0 ==> duration_text(secs) == decimal(m) + "m "@ + decimal(s) + "s"@,
        h > 0 ==> duration_text(secs) == decimal(h) + "h "@ + decimal(m) + "m "@ + decimal(s) + "s"@,
{
    assert(secs / 3600 == h && secs % 3600 == 60 * m + s) by (nonlinear_arith)
        requires
            secs == 3600 * h + 60 * m + s,
            m < 60,
            s < 60,
    ;
    assert((60 * m + s) / 60 == m && (60 * m + s) % 60 == s) by (nonlinear_arith)
        requires
            s < 60,
    ;
    assert(secs % 60 == s) by (nonlinear_arith)
        requires
            secs == 3600 * h + 60 * m + s,
            s < 60,
    ;
}

} // verus!
