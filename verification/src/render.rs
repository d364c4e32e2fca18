//! The rendered book: the Markdown files of the HTML edition, and the single
//! Markdown document from which the PDF and EPUB editions are made.
use vstd::prelude::*;
use crate::book::{Book, Chapter, Scene};
use crate::chapter_body::{chapter_body, process_chapter_content};
use crate::text::{
    chars_of, contains, contains_exec, decimal, has_char, find, find_exec, lemma_find_from_bounds, lines,
    lines_exec, matches_at, push_all, push_decimal, push_str, same_text, skip_ws_from,
    slice_chars, split, split_exec, starts_with, starts_with_exec, suffix_from, to_string, trim,
    trim_end_char, trim_end_char_exec, trim_exec, word_end_from, is_whitespace,
    lemma_skip_ws_from_bounds, lemma_word_end_from_bounds,
};
use crate::titles::{cleaned_title, clean_chapter_title};
use crate::unicode::{to_uppercase, uppercase};

verus! {

// ---------------------------------------------------------------------------
// The HTML edition
// ---------------------------------------------------------------------------

/// Renders a book into its output directory.
#[derive(Debug)]
pub struct BookRenderer {
    pub output_dir: String,
}

/// The entries of the table of contents for the chapters from index `k` on.
pub open spec fn summary_lines(chs: Seq<Chapter>, k: int) -> Seq<char>
    decreases k,
{
    if k <= 0 || k > chs.len() {
        Seq::empty()
    } else {
        summary_lines(chs, k - 1) + "- ["@ + chs[k - 1].title@ + "](chapter_"@ + decimal(k as nat)
            + ".md)\n"@
    }
}

/// The table of contents: the statistics page, then each chapter's file.
pub open spec fn summary_text(b: Book) -> Seq<char> {
    "# Summary\n\n"@ + "- [Statistics](statistics.html)\n"@ + summary_lines(b.chapters@, b.chapters@.len() as int)
}

/// The text of a scene in the book: its text and a blank line.
pub open spec fn scene_text(s: Scene) -> Seq<char> {
    s.content.text@ + "\n\n"@
}

/// The texts of the first `k` scenes.
pub open spec fn scenes_body(ss: Seq<Scene>, k: int) -> Seq<char>
    decreases k,
{
    if k <= 0 || k > ss.len() {
        Seq::empty()
    } else {
        scenes_body(ss, k - 1) + scene_text(ss[k - 1])
    }
}

/// A chapter's Markdown file: its title as a heading, its description in italics,
/// then its scenes.
pub open spec fn chapter_markdown(c: Chapter) -> Seq<char> {
    "# "@ + c.title@ + "\n\n"@ + "*"@ + c.outline@.description + "*\n\n"@ + scenes_body(c.scenes@, c.scenes@.len() as int)
}

impl BookRenderer {
    /// A renderer that writes into `output_dir`.
    pub fn new(output_dir: String) -> (r: BookRenderer)
        ensures
            r.output_dir == output_dir,
    {
        BookRenderer { output_dir }
    }

    /// The table of contents (SUMMARY.md) of a book.
    pub fn generate_summary(&self, book: &Book) -> (r: String)
        ensures
            r@ == summary_text(*book),
    {
        let mut out = chars_of("# Summary\n\n");
        push_str(&mut out, "- [Statistics](statistics.html)\n");
        let ghost head = out@;
        let mut i: usize = 0;
        while i < book.chapters.len()
            invariant
                i <= book.chapters@.len(),
                out@ == head + summary_lines(book.chapters@, i as int),
            decreases book.chapters@.len() - i,
        {
            push_str(&mut out, "- [");
            push_str(&mut out, book.chapters[i].title.as_str());
            push_str(&mut out, "](chapter_");
            push_decimal(&mut out, i + 1);
            push_str(&mut out, ".md)\n");
            i = i + 1;
        }
        proof {
            assert("# Summary\n\n"@ + "- [Statistics](statistics.html)\n"@ == head);
        }
        to_string(&out)
    }

    /// A chapter's Markdown file.
    pub fn format_chapter(&self, chapter: &Chapter) -> (r: String)
        ensures
            r@ == chapter_markdown(*chapter),
    {
        let mut out = chars_of("# ");
        push_str(&mut out, chapter.title.as_str());
        push_str(&mut out, "\n\n");
        push_str(&mut out, "*");
        push_str(&mut out, chapter.outline.description.as_str());
        push_str(&mut out, "*\n\n");
        let ghost head = out@;
        let mut i: usize = 0;
        while i < chapter.scenes.len()
            invariant
                i <= chapter.scenes@.len(),
                out@ == head + scenes_body(chapter.scenes@, i as int),
            decreases chapter.scenes@.len() - i,
        {
            let s = self.format_scene(&chapter.scenes[i]);
            push_str(&mut out, s.as_str());
            i = i + 1;
        }
        to_string(&out)
    }

    /// A scene's text in its chapter's file.
    pub fn format_scene(&self, scene: &Scene) -> (r: String)
        ensures
            r@ == scene_text(*scene),
    {
        let mut out = chars_of(scene.content.text.as_str());
        push_str(&mut out, "\n\n");
        to_string(&out)
    }
}

// ---------------------------------------------------------------------------
// The table of contents, read back
// ---------------------------------------------------------------------------

/// An entry of the table of contents that is a chapter: "- [title](file)", not
/// indented, and none of the pages that the renderer adds itself: the statistics
/// page (the file "statistics.html") and the outline pages (titled "Outline" or
/// "Book Outline"). Gives the title and the file name.
pub open spec fn summary_entry(line: Seq<char>) -> Option<(Seq<char>, Seq<char>)> {
    let t = trim(line);
    if !starts_with(t, "- ["@) {
        None
    } else {
        let rest = t.subrange(3, t.len() as int);
        match find(rest, "]("@) {
            Some(k) => {
                let title = rest.subrange(0, k);
                let file = trim_end_char(rest.subrange(k + 2, rest.len() as int), ')');
                if starts_with(line, "  "@) || title == "Outline"@ || title == "Book Outline"@
                    || file == "statistics.html"@ {
                    None
                } else {
                    Some((title, file))
                }
            },
            None => None,
        }
    }
}

/// The chapter entries among the first `k` lines.
pub open spec fn summary_entries_in(ls: Seq<Seq<char>>, k: int) -> Seq<(Seq<char>, Seq<char>)>
    decreases k,
{
    if k <= 0 || k > ls.len() {
        Seq::empty()
    } else {
        let rest = summary_entries_in(ls, k - 1);
        match summary_entry(ls[k - 1]) {
            Some(e) => rest.push(e),
            None => rest,
        }
    }
}

fn summary_entry_exec(line: &Vec<char>) -> (r: Option<(Vec<char>, Vec<char>)>)
    ensures
        match summary_entry(line@) {
            Some((a, b)) => r matches Some((x, y)) && x@ == a && y@ == b,
            None => r is None,
        },
{
    proof {
        reveal_strlit("- [");
    }
    let t = trim_exec(line);
    if !starts_with_exec(&t, &chars_of("- [")) {
        return None;
    }
    let rest = suffix_from(&t, 3);
    let sep = chars_of("](");
    proof {
        lemma_find_from_bounds(rest@, sep@, 0);
        reveal_strlit("](");
    }
    match find_exec(&rest, &sep) {
        Some(k) => {
            assert(matches_at(rest@, sep@, k as int));
            assert(k + 2 <= rest.len());
            let title = slice_chars(&rest, 0, k);
            let file = trim_end_char_exec(&suffix_from(&rest, k + 2), ')');
            if starts_with_exec(line, &chars_of("  ")) || same_text(&title, &chars_of("Outline"))
                || same_text(&title, &chars_of("Book Outline")) || same_text(&file, &chars_of("statistics.html")) {
                None
            } else {
                Some((title, file))
            }
        },
        None => None,
    }
}

/// The chapters that a table of contents lists, as (title, file name), in order.
pub fn summary_chapters(summary: &str) -> (r: Vec<(String, String)>)
    ensures
        r@.map_values(|e: (String, String)| (e.0@, e.1@)) == summary_entries_in(lines(summary@), lines(summary@).len() as int),
{
    let ls = lines_exec(&chars_of(summary));
    let ghost all = lines(summary@);
    let mut out: Vec<(String, String)> = Vec::new();
    let mut i: usize = 0;
    while i < ls.len()
        invariant
            i <= ls@.len(),
            ls@.len() == all.len(),
            all == lines(summary@),
            forall|k: int| 0 <= k < ls@.len() ==> #[trigger] ls@[k]@ == all[k],
            out@.map_values(|e: (String, String)| (e.0@, e.1@)) == summary_entries_in(all, i as int),
        decreases ls@.len() - i,
    {
        assert(ls@[i as int]@ == all[i as int]);
        match summary_entry_exec(&ls[i]) {
            Some((a, b)) => {
                let ghost before = out@;
                out.push((to_string(&a), to_string(&b)));
                assert(out@.map_values(|e: (String, String)| (e.0@, e.1@)) =~= before.map_values(
                    |e: (String, String)| (e.0@, e.1@),
                ).push((a@, b@)));
            },
            None => {},
        }
        i = i + 1;
    }
    out
}

// ---------------------------------------------------------------------------
// The document for the PDF and EPUB editions
// ---------------------------------------------------------------------------

/// What was found of a chapter's file.
#[derive(Debug, Clone)]
pub enum ChapterSource {
    /// The file is in neither place where it is looked for.
    Missing,
    /// The file exists but could not be read.
    Unreadable,
    /// The file's text.
    Text(String),
}

/// A chapter's text with its first "# " heading left out, each line ended by a
/// line break: what is used where the cleaned text is empty.
pub open spec fn simple_text_from(ls: Seq<Seq<char>>, k: int) -> (Seq<char>, bool)
    decreases k,
{
    if k <= 0 || k > ls.len() {
        (Seq::empty(), true)
    } else {
        let (out, skip) = simple_text_from(ls, k - 1);
        let line = ls[k - 1];
        if starts_with(trim(line), "# "@) && skip {
            (out, false)
        } else {
            (out + line + "\n"@, skip)
        }
    }
}

pub open spec fn simple_text(content: Seq<char>) -> Seq<char> {
    simple_text_from(lines(content), lines(content).len() as int).0
}

/// The heading of chapter `num`: the cleaned title where it already starts with
/// "Chapter {num}", else "Chapter {num}: " and the title.
pub open spec fn chapter_heading_text(clean: Seq<char>, num: nat) -> Seq<char> {
    if starts_with(clean, "Chapter "@ + decimal(num)) {
        "# "@ + clean + "\n\n"@
    } else {
        "# Chapter "@ + decimal(num) + ": "@ + clean + "\n\n"@
    }
}

/// A chapter's section of the document: its heading, then its cleaned text (or,
/// where that is empty, its text without the first heading) and a page break; only
/// the heading where its file could not be read.
pub open spec fn chapter_section(num: nat, title: Seq<char>, source: ChapterSource, dirs: Seq<Seq<char>>, outlines: Seq<Seq<char>>) -> Seq<char> {
    let heading = chapter_heading_text(cleaned_title(title, dirs, outlines), num);
    match source {
        ChapterSource::Text(content) => {
            let processed = chapter_body(content@);
            let body = if trim(processed).len() == 0 {
                simple_text(content@)
            } else {
                processed
            };
            heading + body + "\n\n\\newpage\n\n"@
        },
        _ => heading,
    }
}

/// The sections of the first `k` chapters, with the titles already seen: a chapter
/// whose file is missing is skipped, and a title is used once only.
pub open spec fn sections_from(entries: Seq<(Seq<char>, ChapterSource)>, k: int, dirs: Seq<Seq<char>>, outlines: Seq<Seq<char>>) -> (Seq<char>, Seq<Seq<char>>)
    decreases k,
{
    if k <= 0 || k > entries.len() {
        (Seq::empty(), Seq::empty())
    } else {
        let (out, seen) = sections_from(entries, k - 1, dirs, outlines);
        let (title, source) = entries[k - 1];
        if source is Missing || seen.contains(title) {
            (out, seen)
        } else {
            (out + chapter_section(k as nat, title, source, dirs, outlines), seen.push(title))
        }
    }
}

/// The front matter of the document: its YAML metadata, title page and copyright
/// page, for the given title, author and month of the edition.
pub open spec fn front_matter(title: Seq<char>, author: Seq<char>, edition: Seq<char>) -> Seq<char> {
    "---\n"@ + "title: "@ + title + "\n"@ + "author: "@ + author + "\n"@
        + "rights: Copyright \u{a9} 2025\nlanguage: en-US\ndocumentclass: book\nclassoption: oneside\npapersize: a5\ngeometry: margin=1in\nfontsize: 11pt\nmainfont: Palatino\nsansfont: Helvetica\nmonofont: Courier\nlinkcolor: black\nurlcolor: black\ntoc-title: Contents\n---\n\n"@
        + "<h1 class=\"title\">"@ + title + "</h1>\n\n"@ + "<p class=\"author\">"@ + author + "</p>\n\n"@
        + "<p class=\"copyright\">Copyright \u{a9} 2025</p>\n\n\\newpage\n\n\\pagenumbering{gobble}\n\n<div class=\"copyright-page\">\n"@
        + "<p>"@ + title + "</p>\n\n"@ + "<p>Published by P.I.E. LLC</p>\n\n<p>Copyright \u{a9} 2025 by "@ + author
        + "</p>\n\n<p>All rights reserved. No part of this publication may be reproduced, distributed, or transmitted in any form or by any means, including photocopying, recording, or other electronic or mechanical methods, without the prior written permission of the publisher, except in the case of brief quotations embodied in critical reviews and certain other noncommercial uses permitted by copyright law.</p>\n\n<p>First Edition: "@
        + edition + "</p>\n\n<p>ISBN: </p>\n\n<p>Printed in the United States of America</p>\n</div>\n\n\\newpage\n\n\\pagenumbering{arabic}\n\n"@
}

/// The document from which the PDF and EPUB editions are made: the front matter,
/// then a section for each chapter of the table of contents.
pub open spec fn book_document(title: Seq<char>, author: Seq<char>, edition: Seq<char>, entries: Seq<(Seq<char>, ChapterSource)>, dirs: Seq<Seq<char>>, outlines: Seq<Seq<char>>) -> Seq<char> {
    front_matter(title, author, edition) + sections_from(entries, entries.len() as int, dirs, outlines).0
}

/// The sections of all of the first `k` chapters, one after the other.
pub open spec fn all_sections(entries: Seq<(Seq<char>, ChapterSource)>, k: int, dirs: Seq<Seq<char>>, outlines: Seq<Seq<char>>) -> Seq<char>
    decreases k,
{
    if k <= 0 || k > entries.len() {
        Seq::empty()
    } else {
        all_sections(entries, k - 1, dirs, outlines) + chapter_section(k as nat, entries[k - 1].0, entries[k - 1].1, dirs, outlines)
    }
}

/// Every chapter's file was found and no two chapters have the same title.
pub open spec fn all_found_and_distinct(entries: Seq<(Seq<char>, ChapterSource)>) -> bool {
    &&& forall|i: int| 0 <= i < entries.len() ==> !(#[trigger] entries[i].1 is Missing)
    &&& forall|i: int, j: int| 0 <= i < j < entries.len() ==> #[trigger] entries[i].0 != #[trigger] entries[j].0
}

/// Where every chapter's file was found and the titles differ, no chapter is
/// skipped: the sections are those of all chapters, in order.
proof fn lemma_no_chapter_skipped(entries: Seq<(Seq<char>, ChapterSource)>, k: int, dirs: Seq<Seq<char>>, outlines: Seq<Seq<char>>)
    requires
        all_found_and_distinct(entries),
        0 <= k <= entries.len(),
    ensures
        sections_from(entries, k, dirs, outlines).0 == all_sections(entries, k, dirs, outlines),
        sections_from(entries, k, dirs, outlines).1 == entries.take(k).map_values(|e: (Seq<char>, ChapterSource)| e.0),
    decreases k,
{
    if k > 0 {
        lemma_no_chapter_skipped(entries, k - 1, dirs, outlines);
        let seen = sections_from(entries, k - 1, dirs, outlines).1;
        assert(!(entries[k - 1].1 is Missing));
        assert(!seen.contains(entries[k - 1].0)) by {
            if seen.contains(entries[k - 1].0) {
                let j = choose|j: int| 0 <= j < seen.len() && seen[j] == entries[k - 1].0;
                assert(seen[j] == entries[j].0);
                assert(entries[j].0 != entries[k - 1].0);
            }
        }
        assert(entries.take(k).map_values(|e: (Seq<char>, ChapterSource)| e.0) =~= entries.take(k - 1).map_values(
            |e: (Seq<char>, ChapterSource)| e.0,
        ).push(entries[k - 1].0));
    } else {
        assert(entries.take(0).map_values(|e: (Seq<char>, ChapterSource)| e.0) =~= Seq::<Seq<char>>::empty());
    }
}

fn simple_text_exec(content: &str) -> (r: Vec<char>)
    ensures
        r@ == simple_text(content@),
{
    let ls = lines_exec(&chars_of(content));
    let ghost all = lines(content@);
    let mut out: Vec<char> = Vec::new();
    let mut skip = true;
    let mut i: usize = 0;
    while i < ls.len()
        invariant
            i <= ls@.len(),
            ls@.len() == all.len(),
            all == lines(content@),
            forall|k: int| 0 <= k < ls@.len() ==> #[trigger] ls@[k]@ == all[k],
            simple_text_from(all, i as int) == (out@, skip),
        decreases ls@.len() - i,
    {
        let line = &ls[i];
        assert(line@ == all[i as int]);
        if starts_with_exec(&trim_exec(line), &chars_of("# ")) && skip {
            skip = false;
        } else {
            push_all(&mut out, line);
            push_str(&mut out, "\n");
        }
        i = i + 1;
    }
    out
}

fn chapter_section_exec(num: usize, title: &String, source: &ChapterSource, dirs: &Vec<String>, outlines: &Vec<String>) -> (r: Vec<char>)
    ensures
        r@ == chapter_section(num as nat, title@, *source, dirs@.map_values(|d: String| d@), outlines@.map_values(|o: String| o@)),
{
    let clean = chars_of(clean_chapter_title(title.as_str(), dirs, outlines).as_str());
    let mut label = chars_of("Chapter ");
    push_decimal(&mut label, num);
    let mut out: Vec<char> = Vec::new();
    if starts_with_exec(&clean, &label) {
        push_str(&mut out, "# ");
        push_all(&mut out, &clean);
        push_str(&mut out, "\n\n");
    } else {
        push_str(&mut out, "# Chapter ");
        push_decimal(&mut out, num);
        push_str(&mut out, ": ");
        push_all(&mut out, &clean);
        push_str(&mut out, "\n\n");
    }
    proof {
        let c = cleaned_title(title@, dirs@.map_values(|d: String| d@), outlines@.map_values(|o: String| o@));
        assert(out@ =~= chapter_heading_text(c, num as nat));
    }
    match source {
        ChapterSource::Text(content) => {
            let processed = chars_of(process_chapter_content(content.as_str()).as_str());
            if trim_exec(&processed).len() == 0 {
                let simple = simple_text_exec(content.as_str());
                push_all(&mut out, &simple);
            } else {
                push_all(&mut out, &processed);
            }
            push_str(&mut out, "\n\n\\newpage\n\n");
            out
        },
        _ => out,
    }
}

fn seen_contains(seen: &Vec<Vec<char>>, t: &Vec<char>) -> (r: bool)
    ensures
        r == seen@.map_values(|s: Vec<char>| s@).contains(t@),
{
    let ghost sv = seen@.map_values(|s: Vec<char>| s@);
    let mut i: usize = 0;
    while i < seen.len()
        invariant
            i <= seen@.len(),
            sv == seen@.map_values(|s: Vec<char>| s@),
            forall|j: int| 0 <= j < i ==> sv[j] != t@,
        decreases seen@.len() - i,
    {
        if same_text(&seen[i], t) {
            assert(sv[i as int] == t@);
            return true;
        }
        i = i + 1;
    }
    false
}

/// The chapter sections of the document, for the chapters of the table of contents
/// with what was found of their files.
pub fn chapter_sections(entries: &Vec<(String, ChapterSource)>, dirs: &Vec<String>, outlines: &Vec<String>) -> (r: String)
    ensures
        r@ == sections_from(
            entries@.map_values(|e: (String, ChapterSource)| (e.0@, e.1)),
            entries@.len() as int,
            dirs@.map_values(|d: String| d@),
            outlines@.map_values(|o: String| o@),
        ).0,
{
    let ghost es = entries@.map_values(|e: (String, ChapterSource)| (e.0@, e.1));
    let ghost ds = dirs@.map_values(|d: String| d@);
    let ghost os = outlines@.map_values(|o: String| o@);
    let mut out: Vec<char> = Vec::new();
    let mut seen: Vec<Vec<char>> = Vec::new();
    let mut i: usize = 0;
    while i < entries.len()
        invariant
            i <= entries@.len(),
            es == entries@.map_values(|e: (String, ChapterSource)| (e.0@, e.1)),
            ds == dirs@.map_values(|d: String| d@),
            os == outlines@.map_values(|o: String| o@),
            sections_from(es, i as int, ds, os) == (out@, seen@.map_values(|s: Vec<char>| s@)),
        decreases entries@.len() - i,
    {
        let (title, source) = (&entries[i].0, &entries[i].1);
        assert(es[i as int] == (title@, *source));
        let t = chars_of(title.as_str());
        let missing = match source {
            ChapterSource::Missing => true,
            _ => false,
        };
        if !missing && !seen_contains(&seen, &t) {
            let section = chapter_section_exec(i + 1, title, source, dirs, outlines);
            push_all(&mut out, &section);
            let ghost before = seen@;
            seen.push(t);
            assert(seen@.map_values(|s: Vec<char>| s@) =~= before.map_values(|s: Vec<char>| s@).push(title@));
        }
        i = i + 1;
    }
    to_string(&out)
}

/// The front matter of the PDF and EPUB document.
pub fn front_matter_text(title: &str, author: &str, edition: &str) -> (r: String)
    ensures
        r@ == front_matter(title@, author@, edition@),
{
    let mut out = chars_of("---\n");
    push_str(&mut out, "title: ");
    push_str(&mut out, title);
    push_str(&mut out, "\n");
    push_str(&mut out, "author: ");
    push_str(&mut out, author);
    push_str(&mut out, "\n");
    push_str(&mut out, "rights: Copyright \u{a9} 2025\nlanguage: en-US\ndocumentclass: book\nclassoption: oneside\npapersize: a5\ngeometry: margin=1in\nfontsize: 11pt\nmainfont: Palatino\nsansfont: Helvetica\nmonofont: Courier\nlinkcolor: black\nurlcolor: black\ntoc-title: Contents\n---\n\n");
    push_str(&mut out, "<h1 class=\"title\">");
    push_str(&mut out, title);
    push_str(&mut out, "</h1>\n\n");
    push_str(&mut out, "<p class=\"author\">");
    push_str(&mut out, author);
    push_str(&mut out, "</p>\n\n");
    push_str(&mut out, "<p class=\"copyright\">Copyright \u{a9} 2025</p>\n\n\\newpage\n\n\\pagenumbering{gobble}\n\n<div class=\"copyright-page\">\n");
    push_str(&mut out, "<p>");
    push_str(&mut out, title);
    push_str(&mut out, "</p>\n\n");
    push_str(&mut out, "<p>Published by P.I.E. LLC</p>\n\n<p>Copyright \u{a9} 2025 by ");
    push_str(&mut out, author);
    push_str(&mut out, "</p>\n\n<p>All rights reserved. No part of this publication may be reproduced, distributed, or transmitted in any form or by any means, including photocopying, recording, or other electronic or mechanical methods, without the prior written permission of the publisher, except in the case of brief quotations embodied in critical reviews and certain other noncommercial uses permitted by copyright law.</p>\n\n<p>First Edition: ");
    push_str(&mut out, edition);
    push_str(&mut out, "</p>\n\n<p>ISBN: </p>\n\n<p>Printed in the United States of America</p>\n</div>\n\n\\newpage\n\n\\pagenumbering{arabic}\n\n");
    to_string(&out)
}

/// The whole document from which the PDF and EPUB editions are made.
pub fn book_document_text(
    title: &str,
    author: &str,
    edition: &str,
    entries: &Vec<(String, ChapterSource)>,
    dirs: &Vec<String>,
    outlines: &Vec<String>,
) -> (r: String)
    ensures
        r@ == book_document(
            title@,
            author@,
            edition@,
            entries@.map_values(|e: (String, ChapterSource)| (e.0@, e.1)),
            dirs@.map_values(|d: String| d@),
            outlines@.map_values(|o: String| o@),
        ),
        all_found_and_distinct(entries@.map_values(|e: (String, ChapterSource)| (e.0@, e.1))) ==> r@ == front_matter(
            title@,
            author@,
            edition@,
        ) + all_sections(
            entries@.map_values(|e: (String, ChapterSource)| (e.0@, e.1)),
            entries@.len() as int,
            dirs@.map_values(|d: String| d@),
            outlines@.map_values(|o: String| o@),
        ),
{
    proof {
        let es = entries@.map_values(|e: (String, ChapterSource)| (e.0@, e.1));
        if all_found_and_distinct(es) {
            lemma_no_chapter_skipped(es, es.len() as int, dirs@.map_values(|d: String| d@), outlines@.map_values(|o: String| o@));
        }
    }
    let mut out = chars_of(front_matter_text(title, author, edition).as_str());
    push_str(&mut out, chapter_sections(entries, dirs, outlines).as_str());
    to_string(&out)
}

// ---------------------------------------------------------------------------
// The title shown on the PDF and EPUB editions
// ---------------------------------------------------------------------------

/// The words of `s` from index `i` on, as `str::split_whitespace` gives them.
pub open spec fn words_from(s: Seq<char>, i: int) -> Seq<Seq<char>>
    decreases s.len() - i,
{
    if i < 0 || i >= s.len() {
        Seq::empty()
    } else {
        let a = skip_ws_from(s, i);
        if a < i || a >= s.len() {
            Seq::empty()
        } else {
            let b = word_end_from(s, a + 1);
            if b <= i || b > s.len() {
                Seq::empty()
            } else {
                seq![s.subrange(a, b)] + words_from(s, b)
            }
        }
    }
}

/// Pieces joined by single spaces.
pub open spec fn spaced(ws: Seq<Seq<char>>) -> Seq<char>
    decreases ws.len(),
{
    if ws.len() == 0 {
        Seq::empty()
    } else if ws.len() == 1 {
        ws[0]
    } else {
        spaced(ws.drop_last()) + " "@ + ws.last()
    }
}

/// A word with its first character upper-cased (all of that character's
/// upper-case form).
pub open spec fn capitalized(w: Seq<char>) -> Seq<char> {
    if w.len() == 0 {
        Seq::empty()
    } else {
        uppercase(seq![w[0]]) + w.subrange(1, w.len() as int)
    }
}

/// The title shown on the editions: the book's title split at '-', the pieces
/// trimmed and joined by spaces, then each word capitalized and the words joined by
/// single spaces.
pub open spec fn display_title(title: Seq<char>) -> Seq<char> {
    let pieces = split(title, '-').map_values(|p: Seq<char>| trim(p));
    let ws = words_from(spaced(pieces), 0);
    spaced(ws.map_values(|w: Seq<char>| capitalized(w)))
}

fn spaced_exec(ws: &Vec<Vec<char>>) -> (r: Vec<char>)
    ensures
        r@ == spaced(ws@.map_values(|w: Vec<char>| w@)),
{
    let ghost all = ws@.map_values(|w: Vec<char>| w@);
    let mut out: Vec<char> = Vec::new();
    let mut i: usize = 0;
    while i < ws.len()
        invariant
            i <= ws@.len(),
            all == ws@.map_values(|w: Vec<char>| w@),
            out@ == spaced(all.subrange(0, i as int)),
        decreases ws@.len() - i,
    {
        let ghost pre = all.subrange(0, i + 1);
        assert(pre.drop_last() =~= all.subrange(0, i as int));
        assert(pre.last() == ws@[i as int]@);
        if i > 0 {
            out.push(' ');
        }
        push_all(&mut out, &ws[i]);
        proof {
            reveal_strlit(" ");
            if i == 0 {
                assert(out@ =~= spaced(pre));
            } else {
                assert(out@ =~= spaced(pre));
            }
        }
        i = i + 1;
    }
    assert(all.subrange(0, all.len() as int) =~= all);
    out
}

pub fn words_exec(s: &Vec<char>) -> (r: Vec<Vec<char>>)
    ensures
        r@.map_values(|w: Vec<char>| w@) == words_from(s@, 0),
{
    let mut out: Vec<Vec<char>> = Vec::new();
    let mut i: usize = 0;
    let ghost done: Seq<Seq<char>> = Seq::empty();
    while i < s.len()
        invariant
            i <= s@.len(),
            out@.map_values(|w: Vec<char>| w@) == done,
            words_from(s@, 0) == done + words_from(s@, i as int),
        decreases s@.len() - i,
    {
        proof {
            lemma_skip_ws_from_bounds(s@, i as int);
        }
        let mut a = i;
        while a < s.len() && is_whitespace(s[a])
            invariant
                i <= a <= s@.len(),
                skip_ws_from(s@, i as int) == skip_ws_from(s@, a as int),
            decreases s@.len() - a,
        {
            a = a + 1;
        }
        if a >= s.len() {
            assert(words_from(s@, i as int) =~= Seq::<Seq<char>>::empty());
            i = s.len();
            assert(words_from(s@, i as int) =~= Seq::<Seq<char>>::empty());
        } else {
            proof {
                lemma_word_end_from_bounds(s@, a + 1);
            }
            let mut b = a + 1;
            while b < s.len() && !is_whitespace(s[b])
                invariant
                    a + 1 <= b <= s@.len(),
                    word_end_from(s@, a + 1) == word_end_from(s@, b as int),
                decreases s@.len() - b,
            {
                b = b + 1;
            }
            let w = slice_chars(s, a, b);
            proof {
                assert(words_from(s@, i as int) == seq![w@] + words_from(s@, b as int));
                done = done.push(w@);
            }
            let ghost before = out@;
            out.push(w);
            assert(out@.map_values(|x: Vec<char>| x@) =~= before.map_values(|x: Vec<char>| x@).push(w@));
            i = b;
        }
    }
    assert(words_from(s@, i as int) =~= Seq::<Seq<char>>::empty());
    assert(done + Seq::<Seq<char>>::empty() =~= done);
    out
}

fn capitalized_exec(w: &Vec<char>) -> (r: Vec<char>)
    ensures
        r@ == capitalized(w@),
{
    if w.len() == 0 {
        return Vec::new();
    }
    let head = slice_chars(w, 0, 1);
    assert(head@ =~= seq![w@[0]]);
    let first = to_string(&head);
    let mut out = chars_of(to_uppercase(first.as_str()).as_str());
    push_all(&mut out, &suffix_from(w, 1));
    out
}

/// The title shown on the PDF and EPUB editions of a book titled `title`.
pub fn display_title_of(title: &str) -> (r: String)
    ensures
        r@ == display_title(title@),
{
    let pieces = split_exec(&chars_of(title), '-');
    let ghost want = split(title@, '-').map_values(|p: Seq<char>| trim(p));
    let mut trimmed: Vec<Vec<char>> = Vec::new();
    let mut i: usize = 0;
    while i < pieces.len()
        invariant
            i <= pieces@.len(),
            pieces@.len() == split(title@, '-').len(),
            want == split(title@, '-').map_values(|p: Seq<char>| trim(p)),
            forall|k: int| 0 <= k < pieces@.len() ==> #[trigger] pieces@[k]@ == split(title@, '-')[k],
            trimmed@.len() == i,
            forall|k: int| 0 <= k < i ==> #[trigger] trimmed@[k]@ == want[k],
        decreases pieces@.len() - i,
    {
        assert(pieces@[i as int]@ == split(title@, '-')[i as int]);
        trimmed.push(trim_exec(&pieces[i]));
        i = i + 1;
    }
    assert(trimmed@.map_values(|w: Vec<char>| w@) =~= want);
    let joined = spaced_exec(&trimmed);
    let ws = words_exec(&joined);
    let ghost wv = ws@.map_values(|w: Vec<char>| w@);
    let mut caps: Vec<Vec<char>> = Vec::new();
    let mut j: usize = 0;
    while j < ws.len()
        invariant
            j <= ws@.len(),
            wv == ws@.map_values(|w: Vec<char>| w@),
            caps@.len() == j,
            forall|k: int| 0 <= k < j ==> #[trigger] caps@[k]@ == capitalized(wv[k]),
        decreases ws@.len() - j,
    {
        caps.push(capitalized_exec(&ws[j]));
        j = j + 1;
    }
    assert(caps@.map_values(|w: Vec<char>| w@) =~= wv.map_values(|w: Seq<char>| capitalized(w)));
    to_string(&spaced_exec(&caps))
}

/// The EPUB metadata file for the shown title, the author and the book's
/// identifier.
pub open spec fn epub_metadata(title: Seq<char>, author: Seq<char>, id: Seq<char>) -> Seq<char> {
    "<dc:language>en-US</dc:language>\n<dc:title>"@ + title + "</dc:title>\n<dc:creator>"@ + author
        + "</dc:creator>\n<dc:publisher>P.I.E. LLC</dc:publisher>\n<dc:rights>Copyright \u{a9} 2025</dc:rights>\n<dc:identifier id=\"pub-id\">urn:uuid:"@
        + id + "</dc:identifier>\n"@
}

/// Writes the EPUB metadata file.
pub fn epub_metadata_text(title: &str, author: &str, id: &str) -> (r: String)
    ensures
        r@ == epub_metadata(title@, author@, id@),
{
    let mut out = chars_of("<dc:language>en-US</dc:language>\n<dc:title>");
    push_str(&mut out, title);
    push_str(&mut out, "</dc:title>\n<dc:creator>");
    push_str(&mut out, author);
    push_str(&mut out, "</dc:creator>\n<dc:publisher>P.I.E. LLC</dc:publisher>\n<dc:rights>Copyright \u{a9} 2025</dc:rights>\n<dc:identifier id=\"pub-id\">urn:uuid:");
    push_str(&mut out, id);
    push_str(&mut out, "</dc:identifier>\n");
    to_string(&out)
}


// ---------------------------------------------------------------------------
// The table of contents, written and read back
// ---------------------------------------------------------------------------

/// A chapter title that the table of contents lists as it is: one line, without
/// "](", and without the words by which the entries that are no chapters are told
/// apart.
pub open spec fn listed_title(t: Seq<char>) -> bool {
    &&& !has_char(t, '\n')
    &&& !contains(t, "]("@)
    &&& t != "Outline"@
    &&& t != "Book Outline"@
}

/// The source file of the `i`th chapter.
pub open spec fn chapter_file(i: nat) -> Seq<char> {
    "chapter_"@ + decimal(i) + ".md"@
}

/// The table of contents' line for the `i`th chapter, titled `t`.
pub open spec fn toc_line(t: Seq<char>, i: nat) -> Seq<char> {
    "- ["@ + t + "]("@ + chapter_file(i) + ")"@
}

/// The lines of the table of contents before the chapters.
pub open spec fn toc_header() -> Seq<Seq<char>> {
    seq!["# Summary"@, Seq::empty(), "- [Statistics](statistics.html)"@]
}

/// The table of contents' lines for the first `k` chapters.
pub open spec fn toc_lines(chs: Seq<Chapter>, k: int) -> Seq<Seq<char>> {
    Seq::new(k as nat, |i: int| toc_line(chs[i].title@, (i + 1) as nat))
}

/// The chapters as the table of contents lists them: title and file.
pub open spec fn toc_entries(chs: Seq<Chapter>, k: int) -> Seq<(Seq<char>, Seq<char>)> {
    Seq::new(k as nat, |i: int| (chs[i].title@, chapter_file((i + 1) as nat)))
}

proof fn lemma_chapter_file(i: nat)
    ensures
        chapter_file(i).len() >= 12,
        chapter_file(i)[chapter_file(i).len() - 1] == 'd',
        forall|k: int| 0 <= k < chapter_file(i).len() ==> {
            let c = #[trigger] chapter_file(i)[k];
            c != 's' && c != '\n' && c != ')'
        },
{
    reveal_strlit("chapter_");
    reveal_strlit(".md");
    crate::text::lemma_decimal_digits(i);
    let d = decimal(i);
    let f = chapter_file(i);
    assert forall|k: int| 0 <= k < f.len() implies {
        let c = #[trigger] f[k];
        c != 's' && c != '\n' && c != ')'
    } by {
        if k < 8 {
            assert(f[k] == "chapter_"@[k]);
        } else if k < 8 + d.len() {
            assert(f[k] == d[k - 8]);
        } else {
            assert(f[k] == ".md"@[k - 8 - d.len()]);
        }
    }
}

/// A chapter's line of the table of contents is one line, and is read back as the
/// chapter's title and file.
proof fn lemma_toc_entry(t: Seq<char>, i: nat)
    requires
        listed_title(t),
    ensures
        !has_char(toc_line(t, i), '\n'),
        toc_line(t, i).len() > 0,
        toc_line(t, i)[toc_line(t, i).len() - 1] == ')',
        summary_entry(toc_line(t, i)) == Some((t, chapter_file(i))),
{
    reveal_strlit("- [");
    reveal_strlit("](");
    reveal_strlit(")");
    reveal_strlit("  ");
    reveal_strlit("statistics.html");
    lemma_chapter_file(i);
    let f = chapter_file(i);
    let line = toc_line(t, i);
    crate::text::lemma_find_char_from_bounds(t, '\n', 0);
    assert forall|k: int| 0 <= k < line.len() implies line[k] != '\n' by {
        if k < 3 {
            assert(line[k] == "- ["@[k]);
        } else if k < 3 + t.len() {
            assert(line[k] == t[k - 3]);
        } else if k < 5 + t.len() {
            assert(line[k] == "]("@[k - 3 - t.len()]);
        } else if k < 5 + t.len() + f.len() {
            assert(line[k] == f[k - 5 - t.len()]);
        } else {
            assert(line[k] == ')');
        }
    }
    crate::text::lemma_no_char(line, '\n');
    assert(line[0] == '-');
    assert(line[line.len() - 1] == ')');
    crate::text::lemma_trim_unchanged(line);
    assert(starts_with(line, "- ["@)) by {
        assert(line.subrange(0, 3) =~= "- ["@);
    }
    let rest = line.subrange(3, line.len() as int);
    assert(rest =~= t + "]("@ + f + ")"@);
    let k = t.len() as int;
    assert(matches_at(rest, "]("@, k)) by {
        assert(rest.subrange(k, k + 2) =~= "]("@);
    }
    assert forall|j: int| 0 <= j < k implies !#[trigger] matches_at(rest, "]("@, j) by {
        if matches_at(rest, "]("@, j) {
            crate::text::lemma_matches_at_chars(rest, "]("@, j);
            assert(rest[j + 0] == ']');
            assert(rest[j + 1] == '(');
            if j + 1 < k {
                assert(t[j] == ']' && t[j + 1] == '(');
                crate::text::lemma_matches_at_chars(t, "]("@, j);
                crate::text::lemma_occurs_contains(t, "]("@, j);
            } else {
                assert(rest[j + 1] == ']');
            }
        }
    }
    crate::text::lemma_find_is(rest, "]("@, k);
    let title = rest.subrange(0, k);
    assert(title =~= t);
    let tail = rest.subrange(k + 2, rest.len() as int);
    assert(tail =~= f + ")"@);
    assert(tail[tail.len() - 1] == ')');
    assert(tail[tail.len() - 2] == 'd');
    assert(crate::text::trailing_run_start(tail, ')', tail.len() - 1) == tail.len() - 1);
    assert(crate::text::trailing_run_start(tail, ')', tail.len() as int) == tail.len() - 1);
    let file = trim_end_char(tail, ')');
    assert(file =~= f);
    assert(!starts_with(line, "  "@)) by {
        if starts_with(line, "  "@) {
            crate::text::lemma_matches_at_chars(line, "  "@, 0);
            assert(line[0int + 0] == ' ');
        }
    }
    assert(f != "statistics.html"@) by {
        assert("statistics.html"@[0] == 's');
    }
}

proof fn lemma_header_entries()
    ensures
        summary_entry(toc_header()[0]) is None,
        summary_entry(toc_header()[1]) is None,
        summary_entry(toc_header()[2]) is None,
        forall|k: int| 0 <= k < 3 ==> !has_char(#[trigger] toc_header()[k], '\n'),
{
    reveal_strlit("# Summary");
    reveal_strlit("- [Statistics](statistics.html)");
    reveal_strlit("- [");
    reveal_strlit("](");
    reveal_strlit("statistics.html)");
    reveal_strlit("statistics.html");
    let h0 = "# Summary"@;
    let h2 = "- [Statistics](statistics.html)"@;
    crate::text::lemma_trim_unchanged(h0);
    assert(!starts_with(h0, "- ["@)) by {
        if starts_with(h0, "- ["@) {
            crate::text::lemma_matches_at_chars(h0, "- ["@, 0);
            assert(h0[0int + 0] == '-');
        }
    }
    assert(trim(Seq::<char>::empty()) =~= Seq::<char>::empty());
    crate::text::lemma_trim_unchanged(h2);
    assert(starts_with(h2, "- ["@)) by {
        assert(h2.subrange(0, 3) =~= "- ["@);
    }
    let rest = h2.subrange(3, h2.len() as int);
    assert(matches_at(rest, "]("@, 10)) by {
        assert(rest.subrange(10, 12) =~= "]("@);
    }
    assert forall|j: int| 0 <= j < 10 implies !#[trigger] matches_at(rest, "]("@, j) by {
        if matches_at(rest, "]("@, j) {
            crate::text::lemma_matches_at_chars(rest, "]("@, j);
            assert(rest[j + 0] == ']');
        }
    }
    crate::text::lemma_find_is(rest, "]("@, 10);
    let tail = rest.subrange(12, rest.len() as int);
    assert(tail =~= "statistics.html)"@);
    assert(tail[tail.len() - 1] == ')');
    assert(tail[tail.len() - 2] == 'l');
    assert(crate::text::trailing_run_start(tail, ')', tail.len() - 1) == tail.len() - 1);
    assert(crate::text::trailing_run_start(tail, ')', tail.len() as int) == tail.len() - 1);
    assert(trim_end_char(tail, ')') =~= "statistics.html"@);
    assert forall|k: int| 0 <= k < 3 implies !has_char(#[trigger] toc_header()[k], '\n') by {
        let h = toc_header()[k];
        assert forall|j: int| 0 <= j < h.len() implies h[j] != '\n' by {
            if k == 0 {
                assert(h == h0);
            } else if k == 2 {
                assert(h == h2);
            }
        }
        crate::text::lemma_no_char(h, '\n');
    }
}

/// The lines of the table of contents of the first `k` chapters.
proof fn lemma_summary_lines(chs: Seq<Chapter>, k: int)
    requires
        0 <= k <= chs.len(),
        forall|i: int| 0 <= i < chs.len() ==> listed_title(#[trigger] chs[i].title@),
    ensures
        lines("# Summary\n\n"@ + "- [Statistics](statistics.html)\n"@ + summary_lines(chs, k)) == toc_header() + toc_lines(chs, k),
        ("# Summary\n\n"@ + "- [Statistics](statistics.html)\n"@ + summary_lines(chs, k)).last() == '\n',
    decreases k,
{
    reveal_strlit("# Summary\n\n");
    reveal_strlit("- [Statistics](statistics.html)\n");
    reveal_strlit("# Summary");
    reveal_strlit("- [Statistics](statistics.html)");
    reveal_strlit("\n");
    let head = "# Summary\n\n"@ + "- [Statistics](statistics.html)\n"@;
    if k == 0 {
        lemma_header_entries();
        let e = Seq::<char>::empty();
        let a = e + "# Summary"@ + "\n"@;
        assert(lines(e) =~= Seq::<Seq<char>>::empty());
        assert(!("# Summary"@.len() > 0 && "# Summary"@.last() == '\r'));
        crate::text::lemma_lines_append(e, "# Summary"@);
        let b = a + e + "\n"@;
        crate::text::lemma_no_char(e, '\n');
        crate::text::lemma_lines_append(a, e);
        let c = b + "- [Statistics](statistics.html)"@ + "\n"@;
        assert(toc_header()[0] == "# Summary"@);
        assert(toc_header()[2] == "- [Statistics](statistics.html)"@);
        crate::text::lemma_lines_append(b, "- [Statistics](statistics.html)"@);
        assert(c =~= head);
        assert(head + summary_lines(chs, 0) =~= head);
        assert(lines(c) =~= toc_header());
        assert(toc_header() + toc_lines(chs, 0) =~= toc_header());
    } else {
        lemma_summary_lines(chs, k - 1);
        let t = chs[k - 1].title@;
        assert(listed_title(chs[k - 1].title@));
        lemma_toc_entry(t, k as nat);
        let prev = head + summary_lines(chs, k - 1);
        reveal_strlit("- [");
        reveal_strlit("](chapter_");
        reveal_strlit(".md)\n");
        reveal_strlit("](");
        reveal_strlit("chapter_");
        reveal_strlit(".md");
        reveal_strlit(")");
        assert(head + summary_lines(chs, k) =~= prev + toc_line(t, k as nat) + "\n"@);
        crate::text::lemma_lines_append(prev, toc_line(t, k as nat));
        assert(toc_lines(chs, k) =~= toc_lines(chs, k - 1).push(toc_line(t, k as nat)));
        assert(toc_header() + toc_lines(chs, k) =~= (toc_header() + toc_lines(chs, k - 1)).push(toc_line(t, k as nat)));
    }
}

proof fn lemma_toc_read(chs: Seq<Chapter>, k: int)
    requires
        0 <= k <= chs.len(),
        forall|i: int| 0 <= i < chs.len() ==> listed_title(#[trigger] chs[i].title@),
    ensures
        summary_entries_in(toc_header() + toc_lines(chs, chs.len() as int), 3 + k) == toc_entries(chs, k),
    decreases k,
{
    let ls = toc_header() + toc_lines(chs, chs.len() as int);
    if k == 0 {
        lemma_header_entries();
        assert(ls[0] == toc_header()[0]);
        assert(ls[1] == toc_header()[1]);
        assert(ls[2] == toc_header()[2]);
        assert(summary_entries_in(ls, 0) =~= Seq::<(Seq<char>, Seq<char>)>::empty());
        assert(summary_entries_in(ls, 1) =~= Seq::<(Seq<char>, Seq<char>)>::empty());
        assert(summary_entries_in(ls, 2) =~= Seq::<(Seq<char>, Seq<char>)>::empty());
        assert(summary_entries_in(ls, 3) =~= Seq::<(Seq<char>, Seq<char>)>::empty());
        assert(toc_entries(chs, 0) =~= Seq::<(Seq<char>, Seq<char>)>::empty());
    } else {
        lemma_toc_read(chs, k - 1);
        let t = chs[k - 1].title@;
        assert(listed_title(chs[k - 1].title@));
        lemma_toc_entry(t, k as nat);
        assert(ls[3 + k - 1] == toc_line(t, k as nat));
        assert(toc_entries(chs, k) =~= toc_entries(chs, k - 1).push((t, chapter_file(k as nat))));
    }
}

/// The table of contents written for a book is read back, when the book is
/// exported, as its chapters in order, each with its title and its source file
/// "chapter_{n}.md", where every chapter's title is listed as it is (one line,
/// without "](", and none of the entries that are no chapters).
pub proof fn law_summary_read_back(b: Book)
    requires
        forall|i: int| 0 <= i < b.chapters@.len() ==> listed_title(#[trigger] b.chapters@[i].title@),
    ensures
        summary_entries_in(lines(summary_text(b)), lines(summary_text(b)).len() as int)
            == toc_entries(b.chapters@, b.chapters@.len() as int),
{
    let chs = b.chapters@;
    lemma_summary_lines(chs, chs.len() as int);
    assert(summary_text(b) == "# Summary\n\n"@ + "- [Statistics](statistics.html)\n"@ + summary_lines(chs, chs.len() as int));
    lemma_toc_read(chs, chs.len() as int);
}

} // verus!
