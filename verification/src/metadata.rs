//! The book's metadata file: a Markdown text of sections, each opened by a line
//! "## Name (timestamp)". Sections are read back by name and replaced in place.
use vstd::prelude::*;
use crate::text::{
    chars_of, contains, find, find_char_from, find_char_from_exec, find_exec, has_char,
    lemma_find_char_from_bounds,
    lemma_find_from_bounds, lemma_find_is, lemma_find_none, lemma_matches_at_chars, matches_at,
    push_all, push_str, slice_chars, suffix_from, to_string, trim, trim_exec,
};

verus! {

/// The text that opens a section: a newline, "## " and the section's name.
pub open spec fn section_marker(section: Seq<char>) -> Seq<char> {
    "\n## "@ + section
}

/// The text that opens any section.
pub open spec fn any_marker() -> Seq<char> {
    "\n## "@
}

/// What a section holds, given the text that follows its name: the lines after its
/// heading line, whose rest (" (timestamp)" as an update writes it) is not part of
/// the section.
pub open spec fn section_body(raw: Seq<char>) -> Seq<char> {
    match find_char_from(raw, '\n', 0) {
        Some(p) => raw.subrange(p + 1, raw.len() as int),
        None => Seq::empty(),
    }
}

/// The section named `section`, as `read_metadata_section_safe` reads it: the lines
/// after the heading line of the first "\n## {section}", up to the next "\n## ",
/// trimmed; the heading's timestamp is left out.
pub open spec fn read_section(content: Seq<char>, section: Seq<char>) -> Option<Seq<char>> {
    let marker = section_marker(section);
    match find(content, marker) {
        Some(start) => {
            let after = content.subrange(start + marker.len(), content.len() as int);
            match find(after, any_marker()) {
                Some(end) => Some(trim(section_body(after.subrange(0, end)))),
                None => Some(trim(section_body(after))),
            }
        },
        None => None,
    }
}

/// The text that `update_metadata` writes for a section: its heading with the
/// timestamp, and its content.
pub open spec fn section_text(section: Seq<char>, timestamp: Seq<char>, value: Seq<char>) -> Seq<char> {
    "\n## "@ + section + " ("@ + timestamp + ")"@ + "\n"@ + value + "\n"@
}

/// The metadata after `update_metadata` writes a section: the first section of that
/// name (up to the next section) is replaced, or the section is appended.
pub open spec fn update_section(
    content: Seq<char>,
    section: Seq<char>,
    timestamp: Seq<char>,
    value: Seq<char>,
) -> Seq<char> {
    let new_text = section_text(section, timestamp, value);
    match find(content, section_marker(section)) {
        Some(start) => {
            let rest = content.subrange(start + 1, content.len() as int);
            let end = match find(rest, any_marker()) {
                Some(e) => start + 1 + e,
                None => content.len() as int,
            };
            content.subrange(0, start) + new_text + content.subrange(end, content.len() as int)
        },
        None => content + new_text,
    }
}

/// Reads a section of the metadata file's text: the text between the section's
/// heading line "## {section} (timestamp)" and the next heading, trimmed, without
/// the timestamp; `None` when the file has no such section.
pub fn read_metadata_section_safe(metadata: &str, section: &str) -> (r: Option<String>)
    ensures
        r matches Some(t) ==> read_section(metadata@, section@) == Some(t@),
        r is None ==> read_section(metadata@, section@) is None,
{
    let content = chars_of(metadata);
    let mut marker = chars_of("\n## ");
    push_str(&mut marker, section);
    proof {
        reveal_strlit("\n## ");
        lemma_find_from_bounds(content@, marker@, 0);
    }
    match find_exec(&content, &marker) {
        Some(start) => {
            assert(matches_at(content@, marker@, start as int));
            assert(start + marker@.len() <= content@.len()) by {
                lemma_matches_at_chars(content@, marker@, start as int);
            }
            let ml = marker.len();
            assert(start + ml <= content.len());
            let after = suffix_from(&content, start + ml);
            let any = chars_of("\n## ");
            proof {
                lemma_find_from_bounds(after@, any@, 0);
            }
            let raw = match find_exec(&after, &any) {
                Some(end) => slice_chars(&after, 0, end),
                None => after,
            };
            proof {
                lemma_find_char_from_bounds(raw@, '\n', 0);
            }
            let body = match find_char_from_exec(&raw, '\n', 0) {
                Some(p) => {
                    assert(p < raw@.len());
                    suffix_from(&raw, p + 1)
                },
                None => Vec::new(),
            };
            Some(to_string(&trim_exec(&body)))
        },
        None => None,
    }
}

/// Reads a section of the metadata file's text; the same as
/// `read_metadata_section_safe`.
pub fn read_metadata_section(metadata: &str, section: &str) -> (r: Option<String>)
    ensures
        r matches Some(t) ==> read_section(metadata@, section@) == Some(t@),
        r is None ==> read_section(metadata@, section@) is None,
{
    read_metadata_section_safe(metadata, section)
}

/// The metadata file's text after writing `value` as the section `section`, stamped
/// with `timestamp`: the section's first occurrence, up to the next section, is
/// replaced, or the section is appended at the end.
pub fn update_metadata_text(metadata: &str, section: &str, timestamp: &str, value: &str) -> (r: String)
    ensures
        r@ == update_section(metadata@, section@, timestamp@, value@),
{
    let content = chars_of(metadata);
    let mut marker = chars_of("\n## ");
    push_str(&mut marker, section);
    let mut new_text = chars_of("\n## ");
    push_str(&mut new_text, section);
    push_str(&mut new_text, " (");
    push_str(&mut new_text, timestamp);
    push_str(&mut new_text, ")");
    push_str(&mut new_text, "\n");
    push_str(&mut new_text, value);
    push_str(&mut new_text, "\n");
    proof {
        reveal_strlit("\n## ");
        lemma_find_from_bounds(content@, marker@, 0);
    }
    match find_exec(&content, &marker) {
        Some(start) => {
            assert(matches_at(content@, marker@, start as int));
            assert(start + marker@.len() <= content@.len());
            assert("\n## "@.len() == 4);
            assert(marker@.len() >= 4);
            let n = content.len();
            assert(start + 1 <= n);
            let rest = suffix_from(&content, start + 1);
            let any = chars_of("\n## ");
            proof {
                lemma_find_from_bounds(rest@, any@, 0);
            }
            let end = match find_exec(&rest, &any) {
                Some(e) => {
                    assert(matches_at(rest@, any@, e as int));
                    start + 1 + e
                },
                None => content.len(),
            };
            let mut out = slice_chars(&content, 0, start);
            push_all(&mut out, &new_text);
            let tail = slice_chars(&content, end, content.len());
            push_all(&mut out, &tail);
            to_string(&out)
        },
        None => {
            let mut out = content;
            push_all(&mut out, &new_text);
            to_string(&out)
        },
    }
}


/// What follows a section's name in the text that `update_metadata` writes.
pub open spec fn written_body(timestamp: Seq<char>, value: Seq<char>) -> Seq<char> {
    " ("@ + timestamp + ")"@ + "\n"@ + value + "\n"@
}

proof fn lemma_literals()
    ensures
        "\n## "@ == seq!['\n', '#', '#', ' '],
        " ("@ == seq![' ', '('],
        ")"@ == seq![')'],
        "\n"@ == seq!['\n'],
{
    reveal_strlit("\n## ");
    reveal_strlit(" (");
    reveal_strlit(")");
    reveal_strlit("\n");
}

/// After an update, the section's heading first occurs where the update wrote it.
#[verifier::rlimit(60)]
#[verifier::spinoff_prover]
proof fn lemma_updated_marker(m: Seq<char>, section: Seq<char>, timestamp: Seq<char>, value: Seq<char>)
    requires
        !has_char(section, '\n'),
    ensures
        ({
            let mk = section_marker(section);
            let p = match find(m, mk) {
                Some(start) => start,
                None => m.len() as int,
            };
            &&& find(update_section(m, section, timestamp, value), mk) == Some(p)
            &&& p + mk.len() <= update_section(m, section, timestamp, value).len()
        }),
{
    lemma_literals();
    let mk = section_marker(section);
    let body = written_body(timestamp, value);
    let nt = section_text(section, timestamp, value);
    assert(nt =~= mk + body);
    let m2 = update_section(m, section, timestamp, value);
    lemma_find_from_bounds(m, mk, 0);
    lemma_find_char_from_bounds(section, '\n', 0);
    match find(m, mk) {
        Some(start) => {
            let rest = m.subrange(start + 1, m.len() as int);
            lemma_find_from_bounds(rest, "\n## "@, 0);
            let end = match find(rest, "\n## "@) {
                Some(e) => start + 1 + e,
                None => m.len() as int,
            };
            assert(m2 == m.subrange(0, start) + nt + m.subrange(end, m.len() as int));
            lemma_matches_at_chars(m, mk, start);
            lemma_matches_at_chars(m2, mk, start);
            assert forall|j: int| 0 <= j < start implies !#[trigger] matches_at(m2, mk, j) by {
                lemma_matches_at_chars(m2, mk, j);
                lemma_matches_at_chars(m, mk, j);
                if matches_at(m2, mk, j) {
                    assert forall|t: int| 0 <= t < mk.len() implies #[trigger] m[j + t] == mk[t] by {
                        assert(m2[j + t] == mk[t]);
                        if j + t >= start {
                            assert(m2[j + t] == nt[j + t - start]);
                            assert(nt[j + t - start] == mk[j + t - start]);
                            assert(m[start + (j + t - start)] == mk[j + t - start]);
                        }
                    }
                    assert(matches_at(m, mk, j));
                }
            }
            lemma_find_is(m2, mk, start);
        },
        None => {
            assert(m2 == m + nt);
            lemma_matches_at_chars(m2, mk, m.len() as int);
            assert forall|j: int| 0 <= j < m.len() implies !#[trigger] matches_at(m2, mk, j) by {
                lemma_matches_at_chars(m2, mk, j);
                lemma_matches_at_chars(m, mk, j);
                if matches_at(m2, mk, j) {
                    if j + mk.len() <= m.len() {
                        assert forall|t: int| 0 <= t < mk.len() implies #[trigger] m[j + t] == mk[t] by {
                            assert(m2[j + t] == mk[t]);
                        }
                        assert(matches_at(m, mk, j));
                    } else {
                        let q = m.len() - j;
                        assert(m2[j + q] == mk[q]);
                        assert(m2[m.len() as int] == nt[0]);
                        if q < 4 {
                            assert(mk[q] == "\n## "@[q]);
                        } else {
                            assert(mk[q] == section[q - 4]);
                        }
                    }
                }
            }
            lemma_find_is(m2, mk, m.len() as int);
        },
    }
}

/// The heading of a section, once written, is not read as ending before the
/// written text does.
proof fn lemma_body_end(body: Seq<char>, tail: Seq<char>, timestamp: Seq<char>, value: Seq<char>)
    requires
        body == written_body(timestamp, value),
        !has_char(timestamp, '\n'),
        !contains("\n"@ + value, "\n## "@),
        tail.len() == 0 || tail[0] == '\n',
    ensures
        forall|j: int| 0 <= j < body.len() ==> !#[trigger] matches_at(body + tail, "\n## "@, j),
{
    lemma_literals();
    let h = "\n## "@;
    let after = body + tail;
    let p0 = timestamp.len() + 3;
    let w = "\n"@ + value;
    lemma_find_char_from_bounds(timestamp, '\n', 0);
    lemma_find_from_bounds(w, h, 0);
    assert(body.len() == p0 + 1 + value.len() + 1);
    assert forall|j: int| 0 <= j < body.len() implies !#[trigger] matches_at(after, h, j) by {
        lemma_matches_at_chars(after, h, j);
        if matches_at(after, h, j) {
            assert(after[j + 0] == h[0]);
            if j < p0 {
                if j == 0 {
                    assert(after[j] == ' ');
                } else if j == 1 {
                    assert(after[j] == '(');
                } else if j < p0 - 1 {
                    assert(after[j] == timestamp[j - 2]);
                } else {
                    assert(after[j] == ')');
                }
            } else if j + 4 <= p0 + 1 + value.len() {
                lemma_matches_at_chars(w, h, j - p0);
                assert forall|t: int| 0 <= t < h.len() implies #[trigger] w[(j - p0) + t] == h[t] by {
                    assert(after[j + t] == h[t]);
                    assert(after[j + t] == body[j + t]);
                    assert(body[j + t] == w[j + t - p0]);
                }
                assert(matches_at(w, h, j - p0));
            } else {
                let q = p0 + 1 + value.len() - j;
                if q >= 1 {
                    assert(after[j + q] == h[q]);
                    assert(after[j + q] == '\n');
                } else {
                    assert(after[j + 1] == h[1]);
                    assert(after[j + 1] == tail[0]);
                }
            }
        }
    }
}

/// What is read of a written section is the value, trimmed.
proof fn lemma_written_body_read(timestamp: Seq<char>, value: Seq<char>)
    requires
        !has_char(timestamp, '\n'),
    ensures
        trim(section_body(written_body(timestamp, value))) == trim(value),
{
    lemma_literals();
    let body = written_body(timestamp, value);
    let p = timestamp.len() as int + 3;
    lemma_find_char_from_bounds(timestamp, '\n', 0);
    assert(body[p] == '\n');
    assert forall|j: int| 0 <= j < p implies body[j] != '\n' by {
        if j >= 2 && j < p - 1 {
            assert(body[j] == timestamp[j - 2]);
        }
    }
    crate::text::lemma_find_char_at(body, '\n', 0, p);
    assert(section_body(body) =~= value.push('\n'));
    crate::text::lemma_trim_before_space(value, '\n');
}

/// Reading a section back after writing it gives the value written, trimmed. This
/// holds when the section's name and the timestamp hold no line break and the value
/// holds no line that starts with "## ".
pub proof fn law_read_after_update(m: Seq<char>, section: Seq<char>, timestamp: Seq<char>, value: Seq<char>)
    requires
        !has_char(section, '\n'),
        !has_char(timestamp, '\n'),
        !contains("\n"@ + value, "\n## "@),
    ensures
        read_section(update_section(m, section, timestamp, value), section) == Some(trim(value)),
{
    lemma_written_body_read(timestamp, value);
    lemma_literals();
    lemma_updated_marker(m, section, timestamp, value);
    let mk = section_marker(section);
    let h = "\n## "@;
    let body = written_body(timestamp, value);
    let nt = section_text(section, timestamp, value);
    assert(nt =~= mk + body);
    let m2 = update_section(m, section, timestamp, value);
    lemma_find_from_bounds(m, mk, 0);
    match find(m, mk) {
        Some(start) => {
            let rest = m.subrange(start + 1, m.len() as int);
            lemma_find_from_bounds(rest, h, 0);
            let end = match find(rest, h) {
                Some(e) => start + 1 + e,
                None => m.len() as int,
            };
            let tail = m.subrange(end, m.len() as int);
            let after = m2.subrange(start + mk.len(), m2.len() as int);
            assert(m2 == m.subrange(0, start) + nt + tail);
            assert(after =~= body + tail);
            match find(rest, h) {
                Some(e) => {
                    lemma_matches_at_chars(rest, h, e);
                    assert(tail[0] == rest[e + 0]);
                    lemma_body_end(body, tail, timestamp, value);
                    lemma_matches_at_chars(after, h, body.len() as int);
                    assert forall|t: int| 0 <= t < h.len() implies #[trigger] after[body.len() + t]
                        == h[t] by {
                        assert(after[body.len() + t] == tail[t]);
                        assert(tail[t] == rest[e + t]);
                    }
                    lemma_find_is(after, h, body.len() as int);
                    assert(after.subrange(0, body.len() as int) =~= body);
                },
                None => {
                    assert(tail.len() == 0);
                    lemma_body_end(body, tail, timestamp, value);
                    assert(after =~= body);
                    assert forall|j: int| 0 <= j implies !#[trigger] matches_at(after, h, j) by {
                        if j < body.len() {
                        }
                    }
                    lemma_find_none(after, h);
                },
            }
        },
        None => {
            let tail = Seq::<char>::empty();
            let after = m2.subrange((m.len() + mk.len()) as int, m2.len() as int);
            assert(m2 == m + nt);
            assert(after =~= body);
            assert(after =~= body + tail);
            lemma_body_end(body, tail, timestamp, value);
            assert forall|j: int| 0 <= j implies !#[trigger] matches_at(after, h, j) by {
                if j < body.len() {
                }
            }
            lemma_find_none(after, h);
        },
    }
}

} // verus!
