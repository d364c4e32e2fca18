//! The rules of the command-line program: its arguments, the answers to its
//! questions, and the text typed in over several lines.
use vstd::prelude::*;
use crate::chapter_body::{utf8_len, utf8_len_exceeds};
use crate::text::{
    chars_of, contains, contains_exec, ends_with, ends_with_exec, owned, parse_u64,
    parse_u64_exec, parse_usize, parse_usize_exec, push_all, same_text, starts_with,
    starts_with_exec, to_string, trim, trim_end, trim_end_exec, trim_exec,
};
use crate::unicode::{lowercase, to_lowercase};

verus! {

/// The arguments of the "pdf" command.
#[derive(Debug, Clone)]
pub struct PdfArgs {
    pub title: String,
    pub author: String,
    pub output: String,
}

/// The state of the reading of the "pdf" command's arguments from index `i` on.
pub open spec fn pdf_args_from(args: Seq<Seq<char>>, i: int, st: (Seq<char>, Seq<char>, Seq<char>)) -> (Seq<char>, Seq<char>, Seq<char>)
    decreases args.len() - i,
{
    if i < 1 || i >= args.len() {
        st
    } else {
        let a = args[i];
        let has_value = i + 1 < args.len();
        if a == "-t"@ || a == "--title"@ {
            if has_value {
                pdf_args_from(args, i + 2, (args[i + 1], st.1, st.2))
            } else {
                pdf_args_from(args, i + 1, st)
            }
        } else if a == "-a"@ || a == "--author"@ {
            if has_value {
                pdf_args_from(args, i + 2, (st.0, args[i + 1], st.2))
            } else {
                pdf_args_from(args, i + 1, st)
            }
        } else if a == "-o"@ || a == "--output"@ {
            if has_value {
                pdf_args_from(args, i + 2, (st.0, st.1, args[i + 1]))
            } else {
                pdf_args_from(args, i + 1, st)
            }
        } else {
            pdf_args_from(args, i + 1, st)
        }
    }
}

/// The title, author and output directory that the "pdf" command's arguments give
/// (the command itself first): "-t"/"--title", "-a"/"--author" and "-o"/"--output"
/// each take the next argument; the author is "l3o" by default, the others empty.
pub open spec fn pdf_args(args: Seq<Seq<char>>) -> (Seq<char>, Seq<char>, Seq<char>) {
    pdf_args_from(args, 1, (Seq::empty(), "l3o"@, Seq::empty()))
}

/// Reads the "pdf" command's arguments.
pub fn parse_pdf_args(args: &Vec<String>) -> (r: PdfArgs)
    ensures
        (r.title@, r.author@, r.output@) == pdf_args(args@.map_values(|a: String| a@)),
{
    let ghost av = args@.map_values(|a: String| a@);
    let mut title = String::new();
    let mut author = owned("l3o");
    let mut output = String::new();
    let mut i: usize = 1;
    while i < args.len()
        invariant
            1 <= i,
            av == args@.map_values(|a: String| a@),
            pdf_args(av) == pdf_args_from(av, i as int, (title@, author@, output@)),
        decreases args@.len() - i,
    {
        let a = chars_of(args[i].as_str());
        assert(a@ == av[i as int]);
        let has_value = i + 1 < args.len();
        if same_text(&a, &chars_of("-t")) || same_text(&a, &chars_of("--title")) {
            if has_value {
                assert(av[i + 1] == args@[i + 1]@);
                title = owned(args[i + 1].as_str());
                i = i + 2;
            } else {
                i = i + 1;
            }
        } else if same_text(&a, &chars_of("-a")) || same_text(&a, &chars_of("--author")) {
            if has_value {
                assert(av[i + 1] == args@[i + 1]@);
                author = owned(args[i + 1].as_str());
                i = i + 2;
            } else {
                i = i + 1;
            }
        } else if same_text(&a, &chars_of("-o")) || same_text(&a, &chars_of("--output")) {
            if has_value {
                assert(av[i + 1] == args@[i + 1]@);
                output = owned(args[i + 1].as_str());
                i = i + 2;
            } else {
                i = i + 1;
            }
        } else {
            i = i + 1;
        }
    }
    PdfArgs { title, author, output }
}

/// Whether a book's directory holds text to export: a rendered "chapter_*.md" in
/// its source directory, or a content log that is no token record.
pub open spec fn has_content(sources: Seq<Seq<char>>, logs: Seq<Seq<char>>) -> bool {
    (exists|k: int| 0 <= k < sources.len() && starts_with(#[trigger] sources[k], "chapter_"@) && ends_with(sources[k], ".md"@))
    || (exists|k: int| 0 <= k < logs.len() && contains(#[trigger] logs[k], "content_generation"@) && !contains(logs[k], "token_usage"@))
}

/// Whether a book's directory holds text to export, from the names in its source
/// and log directories.
pub fn has_renderable_content(sources: &Vec<String>, logs: &Vec<String>) -> (r: bool)
    ensures
        r == has_content(sources@.map_values(|s: String| s@), logs@.map_values(|s: String| s@)),
{
    let ghost sv = sources@.map_values(|s: String| s@);
    let ghost lv = logs@.map_values(|s: String| s@);
    let mut i: usize = 0;
    while i < sources.len()
        invariant
            i <= sources@.len(),
            sv == sources@.map_values(|s: String| s@),
            forall|k: int| 0 <= k < i ==> !(starts_with(#[trigger] sv[k], "chapter_"@) && ends_with(sv[k], ".md"@)),
        decreases sources@.len() - i,
    {
        let n = chars_of(sources[i].as_str());
        assert(n@ == sv[i as int]);
        if starts_with_exec(&n, &chars_of("chapter_")) && ends_with_exec(&n, &chars_of(".md")) {
            return true;
        }
        i = i + 1;
    }
    let mut j: usize = 0;
    while j < logs.len()
        invariant
            j <= logs@.len(),
            sv == sources@.map_values(|s: String| s@),
            lv == logs@.map_values(|s: String| s@),
            forall|k: int| 0 <= k < sv.len() ==> !(starts_with(#[trigger] sv[k], "chapter_"@) && ends_with(sv[k], ".md"@)),
            forall|k: int| 0 <= k < j ==> !(contains(#[trigger] lv[k], "content_generation"@) && !contains(lv[k], "token_usage"@)),
        decreases logs@.len() - j,
    {
        let n = chars_of(logs[j].as_str());
        assert(n@ == lv[j as int]);
        if contains_exec(&n, &chars_of("content_generation")) && !contains_exec(&n, &chars_of("token_usage")) {
            return true;
        }
        j = j + 1;
    }
    false
}

/// An answer to a question whose default is yes ("(Y/n)"): anything but "n", in
/// any case.
pub fn answer_is_yes(answer: &str) -> (r: bool)
    ensures
        r == (lowercase(answer@) != "n"@),
{
    !same_text(&chars_of(to_lowercase(answer).as_str()), &chars_of("n"))
}

/// An answer to a question whose default is no ("(y/N)"): "y", in any case.
pub fn answer_is_y(answer: &str) -> (r: bool)
    ensures
        r == (lowercase(answer@) == "y"@),
{
    same_text(&chars_of(to_lowercase(answer).as_str()), &chars_of("y"))
}

/// The author's name that was typed in, or "l3o" where it is blank.
pub fn author_or_default(input: &str) -> (r: String)
    ensures
        r@ == if trim(input@).len() == 0 {
            "l3o"@
        } else {
            input@
        },
{
    if trim_exec(&chars_of(input)).len() == 0 {
        owned("l3o")
    } else {
        owned(input)
    }
}

/// The directory picked from a numbered list of `count`: the typed number, where it
/// is one of the list's (counted from 1); `None` for a new book.
pub fn chosen_directory(answer: &str, count: usize) -> (r: Option<usize>)
    ensures
        r == (match parse_usize(answer@) {
            Some(n) => if 0 < n && n <= count {
                Some((n - 1) as usize)
            } else {
                None
            },
            None => None,
        }),
{
    match parse_usize_exec(&chars_of(answer)) {
        Some(n) => {
            if n > 0 && n <= count {
                Some(n - 1)
            } else {
                None
            }
        },
        None => None,
    }
}

/// The lines kept of typed-in text: up to the line "END", each without its
/// trailing white space, leaving out those of one byte or none.
pub open spec fn kept_lines(raw: Seq<Seq<char>>, k: int) -> (Seq<Seq<char>>, bool)
    decreases k,
{
    if k <= 0 || k > raw.len() {
        (Seq::empty(), false)
    } else {
        let (kept, ended) = kept_lines(raw, k - 1);
        let line = trim_end(raw[k - 1]);
        if ended {
            (kept, true)
        } else if line == "END"@ {
            (kept, true)
        } else if utf8_len(line) > 1 {
            (kept.push(line), false)
        } else {
            (kept, false)
        }
    }
}

/// Lines joined by line breaks.
pub open spec fn joined_lines(ls: Seq<Seq<char>>) -> Seq<char>
    decreases ls.len(),
{
    if ls.len() == 0 {
        Seq::empty()
    } else if ls.len() == 1 {
        ls[0]
    } else {
        joined_lines(ls.drop_last()) + "\n"@ + ls.last()
    }
}

/// The text typed in over several lines, from the lines as they were read.
pub fn collect_multiline(raw: &Vec<String>) -> (r: String)
    ensures
        r@ == joined_lines(kept_lines(raw@.map_values(|s: String| s@), raw@.len() as int).0),
{
    let ghost rv = raw@.map_values(|s: String| s@);
    let mut out: Vec<char> = Vec::new();
    let ghost mut kept: Seq<Seq<char>> = Seq::empty();
    let mut ended = false;
    let mut any_kept = false;
    let mut i: usize = 0;
    while i < raw.len()
        invariant
            i <= raw@.len(),
            rv == raw@.map_values(|s: String| s@),
            kept_lines(rv, i as int) == (kept, ended),
            any_kept == (kept.len() > 0),
            out@ == joined_lines(kept),
        decreases raw@.len() - i,
    {
        let line = trim_end_exec(&chars_of(raw[i].as_str()));
        assert(rv[i as int] == raw@[i as int]@);
        if !ended {
            if same_text(&line, &chars_of("END")) {
                ended = true;
            } else if utf8_len_exceeds(&line, 1) {
                if any_kept {
                    out.push('\n');
                }
                push_all(&mut out, &line);
                any_kept = true;
                proof {
                    reveal_strlit("\n");
                    let nk = kept.push(line@);
                    assert(nk.drop_last() =~= kept);
                    if kept.len() == 0 {
                        assert(out@ =~= joined_lines(nk));
                    } else {
                        assert(out@ =~= joined_lines(nk));
                    }
                    kept = nk;
                }
            }
        }
        i = i + 1;
    }
    to_string(&out)
}


// ---------------------------------------------------------------------------
// The log clean-up program's arguments
// ---------------------------------------------------------------------------

/// What the log clean-up program's arguments ask for.
#[derive(Debug, Clone, PartialEq, Eq)]
pub enum CleanupArgs {
    /// Clean up the logs of `project`, keeping those of the last `days` days, and
    /// the essential logs where `keep_essential`.
    Run { project: String, days: u64, keep_essential: bool },
    /// Show the help.
    Help,
    /// An option is missing its value.
    MissingValue(String),
    /// The number of days is not a number.
    InvalidDays,
    /// An argument is not known.
    Unknown(String),
}

/// What the clean-up arguments ask for, as plain values.
pub enum CleanupRequest {
    Run(Seq<char>, u64, bool),
    Help,
    MissingValue(Seq<char>),
    InvalidDays,
    Unknown(Seq<char>),
}

impl CleanupArgs {
    pub open spec fn request(self) -> CleanupRequest {
        match self {
            CleanupArgs::Run { project, days, keep_essential } => CleanupRequest::Run(project@, days, keep_essential),
            CleanupArgs::Help => CleanupRequest::Help,
            CleanupArgs::MissingValue(o) => CleanupRequest::MissingValue(o@),
            CleanupArgs::InvalidDays => CleanupRequest::InvalidDays,
            CleanupArgs::Unknown(a) => CleanupRequest::Unknown(a@),
        }
    }
}

/// The reading of the clean-up arguments from index `i` on (the program's name
/// first): "--project"/"-p" and "--days"/"-d" take the next argument, "--all"/"-a"
/// removes essential logs too, "--help"/"-h" asks for the help, and anything else
/// is unknown. The defaults are ".", seven days, and keeping essential logs.
pub open spec fn cleanup_from(args: Seq<Seq<char>>, i: int, project: Seq<char>, days: u64, keep: bool) -> CleanupRequest
    decreases args.len() - i,
{
    if i < 1 || i >= args.len() {
        CleanupRequest::Run(project, days, keep)
    } else {
        let a = args[i];
        if a == "--project"@ || a == "-p"@ {
            if i + 1 < args.len() {
                cleanup_from(args, i + 2, args[i + 1], days, keep)
            } else {
                CleanupRequest::MissingValue("--project"@)
            }
        } else if a == "--days"@ || a == "-d"@ {
            if i + 1 < args.len() {
                match parse_u64(args[i + 1]) {
                    Some(d) => cleanup_from(args, i + 2, project, d, keep),
                    None => CleanupRequest::InvalidDays,
                }
            } else {
                CleanupRequest::MissingValue("--days"@)
            }
        } else if a == "--all"@ || a == "-a"@ {
            cleanup_from(args, i + 1, project, days, false)
        } else if a == "--help"@ || a == "-h"@ {
            CleanupRequest::Help
        } else {
            CleanupRequest::Unknown(a)
        }
    }
}

/// Reads the log clean-up program's arguments.
pub fn parse_cleanup_args(args: &Vec<String>) -> (r: CleanupArgs)
    ensures
        r.request() == cleanup_from(args@.map_values(|a: String| a@), 1, "."@, 7, true),
{
    let ghost av = args@.map_values(|a: String| a@);
    let mut project = owned(".");
    let mut days: u64 = 7;
    let mut keep = true;
    let mut i: usize = 1;
    while i < args.len()
        invariant
            1 <= i,
            av == args@.map_values(|a: String| a@),
            cleanup_from(av, 1, "."@, 7, true) == cleanup_from(av, i as int, project@, days, keep),
        decreases args@.len() - i,
    {
        let a = chars_of(args[i].as_str());
        assert(a@ == av[i as int]);
        let has_value = i + 1 < args.len();
        if same_text(&a, &chars_of("--project")) || same_text(&a, &chars_of("-p")) {
            if has_value {
                assert(av[i + 1] == args@[i + 1]@);
                project = owned(args[i + 1].as_str());
                i = i + 2;
            } else {
                return CleanupArgs::MissingValue(owned("--project"));
            }
        } else if same_text(&a, &chars_of("--days")) || same_text(&a, &chars_of("-d")) {
            if has_value {
                assert(av[i + 1] == args@[i + 1]@);
                match parse_u64_exec(&chars_of(args[i + 1].as_str())) {
                    Some(d) => {
                        days = d;
                        i = i + 2;
                    },
                    None => {
                        return CleanupArgs::InvalidDays;
                    },
                }
            } else {
                return CleanupArgs::MissingValue(owned("--days"));
            }
        } else if same_text(&a, &chars_of("--all")) || same_text(&a, &chars_of("-a")) {
            keep = false;
            i = i + 1;
        } else if same_text(&a, &chars_of("--help")) || same_text(&a, &chars_of("-h")) {
            return CleanupArgs::Help;
        } else {
            return CleanupArgs::Unknown(owned(args[i].as_str()));
        }
    }
    CleanupArgs::Run { project, days, keep_essential: keep }
}

// ---------------------------------------------------------------------------
// The API check program's arguments
// ---------------------------------------------------------------------------

/// What the API check program's arguments ask for.
#[derive(Debug, Clone, Copy, PartialEq, Eq)]
pub struct CheckApiArgs {
    pub lightweight: bool,
    pub wait: bool,
    pub timeout_secs: u64,
    pub help: bool,
}

/// The flags among the first `k` arguments (all of them, the program's name too):
/// "--lightweight"/"-l", "--wait"/"-w", and the last "--timeout=N" whose N reads as
/// a number (60 by default).
pub open spec fn check_flags(args: Seq<Seq<char>>, k: int) -> (bool, bool, u64)
    decreases k,
{
    if k <= 0 || k > args.len() {
        (false, false, 60)
    } else {
        let (l, w, t) = check_flags(args, k - 1);
        let a = args[k - 1];
        if a == "--lightweight"@ || a == "-l"@ {
            (true, w, t)
        } else if a == "--wait"@ || a == "-w"@ {
            (l, true, t)
        } else if starts_with(a, "--timeout="@) {
            match parse_u64(a.subrange(10, a.len() as int)) {
                Some(n) => (l, w, n),
                None => (l, w, t),
            }
        } else {
            (l, w, t)
        }
    }
}

/// Reads the API check program's arguments; the help is asked for by "--help" or
/// "-h" right after the program's name.
pub fn parse_check_api_args(args: &Vec<String>) -> (r: CheckApiArgs)
    ensures
        ({
            let av = args@.map_values(|a: String| a@);
            &&& (r.lightweight, r.wait, r.timeout_secs) == check_flags(av, av.len() as int)
            &&& r.help == (av.len() > 1 && (av[1] == "--help"@ || av[1] == "-h"@))
        }),
{
    proof {
        reveal_strlit("--timeout=");
    }
    let ghost av = args@.map_values(|a: String| a@);
    let mut lightweight = false;
    let mut wait = false;
    let mut timeout: u64 = 60;
    let prefix = chars_of("--timeout=");
    let mut i: usize = 0;
    while i < args.len()
        invariant
            i <= args@.len(),
            av == args@.map_values(|a: String| a@),
            prefix@ == "--timeout="@,
            check_flags(av, i as int) == (lightweight, wait, timeout),
        decreases args@.len() - i,
    {
        let a = chars_of(args[i].as_str());
        assert(a@ == av[i as int]);
        if same_text(&a, &chars_of("--lightweight")) || same_text(&a, &chars_of("-l")) {
            lightweight = true;
        } else if same_text(&a, &chars_of("--wait")) || same_text(&a, &chars_of("-w")) {
            wait = true;
        } else if starts_with_exec(&a, &prefix) {
            proof {
                reveal_strlit("--timeout=");
                assert(prefix@.len() == 10);
            }
            match parse_u64_exec(&crate::text::suffix_from(&a, 10)) {
                Some(n) => {
                    timeout = n;
                },
                None => {},
            }
        }
        i = i + 1;
    }
    let help = if args.len() > 1 {
        let b = chars_of(args[1].as_str());
        assert(b@ == av[1]);
        same_text(&b, &chars_of("--help")) || same_text(&b, &chars_of("-h"))
    } else {
        false
    };
    CheckApiArgs { lightweight, wait, timeout_secs: timeout, help }
}

} // verus!
