//! The rules of the HTTP service that runs generation jobs: which names may become
//! paths, how a request's model settings override the platform's, which files are
//! offered for download and with which content type, and how jobs change state.
use vstd::prelude::*;
use crate::config::Config;
use crate::text::{
    after_last, after_last_exec, chars_of, contains, contains_exec, has_char, has_char_exec,
    owned, push_str, same_text, starts_with, starts_with_exec, to_string, trim, trim_end_char,
    trim_end_char_exec, trim_exec,
};

verus! {

/// A chapter of a finished job, as the service reports it.
#[derive(Debug, Clone)]
pub struct JobChapter {
    pub number: usize,
    pub title: String,
    pub content: String,
}

/// A request to generate a book.
#[derive(Debug, Clone)]
pub struct GenerateRequest {
    pub book_id: String,
    pub title: String,
    pub braindump: Option<String>,
    pub genre: Option<String>,
    pub style: Option<String>,
    pub characters: Option<String>,
    pub synopsis: Option<String>,
    pub chapter_count: Option<usize>,
    pub author_name: Option<String>,
    /// Bring-your-own inference: OpenAI-compatible API base URL. When set,
    /// generation uses this endpoint instead of the platform default.
    pub llm_api_base: Option<String>,
    /// Model name to use with the override endpoint (or platform gateway).
    pub llm_model: Option<String>,
    /// API key for the override endpoint. Never falls back to the platform
    /// key when an override base URL is provided.
    pub llm_api_key: Option<String>,
}

/// The answer to a generation request.
#[derive(Debug, Clone)]
pub struct GenerateResponse {
    pub job_id: String,
    pub status: String,
    pub message: String,
}

/// The answer to a health check.
#[derive(Debug, Clone)]
pub struct HealthResponse {
    pub status: String,
    pub version: String,
}

// ---------------------------------------------------------------------------
// Model overrides
// ---------------------------------------------------------------------------

/// An optional request field, trimmed, where it holds more than white space.
pub open spec fn given(v: Option<String>) -> Option<Seq<char>> {
    match v {
        Some(s) => if trim(s@).len() > 0 {
            Some(trim(s@))
        } else {
            None
        },
        None => None,
    }
}

/// The fields of the settings that no model override touches are the same.
pub open spec fn same_except_model_settings(a: Config, b: Config) -> bool {
    &&& a.anthropic_api_key == b.anthropic_api_key
    &&& a.genre == b.genre
    &&& a.writing_style == b.writing_style
    &&& a.target_audience == b.target_audience
    &&& a.max_chapters == b.max_chapters
    &&& a.max_scenes_per_chapter == b.max_scenes_per_chapter
    &&& a.max_content_length == b.max_content_length
    &&& a.auto_generate == b.auto_generate
    &&& a.summary_cache_duration == b.summary_cache_duration
    &&& a.log_retention_days == b.log_retention_days
}

/// The settings after a request's overrides: a given base URL selects the
/// OpenAI-compatible provider at that URL (without trailing '/') with the request's
/// key, or "no-key", and never the platform's key; a given model replaces the model.
pub open spec fn overridden(before: Config, after: Config, request: GenerateRequest) -> bool {
    &&& same_except_model_settings(before, after)
    &&& match given(request.llm_api_base) {
        Some(base) => {
            &&& after.llm_provider@ == "openai"@
            &&& after.openai_api_base@ == trim_end_char(base, '/')
            &&& after.openai_api_key@ == match given(request.llm_api_key) {
                Some(key) => key,
                None => "no-key"@,
            }
        },
        None => {
            &&& after.llm_provider == before.llm_provider
            &&& after.openai_api_base == before.openai_api_base
            &&& after.openai_api_key == before.openai_api_key
        },
    }
    &&& match given(request.llm_model) {
        Some(model) => after.model@ == model,
        None => after.model == before.model,
    }
}

/// A request field, trimmed, where it holds more than white space.
fn given_exec(v: &Option<String>) -> (r: Option<Vec<char>>)
    ensures
        match given(*v) {
            Some(t) => r matches Some(x) && x@ == t,
            None => r is None,
        },
{
    match v {
        Some(s) => {
            let t = trim_exec(&chars_of(s.as_str()));
            if t.len() > 0 {
                Some(t)
            } else {
                None
            }
        },
        None => None,
    }
}

/// Applies per-request LLM overrides to the environment-derived config.
/// An override base URL switches the provider to the OpenAI-compatible path
/// and never reuses the platform API key.
pub fn apply_llm_overrides(config: &mut Config, request: &GenerateRequest)
    ensures
        overridden(*old(config), *final(config), *request),
{
    if let Some(base) = given_exec(&request.llm_api_base) {
        config.llm_provider = owned("openai");
        config.openai_api_base = to_string(&trim_end_char_exec(&base, '/'));
        config.openai_api_key = match given_exec(&request.llm_api_key) {
            Some(key) => to_string(&key),
            None => owned("no-key"),
        };
    }
    if let Some(model) = given_exec(&request.llm_model) {
        config.model = to_string(&model);
    }
}

/// A request that names its own endpoint but no key never runs with the platform's
/// key: the key becomes "no-key", which differs from any platform key but that one.
pub proof fn law_override_never_reuses_platform_key(before: Config, after: Config, request: GenerateRequest)
    requires
        overridden(before, after, request),
        given(request.llm_api_base) is Some,
        given(request.llm_api_key) is None,
        before.openai_api_key@ != "no-key"@,
    ensures
        after.openai_api_key@ != before.openai_api_key@,
        after.llm_provider@ == "openai"@,
{
}

/// The settings of a job: generation runs without asking, the request's chapter
/// count (if any) bounds the chapters, and the request's model overrides apply.
pub fn prepare_job_config(config: &mut Config, request: &GenerateRequest)
    ensures
        final(config).auto_generate,
        final(config).max_chapters == match request.chapter_count {
            Some(n) => n,
            None => old(config).max_chapters,
        },
        ({
            let mid = Config {
                auto_generate: true,
                max_chapters: final(config).max_chapters,
                ..*old(config)
            };
            overridden(mid, *final(config), *request)
        }),
{
    config.auto_generate = true;
    if let Some(count) = request.chapter_count {
        config.max_chapters = count;
    }
    apply_llm_overrides(config, request);
}

// ---------------------------------------------------------------------------
// Paths and files
// ---------------------------------------------------------------------------

/// A name that cannot leave the directory it is joined to: not empty, not hidden,
/// and without "..", '/', '\\' or NUL.
pub open spec fn safe_component(name: Seq<char>) -> bool {
    &&& name.len() > 0
    &&& !starts_with(name, "."@)
    &&& !contains(name, ".."@)
    &&& !has_char(name, '/')
    &&& !has_char(name, '\\')
    &&& !has_char(name, '\0')
}

/// Rejects path components that could escape the output directory.
pub fn is_safe_path_component(name: &str) -> (r: bool)
    ensures
        r == safe_component(name@),
{
    let s = chars_of(name);
    s.len() > 0 && !starts_with_exec(&s, &chars_of(".")) && !contains_exec(&s, &chars_of(".."))
        && !has_char_exec(&s, '/') && !has_char_exec(&s, '\\') && !has_char_exec(&s, '\0')
}

/// The content type served for a file extension.
pub open spec fn content_type(ext: Seq<char>) -> Seq<char> {
    if ext == "pdf"@ {
        "application/pdf"@
    } else if ext == "epub"@ {
        "application/epub+zip"@
    } else if ext == "html"@ {
        "text/html; charset=utf-8"@
    } else if ext == "md"@ {
        "text/markdown; charset=utf-8"@
    } else if ext == "json"@ {
        "application/json"@
    } else if ext == "txt"@ {
        "text/plain; charset=utf-8"@
    } else {
        "application/octet-stream"@
    }
}

/// The content type of a file, by the text after its last '.'.
pub fn content_type_for(name: &str) -> (r: &'static str)
    ensures
        r@ == content_type(after_last(name@, '.')),
{
    let ext = after_last_exec(&chars_of(name), '.');
    if same_text(&ext, &chars_of("pdf")) {
        "application/pdf"
    } else if same_text(&ext, &chars_of("epub")) {
        "application/epub+zip"
    } else if same_text(&ext, &chars_of("html")) {
        "text/html; charset=utf-8"
    } else if same_text(&ext, &chars_of("md")) {
        "text/markdown; charset=utf-8"
    } else if same_text(&ext, &chars_of("json")) {
        "application/json"
    } else if same_text(&ext, &chars_of("txt")) {
        "text/plain; charset=utf-8"
    } else {
        "application/octet-stream"
    }
}

/// The extensions of the rendered outputs that are offered for download.
pub open spec fn downloadable_ext(ext: Seq<char>) -> bool {
    ext == "pdf"@ || ext == "epub"@ || ext == "html"@ || ext == "md"@ || ext == "json"@
        || ext == "txt"@
}

/// A file name that is offered for download: a safe name with such an extension.
pub open spec fn downloadable(name: Seq<char>) -> bool {
    safe_component(name) && downloadable_ext(after_last(name, '.'))
}

/// Whether a file of a book's directory is offered for download.
pub fn is_downloadable(name: &str) -> (r: bool)
    ensures
        r == downloadable(name@),
{
    if !is_safe_path_component(name) {
        return false;
    }
    let ext = after_last_exec(&chars_of(name), '.');
    same_text(&ext, &chars_of("pdf")) || same_text(&ext, &chars_of("epub")) || same_text(
        &ext,
        &chars_of("html"),
    ) || same_text(&ext, &chars_of("md")) || same_text(&ext, &chars_of("json")) || same_text(
        &ext,
        &chars_of("txt"),
    )
}

/// The names of `names` that are offered for download, in their order.
pub open spec fn downloadable_names(names: Seq<Seq<char>>) -> Seq<Seq<char>>
    decreases names.len(),
{
    if names.len() == 0 {
        Seq::empty()
    } else {
        let rest = downloadable_names(names.drop_last());
        if downloadable(names.last()) {
            rest.push(names.last())
        } else {
            rest
        }
    }
}

/// The texts of a list of strings.
pub open spec fn texts(v: Seq<String>) -> Seq<Seq<char>> {
    v.map_values(|s: String| s@)
}

/// Keeps the file names of a book's directory that are offered for download.
pub fn downloadable_files(names: &Vec<String>) -> (r: Vec<String>)
    ensures
        texts(r@) == downloadable_names(texts(names@)),
{
    let mut out: Vec<String> = Vec::new();
    let mut i: usize = 0;
    while i < names.len()
        invariant
            i <= names@.len(),
            texts(out@) == downloadable_names(texts(names@).take(i as int)),
        decreases names@.len() - i,
    {
        let name = &names[i];
        assert(texts(names@).take(i + 1).drop_last() =~= texts(names@).take(i as int));
        if is_downloadable(name.as_str()) {
            out.push(owned(name.as_str()));
            assert(texts(out@) =~= downloadable_names(texts(names@).take(i as int)).push(name@));
        }
        i = i + 1;
    }
    assert(texts(names@).take(names@.len() as int) =~= texts(names@));
    out
}

/// The order of strings: by their characters, one after the other (for UTF-8
/// text the order of the bytes and that of the characters agree), a string before
/// those it begins.
pub open spec fn text_le(a: Seq<char>, b: Seq<char>) -> bool
    decreases a.len(),
{
    if a.len() == 0 {
        true
    } else if b.len() == 0 {
        false
    } else if a[0] != b[0] {
        a[0] < b[0]
    } else {
        text_le(a.drop_first(), b.drop_first())
    }
}

proof fn lemma_text_le_total(a: Seq<char>, b: Seq<char>)
    ensures
        text_le(a, b) || text_le(b, a),
    decreases a.len(),
{
    if a.len() > 0 && b.len() > 0 && a[0] == b[0] {
        lemma_text_le_total(a.drop_first(), b.drop_first());
    }
}

proof fn lemma_text_le_trans(a: Seq<char>, b: Seq<char>, c: Seq<char>)
    requires
        text_le(a, b),
        text_le(b, c),
    ensures
        text_le(a, c),
    decreases a.len(),
{
    if a.len() > 0 && b.len() > 0 && c.len() > 0 && a[0] == b[0] && b[0] == c[0] {
        lemma_text_le_trans(a.drop_first(), b.drop_first(), c.drop_first());
    }
}

fn text_le_exec(a: &Vec<char>, b: &Vec<char>) -> (r: bool)
    ensures
        r == text_le(a@, b@),
{
    assert(a@.subrange(0, a@.len() as int) =~= a@);
    assert(b@.subrange(0, b@.len() as int) =~= b@);
    let mut i: usize = 0;
    while i < a.len()
        invariant
            i <= a@.len(),
            i <= b@.len(),
            text_le(a@, b@) == text_le(a@.subrange(i as int, a@.len() as int), b@.subrange(i as int, b@.len() as int)),
        decreases a@.len() - i,
    {
        let ghost sa = a@.subrange(i as int, a@.len() as int);
        let ghost sb = b@.subrange(i as int, b@.len() as int);
        if i >= b.len() {
            return false;
        }
        assert(sa[0] == a@[i as int] && sb[0] == b@[i as int]);
        if a[i] != b[i] {
            return a[i] < b[i];
        }
        assert(sa.drop_first() =~= a@.subrange(i + 1, a@.len() as int));
        assert(sb.drop_first() =~= b@.subrange(i + 1, b@.len() as int));
        i = i + 1;
    }
    true
}

/// The names are in the order of `text_le`.
pub open spec fn texts_sorted(v: Seq<Seq<char>>) -> bool {
    forall|i: int, j: int| 0 <= i < j < v.len() ==> text_le(v[i], v[j])
}

/// The file names of a book's directory that are offered for download, sorted:
/// the downloadable names, each as often as it is given, in string order.
pub fn sorted_downloadable_files(names: &Vec<String>) -> (r: Vec<String>)
    ensures
        texts_sorted(texts(r@)),
        texts(r@).to_multiset() == downloadable_names(texts(names@)).to_multiset(),
{
    broadcast use vstd::seq_lib::group_to_multiset_ensures;
    let d = downloadable_files(names);
    let mut out: Vec<String> = Vec::new();
    let mut i: usize = 0;
    while i < d.len()
        invariant
            i <= d@.len(),
            texts_sorted(texts(out@)),
            texts(out@).to_multiset() == texts(d@).take(i as int).to_multiset(),
        decreases d@.len() - i,
    {
        let x = chars_of(d[i].as_str());
        let mut p: usize = 0;
        while p < out.len() && text_le_exec(&chars_of(out[p].as_str()), &x)
            invariant
                p <= out@.len(),
                i < d@.len(),
                x@ == d@[i as int]@,
                forall|a: int| 0 <= a < p ==> text_le(#[trigger] texts(out@)[a], x@),
            decreases out@.len() - p,
        {
            p = p + 1;
        }
        let ghost old_t = texts(out@);
        proof {
            if p < out.len() {
                lemma_text_le_total(old_t[p as int], x@);
            }
        }
        out.insert(p, owned(d[i].as_str()));
        proof {
            let t = texts(out@);
            assert(t =~= old_t.insert(p as int, x@));
            assert forall|a: int, b: int| 0 <= a < b < t.len() implies text_le(t[a], t[b]) by {
                if b < p {
                    assert(t[a] == old_t[a] && t[b] == old_t[b]);
                } else if b == p {
                    assert(t[a] == old_t[a]);
                } else if a == p {
                    assert(t[b] == old_t[b - 1]);
                    if b - 1 > p {
                        lemma_text_le_trans(x@, old_t[p as int], old_t[b - 1]);
                    }
                } else if a < p {
                    assert(t[a] == old_t[a] && t[b] == old_t[b - 1]);
                } else {
                    assert(t[a] == old_t[a - 1] && t[b] == old_t[b - 1]);
                }
            }
            assert(t.remove(p as int) =~= old_t);
            assert(t[p as int] == x@);
            assert(t.contains(x@));
            t.to_multiset_ensures();
            assert(t.remove(p as int).to_multiset() =~= t.to_multiset().remove(t[p as int]));
            assert(old_t.to_multiset() =~= t.to_multiset().remove(x@));
            assert(t.to_multiset().count(x@) > 0);
            assert(t.to_multiset() =~= old_t.to_multiset().insert(x@));
            assert(texts(d@).take(i + 1) =~= texts(d@).take(i as int).push(x@));
            texts(d@).take(i as int).to_multiset_ensures();
            assert(texts(d@).take(i + 1).to_multiset() =~= texts(d@).take(i as int).to_multiset().insert(x@));
        }
        i = i + 1;
    }
    assert(texts(d@).take(d@.len() as int) =~= texts(d@));
    out
}

// ---------------------------------------------------------------------------
// Jobs
// ---------------------------------------------------------------------------

/// A job that has not yet finished: "running" or "pending".
pub open spec fn in_flight(status: Seq<char>) -> bool {
    status == "running"@ || status == "pending"@
}

/// Whether a job with this status is still running or waiting to run; such a job is
/// cancelled on request and marked failed when the service restarts.
pub fn is_in_flight(status: &str) -> (r: bool)
    ensures
        r == in_flight(status@),
{
    let s = chars_of(status);
    same_text(&s, &chars_of("running")) || same_text(&s, &chars_of("pending"))
}

/// The status and error of a restored job: an in-flight job is marked failed with
/// an error that names the restart; any other job keeps its state (`None`).
pub fn restored_job_state(status: &str) -> (r: Option<(String, String)>)
    ensures
        r is Some <==> in_flight(status@),
        r matches Some((s, e)) ==> s@ == "failed"@
            && e@ == "Interrupted by service restart; re-trigger generation to resume"@,
{
    if is_in_flight(status) {
        Some((owned("failed"), owned("Interrupted by service restart; re-trigger generation to resume")))
    } else {
        None
    }
}

/// The status of a job after a cancel request: an in-flight job becomes
/// "cancelled"; any other keeps its status.
pub fn cancelled_status(status: &str) -> (r: String)
    ensures
        in_flight(status@) ==> r@ == "cancelled"@,
        !in_flight(status@) ==> r@ == status@,
{
    if is_in_flight(status) {
        owned("cancelled")
    } else {
        owned(status)
    }
}

/// The answer to an accepted generation request.
pub fn started_response(job_id: &str) -> (r: GenerateResponse)
    ensures
        r.job_id@ == job_id@,
        r.status@ == "started"@,
        r.message@ == "Book generation started. Poll job status for updates."@,
{
    GenerateResponse {
        job_id: owned(job_id),
        status: owned("started"),
        message: owned("Book generation started. Poll job status for updates."),
    }
}

/// The text of an optional request field, or nothing.
pub open spec fn or_empty(v: Option<String>) -> Seq<char> {
    match v {
        Some(s) => s@,
        None => Seq::empty(),
    }
}

/// The metadata file that a job starts from: the request's title and the parts of
/// the book that it supplies.
pub open spec fn initial_metadata(r: GenerateRequest) -> Seq<char> {
    "# Book Metadata\n\n## Title\n"@ + r.title@ + "\n\n## Braindump\n"@ + or_empty(r.braindump)
        + "\n\n## Genre\n"@ + or_empty(r.genre) + "\n\n## Style\n"@ + or_empty(r.style)
        + "\n\n## Characters\n"@ + or_empty(r.characters) + "\n\n## Synopsis\n"@ + or_empty(
        r.synopsis,
    ) + "\n"@
}

fn push_field(out: &mut Vec<char>, v: &Option<String>)
    ensures
        final(out)@ == old(out)@ + or_empty(*v),
{
    match v {
        Some(s) => push_str(out, s.as_str()),
        None => {
            assert(old(out)@ + Seq::<char>::empty() =~= old(out)@);
        },
    }
}

/// Writes the metadata file that a job starts from.
pub fn initial_metadata_text(request: &GenerateRequest) -> (r: String)
    ensures
        r@ == initial_metadata(*request),
{
    let mut out = chars_of("# Book Metadata\n\n## Title\n");
    push_str(&mut out, request.title.as_str());
    push_str(&mut out, "\n\n## Braindump\n");
    push_field(&mut out, &request.braindump);
    push_str(&mut out, "\n\n## Genre\n");
    push_field(&mut out, &request.genre);
    push_str(&mut out, "\n\n## Style\n");
    push_field(&mut out, &request.style);
    push_str(&mut out, "\n\n## Characters\n");
    push_field(&mut out, &request.characters);
    push_str(&mut out, "\n\n## Synopsis\n");
    push_field(&mut out, &request.synopsis);
    push_str(&mut out, "\n");
    to_string(&out)
}

} // verus!
