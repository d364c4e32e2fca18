//! The generator's settings, with their defaults and the rules by which they are
//! read from the environment.
use vstd::prelude::*;
use crate::error::BookGeneratorError;
use crate::text::{
    chars_of, owned, parse_u64, parse_u64_exec, parse_usize, parse_usize_exec, same_text,
};
use crate::unicode::{lowercase, to_lowercase};

verus! {

/// The settings of one generation run.
#[derive(Debug, Clone)]
pub struct Config {
    pub llm_provider: String,
    pub openai_api_key: String,
    pub anthropic_api_key: String,
    /// Base URL of the OpenAI-compatible endpoint that serves the model.
    pub openai_api_base: String,
    pub model: String,
    pub genre: String,
    pub writing_style: String,
    pub target_audience: String,
    pub max_chapters: usize,
    pub max_scenes_per_chapter: usize,
    /// Maximum length of content to include in context for next scene generation.
    pub max_content_length: usize,
    /// Whether every component is generated without asking.
    pub auto_generate: bool,
    /// Seconds for which a cached temporary summary stays valid; 0 keeps it forever.
    pub summary_cache_duration: u64,
    /// Days for which log files are kept; 0 disables the clean-up.
    pub log_retention_days: u64,
}

impl Default for Config {
    fn default() -> (r: Self)
        ensures
            r.llm_provider@ == "anthropic"@,
            r.openai_api_key@ == Seq::<char>::empty(),
            r.anthropic_api_key@ == Seq::<char>::empty(),
            r.openai_api_base@ == Seq::<char>::empty(),
            r.model@ == Seq::<char>::empty(),
            r.genre@ == "Science Fiction"@,
            r.writing_style@ == "Third-person limited, present tense"@,
            r.target_audience@ == "Young Adult"@,
            r.max_chapters == 42,
            r.max_scenes_per_chapter == 3,
            r.max_content_length == 17000,
            !r.auto_generate,
            r.summary_cache_duration == 86400,
            r.log_retention_days == 7,
    {
        Config {
            llm_provider: owned("anthropic"),
            openai_api_key: String::new(),
            anthropic_api_key: String::new(),
            openai_api_base: String::new(),
            model: String::new(),
            genre: owned("Science Fiction"),
            writing_style: owned("Third-person limited, present tense"),
            target_audience: owned("Young Adult"),
            max_chapters: 42,
            max_scenes_per_chapter: 3,
            max_content_length: 17000,
            auto_generate: false,
            summary_cache_duration: 86400,
            log_retention_days: 7,
        }
    }
}

/// The environment variables that the settings are read from, each `None` where it
/// is unset or not valid Unicode.
#[derive(Debug, Clone, Default)]
pub struct EnvValues {
    pub llm_provider: Option<String>,
    pub openai_api_key: Option<String>,
    pub anthropic_api_key: Option<String>,
    pub openai_api_base: Option<String>,
    pub model: Option<String>,
    pub genre: Option<String>,
    pub writing_style: Option<String>,
    pub target_audience: Option<String>,
    pub max_chapters: Option<String>,
    pub max_scenes_per_chapter: Option<String>,
    pub max_content_length: Option<String>,
    pub auto_generate: Option<String>,
    pub summary_cache_duration: Option<String>,
    pub log_retention_days: Option<String>,
}

/// A variable's text, or `d` where it is missing.
pub open spec fn text_or(v: Option<String>, d: Seq<char>) -> Seq<char> {
    match v {
        Some(s) => s@,
        None => d,
    }
}

/// A variable read as a `usize`, or `d` where it is missing or does not parse.
pub open spec fn usize_or(v: Option<String>, d: usize) -> usize {
    match v {
        Some(s) => match parse_usize(s@) {
            Some(n) => n,
            None => d,
        },
        None => d,
    }
}

/// A variable read as a `u64`, or `d` where it is missing or does not parse.
pub open spec fn u64_or(v: Option<String>, d: u64) -> u64 {
    match v {
        Some(s) => match parse_u64(s@) {
            Some(n) => n,
            None => d,
        },
        None => d,
    }
}

/// A variable read as a `bool` once lower-cased ("true" or "false"), or `d`.
pub open spec fn bool_or(v: Option<String>, d: bool) -> bool {
    match v {
        Some(s) => if lowercase(s@) == "true"@ {
            true
        } else if lowercase(s@) == "false"@ {
            false
        } else {
            d
        },
        None => d,
    }
}

/// The model used for a provider when none is configured; the "anthropic" provider
/// has none, so MODEL must name its model.
pub open spec fn default_model(provider: Seq<char>) -> Seq<char> {
    if provider == "openai"@ {
        "gpt-4o"@
    } else if provider == "anthropic"@ {
        Seq::empty()
    } else {
        "deepseek-coder-v2:16b"@
    }
}

/// The provider that the environment selects ("ollama" by default).
pub open spec fn env_provider(env: EnvValues) -> Seq<char> {
    text_or(env.llm_provider, "ollama"@)
}

/// The variable whose absence makes the settings invalid: the API key of the
/// selected provider, where that provider needs one and it is empty.
pub open spec fn missing_key(env: EnvValues) -> Option<Seq<char>> {
    let p = env_provider(env);
    if p == "openai"@ && text_or(env.openai_api_key, Seq::empty()).len() == 0 {
        Some("OPENAI_API_KEY"@)
    } else if p == "anthropic"@ && text_or(env.anthropic_api_key, Seq::empty()).len() == 0 {
        Some("ANTHROPIC_API_KEY"@)
    } else {
        None
    }
}

/// The settings that the environment gives, field by field.
pub open spec fn config_from_env(c: Config, env: EnvValues) -> bool {
    let p = env_provider(env);
    &&& c.llm_provider@ == p
    &&& c.openai_api_key@ == text_or(env.openai_api_key, Seq::empty())
    &&& c.anthropic_api_key@ == text_or(env.anthropic_api_key, Seq::empty())
    &&& c.openai_api_base@ == text_or(env.openai_api_base, Seq::empty())
    &&& c.model@ == text_or(env.model, default_model(p))
    &&& c.genre@ == text_or(env.genre, "Science Fiction"@)
    &&& c.writing_style@ == text_or(env.writing_style, "Third-person limited, present tense"@)
    &&& c.target_audience@ == text_or(env.target_audience, "Young Adult"@)
    &&& c.max_chapters == usize_or(env.max_chapters, 20)
    &&& c.max_scenes_per_chapter == usize_or(env.max_scenes_per_chapter, 3)
    &&& c.max_content_length == usize_or(env.max_content_length, 17000)
    &&& c.auto_generate == bool_or(env.auto_generate, false)
    &&& c.summary_cache_duration == u64_or(env.summary_cache_duration, 86400)
    &&& c.log_retention_days == u64_or(env.log_retention_days, 7)
}

/// Whether two texts are equal.
pub fn text_eq(a: &str, b: &str) -> (r: bool)
    ensures
        r == (a@ == b@),
{
    same_text(&chars_of(a), &chars_of(b))
}

fn read_text(v: &Option<String>, d: &str) -> (r: String)
    ensures
        r@ == text_or(*v, d@),
{
    match v {
        Some(s) => owned(s.as_str()),
        None => owned(d),
    }
}

fn read_usize(v: &Option<String>, d: usize) -> (r: usize)
    ensures
        r == usize_or(*v, d),
{
    match v {
        Some(s) => match parse_usize_exec(&chars_of(s.as_str())) {
            Some(n) => n,
            None => d,
        },
        None => d,
    }
}

fn read_u64(v: &Option<String>, d: u64) -> (r: u64)
    ensures
        r == u64_or(*v, d),
{
    match v {
        Some(s) => match parse_u64_exec(&chars_of(s.as_str())) {
            Some(n) => n,
            None => d,
        },
        None => d,
    }
}

fn read_bool(v: &Option<String>, d: bool) -> (r: bool)
    ensures
        r == bool_or(*v, d),
{
    match v {
        Some(s) => {
            let low = to_lowercase(s.as_str());
            if text_eq(low.as_str(), "true") {
                true
            } else if text_eq(low.as_str(), "false") {
                false
            } else {
                d
            }
        },
        None => d,
    }
}

impl Config {
    /// The settings from the values of the environment variables LLM_PROVIDER,
    /// OPENAI_API_KEY, ANTHROPIC_API_KEY, OPENAI_API_BASE, MODEL, GENRE,
    /// WRITING_STYLE, TARGET_AUDIENCE, MAX_CHAPTERS, MAX_SCENES_PER_CHAPTER,
    /// MAX_CONTENT_LENGTH, AUTO_GENERATE, SUMMARY_CACHE_DURATION and
    /// LOG_RETENTION_DAYS. Fails where the selected provider needs an API key and
    /// its key is empty.
    pub fn from_env_values(env: &EnvValues) -> (r: Result<Config, BookGeneratorError>)
        ensures
            r is Ok <==> missing_key(*env) is None,
            r matches Err(e) ==> (e matches BookGeneratorError::MissingEnvVar(n)
                && missing_key(*env) == Some(n@)),
            r matches Ok(c) ==> config_from_env(c, *env),
    {
        let llm_provider = read_text(&env.llm_provider, "ollama");
        let openai_api_key = read_text(&env.openai_api_key, "");
        let anthropic_api_key = read_text(&env.anthropic_api_key, "");
        proof {
            reveal_strlit("");
            assert(""@ =~= Seq::<char>::empty());
        }
        if text_eq(llm_provider.as_str(), "openai") && openai_api_key.as_str().is_empty() {
            return Err(BookGeneratorError::MissingEnvVar(owned("OPENAI_API_KEY")));
        }
        if text_eq(llm_provider.as_str(), "anthropic") && anthropic_api_key.as_str().is_empty() {
            return Err(BookGeneratorError::MissingEnvVar(owned("ANTHROPIC_API_KEY")));
        }
        let default_model = if text_eq(llm_provider.as_str(), "openai") {
            "gpt-4o"
        } else if text_eq(llm_provider.as_str(), "anthropic") {
            ""
        } else {
            "deepseek-coder-v2:16b"
        };
        let model = read_text(&env.model, default_model);
        Ok(Config {
            llm_provider,
            openai_api_key,
            anthropic_api_key,
            openai_api_base: read_text(&env.openai_api_base, ""),
            model,
            genre: read_text(&env.genre, "Science Fiction"),
            writing_style: read_text(&env.writing_style, "Third-person limited, present tense"),
            target_audience: read_text(&env.target_audience, "Young Adult"),
            max_chapters: read_usize(&env.max_chapters, 20),
            max_scenes_per_chapter: read_usize(&env.max_scenes_per_chapter, 3),
            max_content_length: read_usize(&env.max_content_length, 17000),
            auto_generate: read_bool(&env.auto_generate, false),
            summary_cache_duration: read_u64(&env.summary_cache_duration, 86400),
            log_retention_days: read_u64(&env.log_retention_days, 7),
        })
    }

    /// The model to use for a phase of generation: the configured model.
    pub fn get_model_for_phase(&self, _phase: &str) -> (r: &str)
        ensures
            r@ == self.model@,
    {
        self.model.as_str()
    }
}

} // verus!
