//! The model side of generation: the gateway settings taken from the book's
//! settings, the folding of a chat into a system and a user prompt, the framing of
//! the system prompt, and the retry rule for an overloaded model service.
use vstd::prelude::*;
use crate::config::Config;
use crate::text::{
    chars_of, contains, contains_exec, owned, parse_u64, parse_u64_exec, push_str, starts_with,
    starts_with_exec, to_string, trim_end_char, trim_end_char_exec,
};

verus! {

/// What can go wrong when the model is called.
#[derive(Debug, Clone, PartialEq, Eq)]
pub enum Error {
    ApiError(String),
    ConfigError(String),
    ClientError(String),
    Other(String),
}

/// The text that a model returned, with its token usage where it was reported.
#[derive(Debug)]
pub struct GenerationResponse {
    pub text: String,
    pub usage: Option<TokenUsage>,
}

/// The tokens of one model call.
#[derive(Debug, Clone, Copy)]
pub struct TokenUsage {
    pub prompt_tokens: usize,
    pub completion_tokens: usize,
}

/// The maximum number of tokens of a completion where the caller sets none.
pub const DEFAULT_MAX_TOKENS: u32 = 32000;

/// The maximum number of tokens of a completion: the caller's (cut to 32 bits, as
/// `as u32` does) or the default.
pub fn max_tokens_or_default(max_tokens: Option<usize>) -> (r: u32)
    ensures
        r == match max_tokens {
            Some(t) => t as u32,
            None => DEFAULT_MAX_TOKENS,
        },
{
    match max_tokens {
        Some(t) => t as u32,
        None => DEFAULT_MAX_TOKENS,
    }
}

// ---------------------------------------------------------------------------
// The gateway
// ---------------------------------------------------------------------------

/// The settings of the OpenAI-compatible gateway that serves the model.
#[derive(Debug, Clone)]
pub struct GatewayConfig {
    pub base_url: String,
    pub model: String,
    pub api_key: Option<String>,
}

/// The gateway settings of a book's settings: the base URL without trailing '/',
/// the model, and the API key where it is not empty.
pub fn gateway_config(config: &Config) -> (r: GatewayConfig)
    ensures
        r.base_url@ == trim_end_char(config.openai_api_base@, '/'),
        r.model@ == config.model@,
        match r.api_key {
            Some(k) => k@ == config.openai_api_key@ && k@.len() > 0,
            None => config.openai_api_key@.len() == 0,
        },
{
    let key = if config.openai_api_key.as_str().is_empty() {
        None
    } else {
        Some(owned(config.openai_api_key.as_str()))
    };
    GatewayConfig {
        base_url: to_string(&trim_end_char_exec(&chars_of(config.openai_api_base.as_str()), '/')),
        model: owned(config.model.as_str()),
        api_key: key,
    }
}

/// The model for one call: the caller's where it is not empty, else the gateway's.
pub fn model_for_call(gateway_model: &str, model: &str) -> (r: String)
    ensures
        r@ == if model@.len() > 0 {
            model@
        } else {
            gateway_model@
        },
{
    if model.is_empty() {
        owned(gateway_model)
    } else {
        owned(model)
    }
}

// ---------------------------------------------------------------------------
// Chats
// ---------------------------------------------------------------------------

/// Who wrote a message of a chat.
#[derive(Debug, Clone, Copy, PartialEq, Eq, Structural)]
pub enum MessageType {
    SystemMessage,
    AIMessage,
    HumanMessage,
    ToolMessage,
}

/// A message of a chat.
#[derive(Debug, Clone)]
pub struct Message {
    pub message_type: MessageType,
    pub content: String,
}

/// The messages of one kind joined by line breaks.
pub open spec fn joined(ms: Seq<Message>, system: bool) -> Seq<char>
    decreases ms.len(),
{
    if ms.len() == 0 {
        Seq::empty()
    } else {
        let rest = joined(ms.drop_last(), system);
        let m = ms.last();
        if (m.message_type == MessageType::SystemMessage) == system {
            if rest.len() > 0 {
                rest + "\n"@ + m.content@
            } else {
                rest + m.content@
            }
        } else {
            rest
        }
    }
}

/// Splits a chat into (system, user) prompts: system messages are joined into the
/// system prompt, all others into the user prompt, each with line breaks between
/// non-empty parts.
pub fn split_messages(messages: &Vec<Message>) -> (r: (String, String))
    ensures
        r.0@ == joined(messages@, true),
        r.1@ == joined(messages@, false),
{
    let mut system: Vec<char> = Vec::new();
    let mut user: Vec<char> = Vec::new();
    let mut i: usize = 0;
    while i < messages.len()
        invariant
            i <= messages@.len(),
            system@ == joined(messages@.subrange(0, i as int), true),
            user@ == joined(messages@.subrange(0, i as int), false),
        decreases messages@.len() - i,
    {
        let m = &messages[i];
        let ghost pre = messages@.subrange(0, i + 1);
        assert(pre.drop_last() =~= messages@.subrange(0, i as int));
        assert(pre.last() == *m);
        if m.message_type == MessageType::SystemMessage {
            if system.len() > 0 {
                system.push('\n');
            }
            push_str(&mut system, m.content.as_str());
            proof {
                reveal_strlit("\n");
                assert(system@ =~= joined(pre, true));
            }
        } else {
            if user.len() > 0 {
                user.push('\n');
            }
            push_str(&mut user, m.content.as_str());
            proof {
                reveal_strlit("\n");
                assert(user@ =~= joined(pre, false));
            }
        }
        i = i + 1;
    }
    assert(messages@.subrange(0, messages@.len() as int) =~= messages@);
    (to_string(&system), to_string(&user))
}

/// The messages' contents joined by line breaks, as a single prompt.
pub open spec fn single_prompt(ms: Seq<Message>) -> Seq<char>
    decreases ms.len(),
{
    if ms.len() == 0 {
        Seq::empty()
    } else if ms.len() == 1 {
        ms[0].content@
    } else {
        single_prompt(ms.drop_last()) + "\n"@ + ms.last().content@
    }
}

/// Joins a chat into one prompt, the messages separated by line breaks.
pub fn join_messages(messages: &Vec<Message>) -> (r: String)
    ensures
        r@ == single_prompt(messages@),
{
    let mut out: Vec<char> = Vec::new();
    let mut i: usize = 0;
    while i < messages.len()
        invariant
            i <= messages@.len(),
            out@ == single_prompt(messages@.subrange(0, i as int)),
        decreases messages@.len() - i,
    {
        let ghost pre = messages@.subrange(0, i + 1);
        assert(pre.drop_last() =~= messages@.subrange(0, i as int));
        if i > 0 {
            out.push('\n');
        }
        push_str(&mut out, messages[i].content.as_str());
        proof {
            reveal_strlit("\n");
            if i == 0 {
                assert(out@ =~= single_prompt(pre));
            } else {
                assert(out@ =~= single_prompt(pre));
            }
        }
        i = i + 1;
    }
    assert(messages@.subrange(0, messages@.len() as int) =~= messages@);
    to_string(&out)
}

// ---------------------------------------------------------------------------
// The system prompt
// ---------------------------------------------------------------------------

/// What the system prompt says before the context.
pub open spec fn prompt_prefix() -> Seq<char> {
    "You are an AI assistant tasked with generating a book. Your role is to create engaging and coherent content based on the following context:\n\n"@
}

/// What the system prompt says after the context.
pub open spec fn prompt_suffix() -> Seq<char> {
    "\n\nPlease ensure that your responses are creative, consistent with the given context, and follow proper narrative structure. Be mindful of character development, plot progression, and thematic elements throughout the book generation process."@
}

/// The system prompt for a context.
pub fn frame_system_prompt(context: &str) -> (r: String)
    ensures
        r@ == prompt_prefix() + context@ + prompt_suffix(),
{
    let mut out = chars_of("You are an AI assistant tasked with generating a book. Your role is to create engaging and coherent content based on the following context:\n\n");
    push_str(&mut out, context);
    push_str(&mut out, "\n\nPlease ensure that your responses are creative, consistent with the given context, and follow proper narrative structure. Be mindful of character development, plot progression, and thematic elements throughout the book generation process.");
    to_string(&out)
}

// ---------------------------------------------------------------------------
// Anthropic
// ---------------------------------------------------------------------------

/// The side of an Anthropic conversation that a message is sent as.
#[derive(Debug, Clone, Copy, PartialEq, Eq, Structural)]
pub enum Role {
    User,
    Assistant,
}

/// The role of a chat message: the model's own messages are the assistant's, all
/// others (system messages too) the user's.
pub fn anthropic_role(t: MessageType) -> (r: Role)
    ensures
        r == (if t == MessageType::AIMessage {
            Role::Assistant
        } else {
            Role::User
        }),
{
    match t {
        MessageType::AIMessage => Role::Assistant,
        _ => Role::User,
    }
}

/// The settings of the Anthropic model client.
#[derive(Debug, Clone)]
pub struct AnthropicLLM {
    pub model: String,
    pub max_retries: usize,
}

/// What to do after a failed call.
#[derive(Debug, Clone, Copy, PartialEq, Eq, Structural)]
pub enum RetryStep {
    /// Wait `delay_ms`, then make the call again; it is retry number `retry`, and a
    /// further one waits `next_delay_ms`.
    Retry { retry: usize, delay_ms: u64, next_delay_ms: u64 },
    /// Give up and report the error.
    GiveUp,
}

/// An error that says that the service is overloaded.
pub open spec fn is_overloaded(err: Seq<char>) -> bool {
    contains(err, "overloaded"@) || contains(err, "Overloaded"@) || contains(err, "overloaded_error"@)
}

impl AnthropicLLM {
    /// A client of `model` that retries an overloaded call five times.
    pub fn new(model: &str) -> (r: AnthropicLLM)
        ensures
            r.model@ == model@,
            r.max_retries == 5,
    {
        AnthropicLLM { model: owned(model), max_retries: 5 }
    }

    /// The retry rule: a call that failed because the service is overloaded is
    /// retried while fewer than `max_retries` retries were made, after the current
    /// delay, which then doubles; any other failure is reported. The first delay is
    /// one second.
    pub fn retry_step(&self, err: &str, retries: usize, delay_ms: u64) -> (r: RetryStep)
        requires
            retries < usize::MAX,
            delay_ms * 2 <= u64::MAX,
        ensures
            r == (if is_overloaded(err@) && retries < self.max_retries {
                RetryStep::Retry { retry: (retries + 1) as usize, delay_ms, next_delay_ms: (delay_ms * 2) as u64 }
            } else {
                RetryStep::GiveUp
            }),
    {
        let e = chars_of(err);
        let overloaded = contains_exec(&e, &chars_of("overloaded")) || contains_exec(&e, &chars_of("Overloaded"))
            || contains_exec(&e, &chars_of("overloaded_error"));
        if overloaded && retries < self.max_retries {
            RetryStep::Retry { retry: retries + 1, delay_ms, next_delay_ms: delay_ms * 2 }
        } else {
            RetryStep::GiveUp
        }
    }
}

/// The first delay before a retry, in milliseconds.
pub const FIRST_RETRY_DELAY_MS: u64 = 1000;

// ---------------------------------------------------------------------------
// Ollama
// ---------------------------------------------------------------------------

/// The Ollama host: OLLAMA_HOST, else OLLAMA_BASE_URL, else "http://localhost",
/// with "http://" put in front where it names no scheme.
pub open spec fn ollama_host_of(host: Option<String>, base_url: Option<String>) -> Seq<char> {
    let h = match host {
        Some(s) => s@,
        None => match base_url {
            Some(s) => s@,
            None => "http://localhost"@,
        },
    };
    if starts_with(h, "http://"@) || starts_with(h, "https://"@) {
        h
    } else {
        "http://"@ + h
    }
}

/// The Ollama host from the values of OLLAMA_HOST and OLLAMA_BASE_URL.
pub fn ollama_host(host: &Option<String>, base_url: &Option<String>) -> (r: String)
    ensures
        r@ == ollama_host_of(*host, *base_url),
{
    let h = match host {
        Some(s) => chars_of(s.as_str()),
        None => match base_url {
            Some(s) => chars_of(s.as_str()),
            None => chars_of("http://localhost"),
        },
    };
    if starts_with_exec(&h, &chars_of("http://")) || starts_with_exec(&h, &chars_of("https://")) {
        to_string(&h)
    } else {
        let mut out = chars_of("http://");
        crate::text::push_all(&mut out, &h);
        to_string(&out)
    }
}

/// The Ollama port: OLLAMA_PORT read as a 16-bit number, else 11434.
pub fn ollama_port(port: &Option<String>) -> (r: u16)
    ensures
        r == match *port {
            Some(s) => match parse_u64(s@) {
                Some(n) => if n <= 65535 {
                    n as u16
                } else {
                    11434u16
                },
                None => 11434u16,
            },
            None => 11434u16,
        },
{
    match port {
        Some(s) => match parse_u64_exec(&chars_of(s.as_str())) {
            Some(n) => {
                if n <= 65535 {
                    n as u16
                } else {
                    11434
                }
            },
            None => 11434,
        },
        None => 11434,
    }
}


// ---------------------------------------------------------------------------
// The model service's status
// ---------------------------------------------------------------------------

/// Whether an HTTP status of the model service's model list means that the service
/// is up: a success, or 401 (the key was refused, but the service answered).
pub fn api_available_for_status(code: u16) -> (r: bool)
    ensures
        r == ((200 <= code && code <= 299) || code == 401),
{
    (200 <= code && code <= 299) || code == 401
}

/// The seconds until the status is checked again: the interval while the service
/// is up, five while it is down.
pub fn monitor_wait_secs(available: bool, interval_secs: u64) -> (r: u64)
    ensures
        r == if available { interval_secs } else { 5 },
{
    if available {
        interval_secs
    } else {
        5
    }
}

/// The longest wait, in milliseconds, between two checks while waiting for the
/// service.
pub const MAX_BACKOFF_MS: u64 = 30000;

/// The next wait, in milliseconds, while waiting for the service: half as long
/// again (rounded down), at most thirty seconds.
pub fn next_backoff_ms(ms: u64) -> (r: u64)
    requires
        ms <= MAX_BACKOFF_MS,
    ensures
        r == if ms * 3 / 2 < MAX_BACKOFF_MS { ms * 3 / 2 } else { MAX_BACKOFF_MS as int },
        r <= MAX_BACKOFF_MS,
{
    let next = ms * 3 / 2;
    if next < MAX_BACKOFF_MS {
        next
    } else {
        MAX_BACKOFF_MS
    }
}
} // verus!
