//! Token accounting: the counts that a generation run accumulates, and the record
//! of each model call's usage in the book's metadata.
use vstd::prelude::*;
use crate::metadata::{
    read_section, update_metadata_text, update_section, written_body, law_read_after_update,
};
use crate::text::{
    chars_of, decimal, digit_char, has_char, is_digit, matches_at, push_decimal, push_str,
    to_string, trim,
};

verus! {

/// Token counts summed over the operations of a run.
#[derive(Debug, Default, Clone, Copy)]
pub struct TokenUsageStats {
    pub prompt_tokens: u64,
    pub completion_tokens: u64,
    pub operations: u32,
}

impl TokenUsageStats {
    /// All tokens: prompt and completion.
    pub fn total_tokens(&self) -> (r: u64)
        requires
            self.prompt_tokens + self.completion_tokens <= u64::MAX,
        ensures
            r == self.prompt_tokens + self.completion_tokens,
    {
        self.prompt_tokens + self.completion_tokens
    }
}

/// The running count of the prompt and completion tokens of a generation run.
/// The counts belong to this one value: every call that counts tokens is handed
/// the tracker by `&mut`, and the tracker cannot be cloned, so no copy splits the
/// count. A program that counts from several tasks shares the one tracker (behind
/// a lock).
#[derive(Debug)]
pub struct TokenTracker {
    prompt_tokens: usize,
    completion_tokens: usize,
}

/// The counts that a tracker holds: (prompt tokens, completion tokens).
impl View for TokenTracker {
    type V = (nat, nat);

    closed spec fn view(&self) -> (nat, nat) {
        (self.prompt_tokens as nat, self.completion_tokens as nat)
    }
}

impl Default for TokenTracker {
    fn default() -> (r: Self)
        ensures
            r@ == (0nat, 0nat),
    {
        TokenTracker::new()
    }
}

impl TokenTracker {
    /// A tracker that has counted nothing.
    pub fn new() -> (r: Self)
        ensures
            r@ == (0nat, 0nat),
    {
        TokenTracker { prompt_tokens: 0, completion_tokens: 0 }
    }

    /// Counts `tokens` more prompt tokens.
    pub fn add_prompt_tokens(&mut self, tokens: usize)
        requires
            old(self)@.0 + tokens <= usize::MAX,
        ensures
            final(self)@.0 == old(self)@.0 + tokens,
            final(self)@.1 == old(self)@.1,
    {
        self.prompt_tokens = self.prompt_tokens + tokens;
    }

    /// Counts `tokens` more completion tokens.
    pub fn add_completion_tokens(&mut self, tokens: usize)
        requires
            old(self)@.1 + tokens <= usize::MAX,
        ensures
            final(self)@.0 == old(self)@.0,
            final(self)@.1 == old(self)@.1 + tokens,
    {
        self.completion_tokens = self.completion_tokens + tokens;
    }

    /// The prompt tokens counted so far.
    pub fn get_prompt_tokens(&self) -> (r: usize)
        ensures
            r == self@.0,
    {
        self.prompt_tokens
    }

    /// The completion tokens counted so far.
    pub fn get_completion_tokens(&self) -> (r: usize)
        ensures
            r == self@.1,
    {
        self.completion_tokens
    }

    /// All tokens counted so far.
    pub fn get_total_tokens(&self) -> (r: usize)
        requires
            self@.0 + self@.1 <= usize::MAX,
        ensures
            r == self@.0 + self@.1,
    {
        self.get_prompt_tokens() + self.get_completion_tokens()
    }
}

/// The metadata section that records an operation's token usage.
pub open spec fn usage_section(operation: Seq<char>) -> Seq<char> {
    operation + " Token Usage"@
}

/// The record of one call's token usage.
pub open spec fn usage_text(prompt: nat, completion: nat) -> Seq<char> {
    "Prompt tokens: "@ + decimal(prompt) + ", Completion tokens: "@ + decimal(completion)
        + ", Total tokens: "@ + decimal(prompt + completion)
}

/// The metadata after a call's usage is recorded, stamped with `timestamp`.
pub open spec fn usage_logged(metadata: Seq<char>, operation: Seq<char>, timestamp: Seq<char>, prompt: nat, completion: nat) -> Seq<char> {
    update_section(metadata, usage_section(operation), timestamp, usage_text(prompt, completion))
}

fn usage_record(prompt_tokens: u32, completion_tokens: u32) -> (r: String)
    requires
        prompt_tokens + completion_tokens <= u32::MAX,
    ensures
        r@ == usage_text(prompt_tokens as nat, completion_tokens as nat),
{
    let total = prompt_tokens + completion_tokens;
    let mut out = chars_of("Prompt tokens: ");
    push_decimal(&mut out, prompt_tokens as usize);
    push_str(&mut out, ", Completion tokens: ");
    push_decimal(&mut out, completion_tokens as usize);
    push_str(&mut out, ", Total tokens: ");
    push_decimal(&mut out, total as usize);
    to_string(&out)
}

/// Records a model call's token usage: the tracker, where there is one, counts the
/// call's prompt and completion tokens, and the metadata's section
/// "{operation} Token Usage" is written with the counts and their sum. Returns the
/// new text of the metadata file.
pub fn log_llm_output(
    metadata: &str,
    operation: &str,
    prompt_tokens: u32,
    completion_tokens: u32,
    token_tracker: Option<&mut TokenTracker>,
    timestamp: &str,
) -> (r: String)
    requires
        prompt_tokens + completion_tokens <= u32::MAX,
        token_tracker matches Some(t) ==> t@.0 + prompt_tokens <= usize::MAX
            && t@.1 + completion_tokens <= usize::MAX,
    ensures
        r@ == usage_logged(metadata@, operation@, timestamp@, prompt_tokens as nat, completion_tokens as nat),
        token_tracker matches Some(t) ==> final(t)@.0 == t@.0 + prompt_tokens
            && final(t)@.1 == t@.1 + completion_tokens,
{
    if let Some(tracker) = token_tracker {
        tracker.add_prompt_tokens(prompt_tokens as usize);
        tracker.add_completion_tokens(completion_tokens as usize);
    }
    let mut section = chars_of(operation);
    push_str(&mut section, " Token Usage");
    let record = usage_record(prompt_tokens, completion_tokens);
    update_metadata_text(metadata, to_string(&section).as_str(), timestamp, record.as_str())
}

/// Records a model call's token usage with a tracker; see `log_llm_output`.
pub fn log_with_tracker(
    metadata: &str,
    operation: &str,
    prompt_tokens: u32,
    completion_tokens: u32,
    token_tracker: &mut TokenTracker,
    timestamp: &str,
) -> (r: String)
    requires
        prompt_tokens + completion_tokens <= u32::MAX,
        old(token_tracker)@.0 + prompt_tokens <= usize::MAX,
        old(token_tracker)@.1 + completion_tokens <= usize::MAX,
    ensures
        r@ == usage_logged(metadata@, operation@, timestamp@, prompt_tokens as nat, completion_tokens as nat),
        final(token_tracker)@.0 == old(token_tracker)@.0 + prompt_tokens,
        final(token_tracker)@.1 == old(token_tracker)@.1 + completion_tokens,
{
    log_llm_output(metadata, operation, prompt_tokens, completion_tokens, Some(token_tracker), timestamp)
}

/// Records an operation's token usage in the metadata: the section
/// "{operation} Token Usage" is written with the prompt and completion counts and
/// their sum. Returns the new text of the metadata file.
pub fn log_tokens(
    metadata: &str,
    operation: &str,
    prompt_tokens: u32,
    completion_tokens: u32,
    timestamp: &str,
) -> (r: String)
    requires
        prompt_tokens + completion_tokens <= u32::MAX,
    ensures
        r@ == usage_logged(metadata@, operation@, timestamp@, prompt_tokens as nat, completion_tokens as nat),
{
    log_llm_output(metadata, operation, prompt_tokens, completion_tokens, None, timestamp)
}

/// The lower-case hexadecimal text of `n`, as `format!("{:x}", n)` writes it.
pub open spec fn hex(n: nat) -> Seq<char>
    decreases n,
{
    if n < 16 {
        seq![hex_digit(n)]
    } else {
        hex(n / 16).push(hex_digit(n % 16))
    }
}

/// The lower-case hexadecimal digit for a value below sixteen.
pub open spec fn hex_digit(d: nat) -> char {
    if d < 10 {
        digit_char(d)
    } else if d == 10 {
        'a'
    } else if d == 11 {
        'b'
    } else if d == 12 {
        'c'
    } else if d == 13 {
        'd'
    } else if d == 14 {
        'e'
    } else {
        'f'
    }
}

fn hex_digit_exec(d: u64) -> (c: char)
    requires
        d < 16,
    ensures
        c == hex_digit(d as nat),
{
    if d < 10 {
        let mut v: Vec<char> = Vec::new();
        push_decimal(&mut v, d as usize);
        assert(v@ == decimal(d as nat));
        v[0]
    } else if d == 10 {
        'a'
    } else if d == 11 {
        'b'
    } else if d == 12 {
        'c'
    } else if d == 13 {
        'd'
    } else if d == 14 {
        'e'
    } else {
        'f'
    }
}

fn push_hex(out: &mut Vec<char>, n: u64)
    ensures
        final(out)@ == old(out)@ + hex(n as nat),
    decreases n,
{
    if n < 16 {
        out.push(hex_digit_exec(n));
        assert(old(out)@.push(hex_digit(n as nat)) =~= old(out)@ + hex(n as nat));
    } else {
        push_hex(out, n / 16);
        out.push(hex_digit_exec(n % 16));
        assert(old(out)@ + hex((n / 16) as nat) + seq![hex_digit((n % 16) as nat)]
            =~= old(out)@ + hex(n as nat));
    }
}

/// The name of the file that logs a prompt: the prompt's name, or, for a name of
/// more than 50 bytes, the hexadecimal hash of the name, then "_prompt.txt".
pub open spec fn prompt_log_name(name: Seq<char>, name_bytes: nat, name_hash: u64) -> Seq<char> {
    if name_bytes > 50 {
        hex(name_hash as nat) + "_prompt.txt"@
    } else {
        name + "_prompt.txt"@
    }
}

/// The name of the file that logs the prompt called `name`, given the hash of the
/// name.
pub fn prompt_log_file_name(name: &str, name_hash: u64) -> (r: String)
    ensures
        r@ == prompt_log_name(name@, name.len() as nat, name_hash),
{
    let mut out: Vec<char> = Vec::new();
    if name.len() > 50 {
        push_hex(&mut out, name_hash);
        assert(out@ =~= hex(name_hash as nat));
    } else {
        push_str(&mut out, name);
        assert(out@ =~= name@);
    }
    push_str(&mut out, "_prompt.txt");
    to_string(&out)
}

/// The text of a prompt's log: the prompt, then its context.
pub fn prompt_log_text(prompt: &str, context: &str) -> (r: String)
    ensures
        r@ == "Prompt:\n"@ + prompt@ + "\n\nContext:\n"@ + context@,
{
    let mut out = chars_of("Prompt:\n");
    push_str(&mut out, prompt);
    push_str(&mut out, "\n\nContext:\n");
    push_str(&mut out, context);
    to_string(&out)
}

/// After a call's usage is recorded, reading its section back gives the record, for
/// an operation and a timestamp without line breaks.
pub proof fn law_usage_reads_back(metadata: Seq<char>, operation: Seq<char>, timestamp: Seq<char>, prompt: nat, completion: nat)
    requires
        !has_char(operation, '\n'),
        !has_char(timestamp, '\n'),
    ensures
        read_section(usage_logged(metadata, operation, timestamp, prompt, completion), usage_section(operation))
            == Some(trim(usage_text(prompt, completion))),
{
    reveal_strlit(" Token Usage");
    reveal_strlit("Prompt tokens: ");
    reveal_strlit(", Completion tokens: ");
    reveal_strlit(", Total tokens: ");
    reveal_strlit("\n## ");
    reveal_strlit("\n");
    let v = usage_text(prompt, completion);
    crate::text::lemma_decimal_digits(prompt);
    crate::text::lemma_decimal_digits(completion);
    crate::text::lemma_decimal_digits(prompt + completion);
    let a = "Prompt tokens: "@ + decimal(prompt);
    let b = a + ", Completion tokens: "@;
    let c = b + decimal(completion);
    let d = c + ", Total tokens: "@;
    assert(v == d + decimal(prompt + completion));
    assert forall|i: int| 0 <= i < v.len() implies #[trigger] v[i] != '\n' by {
        if i < "Prompt tokens: "@.len() {
        } else if i < a.len() {
            assert(v[i] == decimal(prompt)[i - 15]);
        } else if i < b.len() {
        } else if i < c.len() {
            assert(v[i] == decimal(completion)[i - b.len()]);
        } else if i < d.len() {
        } else {
            assert(v[i] == decimal(prompt + completion)[i - d.len()]);
        }
    }
    let s = "\n"@ + v;
    assert(s[1] == 'P');
    assert forall|j: int| !#[trigger] matches_at(s, "\n## "@, j) by {
        if matches_at(s, "\n## "@, j) {
            assert(s.subrange(j, j + 4)[0] == '\n');
            assert(s[j] == '\n');
            if j > 0 {
                assert(s[j] == v[j - 1]);
            } else {
                assert(s.subrange(j, j + 4)[1] == '#');
            }
        }
    }
    assert(!has_char(usage_section(operation), '\n')) by {
        crate::text::lemma_find_char_from_bounds(operation, '\n', 0);
        crate::text::lemma_find_char_from_bounds(usage_section(operation), '\n', 0);
        if has_char(usage_section(operation), '\n') {
            let k = crate::text::find_char_from(usage_section(operation), '\n', 0).unwrap();
            if k < operation.len() {
                assert(usage_section(operation)[k] == operation[k]);
            }
        }
    }
    crate::text::lemma_find_none(s, "\n## "@);
    law_read_after_update(metadata, usage_section(operation), timestamp, v);
}

} // verus!
