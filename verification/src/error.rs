//! The errors of book generation.
use vstd::prelude::*;

verus! {

/// What can go wrong while a book is generated, each with its message.
#[derive(Debug, Clone, PartialEq, Eq)]
pub enum BookGeneratorError {
    IOError(String),
    LLMError(String),
    ChainError(String),
    PromptError(String),
    Generation(String),
    SerializationError(String),
    ConfigError(String),
    MissingEnvVar(String),
    UnsupportedLLMProvider(String),
    Other(String),
    DuplicateContent(String),
    MissingContext(String),
    DuplicateChapterTitle(String),
}

} // verus!
