//! The tokenizer as the narration stage uses it: a shared handle whose load errors
//! carry the vocabulary error's text.

use vstd::prelude::*;
use std::sync::Arc;
use crate::bpe::{byte_list, pvocab, BpeError, BpeTokenizer as CoreTokenizer, PvocabFault, PRE_TOKENIZER_PATTERN};
use crate::pattern::regex_compiles;
use crate::text::{decimal_digits, starts_with};

verus! {

/// Why the tokenizer could not be loaded.
#[derive(Debug)]
pub enum TokenizerError {
    Error { msg: String },
}

/// `msg` is the text of the load error for the fault `f`.
pub open spec fn fault_text(f: PvocabFault, msg: Seq<char>) -> bool {
    match f {
        PvocabFault::InvalidSize => msg == "Invalid file size for .pvocab format"@,
        PvocabFault::InvalidMagic(m) => msg == "Invalid magic header: expected 'PVOC', got "@ + byte_list(m),
        PvocabFault::UnsupportedVersion(v) => msg == "Unsupported version: "@ + decimal_digits(v as nat),
        PvocabFault::MalformedVocab => msg == "Malformed vocabulary section"@,
        PvocabFault::MalformedToken => msg == "Malformed token string in vocabulary"@,
        PvocabFault::InvalidUtf8 => starts_with(msg, "Invalid UTF-8 in vocabulary: "@),
        PvocabFault::MalformedMerges => msg == "Malformed merges section"@,
        PvocabFault::MalformedMergePart1 => msg == "Malformed merge rule part 1"@,
        PvocabFault::MalformedMergePart2Length => msg == "Malformed merge rule part 2 length"@,
        PvocabFault::MalformedMergePart2 => msg == "Malformed merge rule part 2"@,
    }
}

/// A shared byte-pair-encoding tokenizer.
pub struct BpeTokenizer {
    inner: CoreTokenizer,
}

impl BpeTokenizer {
    /// The tokenizer inside.
    pub closed spec fn engine(&self) -> CoreTokenizer {
        self.inner
    }

    /// Load a tokenizer from a `.pvocab` file; a load error becomes a tokenizer
    /// error carrying its text.
    pub fn new(data: Vec<u8>, byte_level: bool, unknown_token_id: Option<i32>) -> (r: Result<
        Arc<Self>,
        TokenizerError,
    >)
        ensures
            pvocab(data@) matches Err(f) ==> r matches Err(TokenizerError::Error { msg }) && fault_text(
                f,
                msg@,
            ),
            pvocab(data@) matches Ok((v, m)) ==> match r {
                Ok(t) => regex_compiles(PRE_TOKENIZER_PATTERN@) && t.engine().describes(v, m)
                    && t.engine().is_byte_level() == byte_level && t.engine().unknown_id()
                    == unknown_token_id,
                Err(TokenizerError::Error { msg }) => !regex_compiles(PRE_TOKENIZER_PATTERN@)
                    && starts_with(msg@, "Invalid regex pattern: "@),
            },
    {
        match CoreTokenizer::new(data.as_slice(), byte_level, unknown_token_id) {
            Ok(inner) => Ok(Arc::new(BpeTokenizer { inner })),
            Err(e) => Err(TokenizerError::Error { msg: e.message() }),
        }
    }

    /// The ids of `text`.
    pub fn encode(&self, text: String) -> (ids: Vec<i32>)
        ensures
            ids@ == self.engine().encoding(text@),
    {
        self.inner.encode(text.as_str())
    }

    /// The text of `tokens`.
    pub fn decode(&self, tokens: Vec<i32>) -> (text: String)
        ensures
            text@ == self.engine().decoding(tokens@),
    {
        self.inner.decode(tokens.as_slice())
    }
}

} // verus!
