//! What can go wrong.

use vstd::prelude::*;

use crate::cstr::NulError;

verus! {

#[derive(Debug, PartialEq, Eq)]
pub enum LlamaError {
    /// The backend exists once per process, and it exists already.
    BackendAlreadyInitialized,
    /// The engine could not load the model at this path.
    ModelLoad(String),
    /// The engine could not make a context.
    ContextCreation,
    /// A path or a prompt held a NUL.
    Nul(NulError),
    /// The path is no text.
    InvalidPath,
    /// The engine could not cut the text into tokens.
    Tokenize,
    /// The engine could not give the text of a token.
    TokenToPiece,
    /// The token is none of the vocabulary.
    TokenOutOfRange { token: i32, n_vocab: i32 },
    /// The engine's status for a batch.
    Decode(i32),
    /// The batch holds `capacity` tokens, and one more was to come at `index`.
    BatchOverflow { capacity: usize, index: usize },
    /// A token came with `got` sequences, where the batch allows `max`.
    TooManySeqIds { got: usize, max: usize },
    /// No logits were computed for this index.
    NoLogits(i32),
    /// The engine could not start multi-token prediction.
    MtpInit,
    /// The engine's status for the prompt of a multi-token prediction.
    MtpBegin(i32),
    /// The engine's status for a step of a multi-token prediction.
    MtpStep(i32),
}

} // verus!
