//! The logic of a binding to a language-model engine.
//!
//! The engine itself (its models, contexts and kernels) stays behind the
//! caller: what has to be handed to it is computed here, and what it hands back
//! is checked and read here. Where one operation takes several calls of the
//! engine, it is a small machine: it says which call comes next and goes on
//! from the answer.

pub mod context;
pub mod cstr;
pub mod error;
pub mod float;
pub mod gguf;
pub mod grammar;
pub mod llama_backend;
pub mod llama_batch;
pub mod model;
pub mod mtmd;
pub mod path;
pub mod quantize;
pub mod sampling;
pub mod speculative;
pub mod step;
pub mod text;
pub mod timing;
pub mod token;

pub use context::params::{LlamaContextParams, LlamaContextType};
pub use context::LlamaContext;
pub use error::LlamaError;
pub use grammar::{
    json_schema_to_grammar, DryInitError, DryParams, GrammarInitError, JsonSchemaError,
    LlamaDrySampler, LlamaGrammar,
};
pub use llama_backend::LlamaBackend;
pub use llama_batch::LlamaBatch;
pub use model::params::LlamaModelParams;
pub use model::{AddBos, LlamaModel};
pub use mtmd::{
    mtmd_default_marker, MtmdBitmap, MtmdBitmapError, MtmdContext, MtmdContextParams,
    MtmdEncodeError, MtmdEvalError, MtmdInitError, MtmdInputChunk, MtmdInputChunkError,
    MtmdInputChunkType, MtmdInputChunks, MtmdInputChunksError, MtmdInputText, MtmdTokenizeError,
};
pub use sampling::LlamaSampler;
pub use speculative::{MtpOpType, MtpSpeculative, MtpSpeculativeParams, MtpStep};
pub use token::data::LlamaTokenData;
pub use token::data_array::LlamaTokenDataArray;
pub use token::LlamaToken;
