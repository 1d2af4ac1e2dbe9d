//! Adapters of a model.

use vstd::prelude::*;

use crate::context::LlamaContext;
use crate::cstr::{CText, NulError};
use crate::model::LlamaModel;
use crate::path::{path_text, PathError};

verus! {

/// An adapter that the engine holds for a model; `lora_adapter` tells its
/// adapters apart.
#[derive(Debug, PartialEq, Eq)]
pub struct LlamaLoraAdapter {
    pub lora_adapter: u64,
}

/// An adapter could not be loaded.
#[derive(Debug, PartialEq, Eq)]
pub enum LlamaLoraAdapterInitError {
    /// The path held a NUL.
    NullError(NulError),
    /// The engine could not load it.
    NullResult,
    /// The path is no text.
    PathToStrError(String),
}

/// An adapter could not be put into use.
#[derive(Clone, Copy, Debug, PartialEq, Eq, Structural)]
pub enum LlamaLoraAdapterSetError {
    /// The engine's status.
    ErrorResult(i32),
}

/// An adapter could not be taken out of use.
#[derive(Clone, Copy, Debug, PartialEq, Eq, Structural)]
pub enum LlamaLoraAdapterRemoveError {
    /// The engine's status.
    ErrorResult(i32),
}

impl LlamaModel {
    /// The first half of loading an adapter: its path as the engine takes it.
    /// `shown` is the path for the message.
    pub fn lora_adapter_init(&self, path: Option<&str>, shown: String) -> (r: Result<
        CText,
        LlamaLoraAdapterInitError,
    >)
        ensures
            match r {
                Ok(text) => crate::path::is_path_text(crate::path::path_chars(path), Ok(text)),
                Err(LlamaLoraAdapterInitError::PathToStrError(p)) => path is None && p == shown,
                Err(LlamaLoraAdapterInitError::NullError(e)) => crate::path::is_path_text(
                    crate::path::path_chars(path),
                    Err(PathError::Nul(e)),
                ),
                Err(LlamaLoraAdapterInitError::NullResult) => false,
            },
    {
        match path_text(path) {
            Ok(text) => Ok(text),
            Err(PathError::NotText) => Err(LlamaLoraAdapterInitError::PathToStrError(shown)),
            Err(PathError::Nul(e)) => Err(LlamaLoraAdapterInitError::NullError(e)),
        }
    }

    /// The second half: the engine's adapter, if it could load it.
    pub fn loaded_lora_adapter(&self, loaded: Option<u64>) -> (r: Result<
        LlamaLoraAdapter,
        LlamaLoraAdapterInitError,
    >)
        ensures
            r == match loaded {
                Some(lora_adapter) => Ok::<LlamaLoraAdapter, LlamaLoraAdapterInitError>(
                    LlamaLoraAdapter { lora_adapter },
                ),
                None => Err(LlamaLoraAdapterInitError::NullResult),
            },
    {
        match loaded {
            Some(lora_adapter) => Ok(LlamaLoraAdapter { lora_adapter }),
            None => Err(LlamaLoraAdapterInitError::NullResult),
        }
    }
}

impl LlamaContext {
    /// Reads the engine's status for putting an adapter into use.
    pub fn lora_adapter_set(&self, status: i32) -> (r: Result<(), LlamaLoraAdapterSetError>)
        ensures
            r == if status == 0 {
                Ok::<(), LlamaLoraAdapterSetError>(())
            } else {
                Err(LlamaLoraAdapterSetError::ErrorResult(status))
            },
    {
        if status != 0 {
            return Err(LlamaLoraAdapterSetError::ErrorResult(status));
        }
        Ok(())
    }

    /// Reads the engine's status for taking an adapter out of use.
    pub fn lora_adapter_remove(&self, status: i32) -> (r: Result<(), LlamaLoraAdapterRemoveError>)
        ensures
            r == if status == 0 {
                Ok::<(), LlamaLoraAdapterRemoveError>(())
            } else {
                Err(LlamaLoraAdapterRemoveError::ErrorResult(status))
            },
    {
        if status != 0 {
            return Err(LlamaLoraAdapterRemoveError::ErrorResult(status));
        }
        Ok(())
    }
}

} // verus!
