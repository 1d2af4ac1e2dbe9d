//! Contexts: decoding, and the rows of numbers that it leaves.

pub mod embeddings;
pub mod params;

use vstd::prelude::*;

use crate::context::params::ContextSettings;
use crate::error::LlamaError;
use crate::float::F32;
use crate::model::LlamaModel;
use crate::token::data::LlamaTokenData;
use crate::token::data_array::LlamaTokenDataArray;

verus! {

/// What the engine told of a context that it made.
#[derive(Clone, Copy, Debug, PartialEq, Eq, Structural)]
pub struct EngineContext {
    pub n_ctx: u32,
    pub n_embd: i32,
}

/// A context.
#[derive(Clone, Copy, Debug, PartialEq, Eq, Structural)]
pub struct LlamaContext {
    /// The number of tokens in the model's vocabulary.
    pub n_vocab: i32,
    /// How many tokens the context holds.
    pub n_ctx: u32,
    /// The length of an embedding, as the engine told it.
    pub n_embd: i32,
    /// The settings that the context was made with.
    pub settings: ContextSettings,
}

impl LlamaContext {
    /// The context for `model` that the engine made with `settings`, if it made
    /// one.
    pub fn new(model: &LlamaModel, settings: ContextSettings, made: Option<EngineContext>) -> (r:
        Result<LlamaContext, LlamaError>)
        ensures
            r == match made {
                Some(made) => Ok::<LlamaContext, LlamaError>(
                    LlamaContext {
                        n_vocab: model.n_vocab,
                        n_ctx: made.n_ctx,
                        n_embd: made.n_embd,
                        settings,
                    },
                ),
                None => Err(LlamaError::ContextCreation),
            },
    {
        match made {
            Some(made) => Ok(
                LlamaContext {
                    n_vocab: model.n_vocab,
                    n_ctx: made.n_ctx,
                    n_embd: made.n_embd,
                    settings,
                },
            ),
            None => Err(LlamaError::ContextCreation),
        }
    }

    /// Reads the engine's status for a batch.
    pub fn decode(&self, status: i32) -> (r: Result<(), LlamaError>)
        ensures
            r == if status == 0 {
                Ok::<(), LlamaError>(())
            } else {
                Err(LlamaError::Decode(status))
            },
    {
        if status != 0 {
            return Err(LlamaError::Decode(status));
        }
        Ok(())
    }

    /// The length of a row of logits: one for each token of the vocabulary.
    pub fn logits_len(&self) -> (n: usize)
        ensures
            n == if self.n_vocab >= 0 {
                self.n_vocab as int
            } else {
                0
            },
    {
        if self.n_vocab >= 0 {
            self.n_vocab as usize
        } else {
            0
        }
    }

    /// The logits for position `i` of the batch: `row` is what the engine has
    /// for it, [`Self::logits_len`] numbers.
    pub fn get_logits_ith<'a>(&self, i: i32, row: Option<&'a [F32]>) -> (r: Result<
        &'a [F32],
        LlamaError,
    >)
        ensures
            r == match row {
                Some(row) => Ok::<&'a [F32], LlamaError>(row),
                None => Err(LlamaError::NoLogits(i)),
            },
    {
        match row {
            Some(row) => Ok(row),
            None => Err(LlamaError::NoLogits(i)),
        }
    }

    /// The candidates for position `i` of the batch; none where there are no
    /// logits.
    pub fn candidates_ith(&self, i: i32, row: Option<&[F32]>) -> (data: Vec<LlamaTokenData>)
        ensures
            data@ == match row {
                Some(row) => crate::token::data_array::candidates(row@),
                None => Seq::empty(),
            },
    {
        match self.get_logits_ith(i, row) {
            Ok(row) => LlamaTokenDataArray::from_logits(row).data,
            Err(_) => Vec::new(),
        }
    }

    /// As [`Self::candidates_ith`], as an array for a sampler.
    pub fn token_data_array_ith(&self, i: i32, row: Option<&[F32]>) -> (arr: LlamaTokenDataArray)
        ensures
            arr.data@ == match row {
                Some(row) => crate::token::data_array::candidates(row@),
                None => Seq::empty(),
            },
            arr.selected is None,
            !arr.sorted,
    {
        LlamaTokenDataArray::from_iter(self.candidates_ith(i, row), false)
    }

    pub fn n_ctx(&self) -> (n: u32)
        ensures
            n == self.n_ctx,
    {
        self.n_ctx
    }

    pub fn n_vocab(&self) -> (n: i32)
        ensures
            n == self.n_vocab,
    {
        self.n_vocab
    }
}

/// The candidates for a position are one for each logit of its row, in order, by their
/// places; and there are none without a row.
pub proof fn lemma_row_becomes_candidates(
    ctx: LlamaContext,
    i: i32,
    row: Option<&[F32]>,
    data: Vec<LlamaTokenData>,
    arr: LlamaTokenDataArray,
)
    requires
        call_ensures(LlamaContext::candidates_ith, (&ctx, i, row), data),
        call_ensures(LlamaContext::token_data_array_ith, (&ctx, i, row), arr),
    ensures
        arr.data@ == data@,
        arr.selected is None,
        !arr.sorted,
        row is None ==> data@.len() == 0,
        row matches Some(row) ==> {
            &&& data@.len() == row@.len()
            &&& forall|k: int|
                0 <= k < row@.len() ==> {
                    &&& k <= i32::MAX ==> (#[trigger] data@[k]).id.0 == k
                    &&& data@[k].logit == row@[k]
                    &&& data@[k].p.bits == 0
                }
        },
{
}

/// A batch has been decoded just where the status is zero, and otherwise the error holds
/// it. There are logits just where the engine has a row, which has one for each token of
/// the vocabulary and is given as it is.
pub proof fn lemma_engine_answers_are_given_as_they_are<'a>(
    ctx: LlamaContext,
    status: i32,
    decoded: Result<(), LlamaError>,
    i: i32,
    row: Option<&'a [F32]>,
    logits: Result<&'a [F32], LlamaError>,
    len: usize,
)
    requires
        call_ensures(LlamaContext::decode, (&ctx, status), decoded),
        call_ensures(LlamaContext::get_logits_ith, (&ctx, i, row), logits),
        call_ensures(LlamaContext::logits_len, (&ctx,), len),
    ensures
        decoded is Ok <==> status == 0,
        decoded is Err ==> decoded->Err_0 == LlamaError::Decode(status),
        logits is Ok <==> row is Some,
        logits is Ok ==> logits->Ok_0@ == row->0@,
        logits is Err ==> logits->Err_0 == LlamaError::NoLogits(i),
        ctx.n_vocab >= 0 ==> len == ctx.n_vocab,
        ctx.n_vocab < 0 ==> len == 0,
{
}

} // verus!
