//! Embeddings.

use vstd::prelude::*;

use crate::context::LlamaContext;
use crate::float::F32;

verus! {

/// There is no such embedding.
#[derive(Clone, Copy, Debug, PartialEq, Eq, Structural)]
pub enum EmbeddingsError {
    /// The context computes no embeddings.
    NotEnabled,
    /// None was computed for this token.
    LogitsNotEnabled(i32),
    /// None was computed for this sequence.
    NonePoolType(i32),
}

impl LlamaContext {
    /// The length of an embedding.
    pub fn n_embd(&self) -> (n: usize)
        ensures
            n == if self.n_embd >= 0 {
                self.n_embd as int
            } else {
                0
            },
    {
        if self.n_embd >= 0 {
            self.n_embd as usize
        } else {
            0
        }
    }

    /// The length of the row to read, where the context computes embeddings.
    pub fn embeddings_len(&self) -> (r: Result<usize, EmbeddingsError>)
        ensures
            match r {
                Ok(n) => self.settings.embeddings && n == if self.n_embd >= 0 {
                    self.n_embd as int
                } else {
                    0
                },
                Err(e) => !self.settings.embeddings && e == EmbeddingsError::NotEnabled,
            },
    {
        if !self.settings.embeddings {
            return Err(EmbeddingsError::NotEnabled);
        }
        Ok(self.n_embd())
    }

    /// The embedding of token `i`: `row` is what the engine has for it.
    pub fn embeddings_ith<'a>(&self, i: i32, row: Option<&'a [F32]>) -> (r: Result<
        &'a [F32],
        EmbeddingsError,
    >)
        ensures
            r == if !self.settings.embeddings {
                Err(EmbeddingsError::NotEnabled)
            } else {
                match row {
                    Some(row) => Ok::<&'a [F32], EmbeddingsError>(row),
                    None => Err(EmbeddingsError::LogitsNotEnabled(i)),
                }
            },
    {
        if !self.settings.embeddings {
            return Err(EmbeddingsError::NotEnabled);
        }
        match row {
            Some(row) => Ok(row),
            None => Err(EmbeddingsError::LogitsNotEnabled(i)),
        }
    }

    /// The pooled embedding of sequence `seq`: `row` is what the engine has for
    /// it.
    pub fn embeddings_seq_ith<'a>(&self, seq: i32, row: Option<&'a [F32]>) -> (r: Result<
        &'a [F32],
        EmbeddingsError,
    >)
        ensures
            r == if !self.settings.embeddings {
                Err(EmbeddingsError::NotEnabled)
            } else {
                match row {
                    Some(row) => Ok::<&'a [F32], EmbeddingsError>(row),
                    None => Err(EmbeddingsError::NonePoolType(seq)),
                }
            },
    {
        if !self.settings.embeddings {
            return Err(EmbeddingsError::NotEnabled);
        }
        match row {
            Some(row) => Ok(row),
            None => Err(EmbeddingsError::NonePoolType(seq)),
        }
    }
}

/// There is an embedding just where the context computes them and the engine has one,
/// and then it is the engine's; otherwise the error says what is missing: that they are
/// not computed at all comes first, and else which token or sequence has none.
pub proof fn lemma_embedding_is_the_engines<'a>(
    ctx: LlamaContext,
    i: i32,
    row: Option<&'a [F32]>,
    token: Result<&'a [F32], EmbeddingsError>,
    sequence: Result<&'a [F32], EmbeddingsError>,
    len: Result<usize, EmbeddingsError>,
)
    requires
        call_ensures(LlamaContext::embeddings_ith, (&ctx, i, row), token),
        call_ensures(LlamaContext::embeddings_seq_ith, (&ctx, i, row), sequence),
        call_ensures(LlamaContext::embeddings_len, (&ctx,), len),
    ensures
        token is Ok <==> ctx.settings.embeddings && row is Some,
        sequence is Ok <==> token is Ok,
        token is Ok ==> token->Ok_0@ == row->0@ && sequence->Ok_0@ == row->0@,
        len is Ok <==> ctx.settings.embeddings,
        len is Ok && ctx.n_embd >= 0 ==> len->Ok_0 == ctx.n_embd,
        !ctx.settings.embeddings ==> token->Err_0 is NotEnabled && sequence->Err_0 is NotEnabled
            && len->Err_0 is NotEnabled,
        ctx.settings.embeddings && row is None ==> {
            &&& token->Err_0 == EmbeddingsError::LogitsNotEnabled(i)
            &&& sequence->Err_0 == EmbeddingsError::NonePoolType(i)
        },
{
}

} // verus!
