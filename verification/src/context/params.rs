//! Settings of a context.

use vstd::prelude::*;

verus! {

/// What a context is for.
#[derive(Clone, Copy, Debug, PartialEq, Eq, Structural)]
pub enum LlamaContextType {
    Default,
    /// Drafting tokens by multi-token prediction.
    Mtp,
}

/// Settings of a context, as the engine takes them.
#[derive(Clone, Copy, Debug, PartialEq, Eq, Structural)]
pub struct ContextSettings {
    /// How many tokens a context holds; 0 takes the model's number.
    pub n_ctx: u32,
    pub n_batch: u32,
    pub n_ubatch: u32,
    pub n_seq_max: u32,
    pub seed: u32,
    pub n_threads: u32,
    pub n_threads_batch: u32,
    pub flash_attn: bool,
    pub mtp: bool,
    pub embeddings: bool,
    /// How the engine pools embeddings, by its own number.
    pub pooling_type: i32,
}

/// The settings that a caller has chosen.
#[derive(Clone, Copy, Debug, PartialEq, Eq, Structural)]
pub struct LlamaContextParams {
    pub n_ctx: Option<u32>,
    pub n_batch: Option<u32>,
    pub n_ubatch: Option<u32>,
    pub n_seq_max: Option<u32>,
    pub seed: Option<u32>,
    pub n_threads: Option<u32>,
    pub n_threads_batch: Option<u32>,
    pub flash_attn: Option<bool>,
    pub mtp: Option<bool>,
    pub embeddings: Option<bool>,
    pub pooling_type: Option<i32>,
}

impl Default for LlamaContextParams {
    /// Nothing is set.
    fn default() -> (params: LlamaContextParams)
        ensures
            params == (LlamaContextParams {
                n_ctx: None,
                n_batch: None,
                n_ubatch: None,
                n_seq_max: None,
                seed: None,
                n_threads: None,
                n_threads_batch: None,
                flash_attn: None,
                mtp: None,
                embeddings: None,
                pooling_type: None,
            }),
    {
        LlamaContextParams {
            n_ctx: None,
            n_batch: None,
            n_ubatch: None,
            n_seq_max: None,
            seed: None,
            n_threads: None,
            n_threads_batch: None,
            flash_attn: None,
            mtp: None,
            embeddings: None,
            pooling_type: None,
        }
    }
}

impl LlamaContextParams {
    /// How many tokens the context holds; none takes the model's number.
    pub fn with_n_ctx(self, n_ctx: Option<u32>) -> (params: LlamaContextParams)
        ensures
            params == (LlamaContextParams { n_ctx: Some(match n_ctx {
                    Some(n) => n,
                    None => 0,
                }), ..self }),
    {
        LlamaContextParams { n_ctx: Some(match n_ctx {
                Some(n) => n,
                None => 0,
            }), ..self }
    }

    /// How many tokens a batch holds.
    pub fn with_n_batch(self, n_batch: u32) -> (params: LlamaContextParams)
        ensures
            params == (LlamaContextParams { n_batch: Some(n_batch), ..self }),
    {
        LlamaContextParams { n_batch: Some(n_batch), ..self }
    }

    /// How many tokens are computed at once.
    pub fn with_n_ubatch(self, n_ubatch: u32) -> (params: LlamaContextParams)
        ensures
            params == (LlamaContextParams { n_ubatch: Some(n_ubatch), ..self }),
    {
        LlamaContextParams { n_ubatch: Some(n_ubatch), ..self }
    }

    /// How many sequences the context holds.
    pub fn with_n_rs_seq(self, n_rs_seq: u32) -> (params: LlamaContextParams)
        ensures
            params == (LlamaContextParams { n_seq_max: Some(n_rs_seq), ..self }),
    {
        LlamaContextParams { n_seq_max: Some(n_rs_seq), ..self }
    }

    /// What the context is for. Multi-token prediction is switched on or off by it.
    pub fn with_context_type(self, context_type: LlamaContextType) -> (params: LlamaContextParams)
        ensures
            params == (LlamaContextParams { mtp: Some(context_type == LlamaContextType::Mtp), ..self }),
    {
        LlamaContextParams { mtp: Some(matches!(context_type, LlamaContextType::Mtp)), ..self }
    }

    /// The seed of the engine's random numbers.
    pub fn with_seed(self, seed: u32) -> (params: LlamaContextParams)
        ensures
            params == (LlamaContextParams { seed: Some(seed), ..self }),
    {
        LlamaContextParams { seed: Some(seed), ..self }
    }

    /// Threads for single tokens.
    pub fn with_n_threads(self, n_threads: u32) -> (params: LlamaContextParams)
        ensures
            params == (LlamaContextParams { n_threads: Some(n_threads), ..self }),
    {
        LlamaContextParams { n_threads: Some(n_threads), ..self }
    }

    /// Threads for batches.
    pub fn with_n_threads_batch(self, n_threads_batch: u32) -> (params: LlamaContextParams)
        ensures
            params == (LlamaContextParams { n_threads_batch: Some(n_threads_batch), ..self }),
    {
        LlamaContextParams { n_threads_batch: Some(n_threads_batch), ..self }
    }

    /// Whether to use flash attention.
    pub fn with_flash_attn(self, flash_attn: bool) -> (params: LlamaContextParams)
        ensures
            params == (LlamaContextParams { flash_attn: Some(flash_attn), ..self }),
    {
        LlamaContextParams { flash_attn: Some(flash_attn), ..self }
    }

    /// Whether to use multi-token prediction.
    pub fn with_mtp(self, mtp: bool) -> (params: LlamaContextParams)
        ensures
            params == (LlamaContextParams { mtp: Some(mtp), ..self }),
    {
        LlamaContextParams { mtp: Some(mtp), ..self }
    }

    /// Whether to compute embeddings.
    pub fn with_embeddings(self, embeddings: bool) -> (params: LlamaContextParams)
        ensures
            params == (LlamaContextParams { embeddings: Some(embeddings), ..self }),
    {
        LlamaContextParams { embeddings: Some(embeddings), ..self }
    }

    /// How to pool embeddings, by the engine's number.
    pub fn with_pooling_type(self, pooling_type: i32) -> (params: LlamaContextParams)
        ensures
            params == (LlamaContextParams { pooling_type: Some(pooling_type), ..self }),
    {
        LlamaContextParams { pooling_type: Some(pooling_type), ..self }
    }

    /// The settings in force: what is set here, and the engine's own value for
    /// the rest.
    pub open spec fn over(self, defaults: ContextSettings) -> ContextSettings {
        ContextSettings {
            n_ctx: match self.n_ctx {
                Some(v) => v,
                None => defaults.n_ctx,
            },
            n_batch: match self.n_batch {
                Some(v) => v,
                None => defaults.n_batch,
            },
            n_ubatch: match self.n_ubatch {
                Some(v) => v,
                None => defaults.n_ubatch,
            },
            n_seq_max: match self.n_seq_max {
                Some(v) => v,
                None => defaults.n_seq_max,
            },
            seed: match self.seed {
                Some(v) => v,
                None => defaults.seed,
            },
            n_threads: match self.n_threads {
                Some(v) => v,
                None => defaults.n_threads,
            },
            n_threads_batch: match self.n_threads_batch {
                Some(v) => v,
                None => defaults.n_threads_batch,
            },
            flash_attn: match self.flash_attn {
                Some(v) => v,
                None => defaults.flash_attn,
            },
            mtp: match self.mtp {
                Some(v) => v,
                None => defaults.mtp,
            },
            embeddings: match self.embeddings {
                Some(v) => v,
                None => defaults.embeddings,
            },
            pooling_type: match self.pooling_type {
                Some(v) => v,
                None => defaults.pooling_type,
            },
        }
    }

    /// The settings for the engine, whose own settings are `defaults`.
    pub fn as_raw(&self, defaults: ContextSettings) -> (settings: ContextSettings)
        ensures
            settings == self.over(defaults),
    {
        ContextSettings {
            n_ctx: match self.n_ctx {
                Some(v) => v,
                None => defaults.n_ctx,
            },
            n_batch: match self.n_batch {
                Some(v) => v,
                None => defaults.n_batch,
            },
            n_ubatch: match self.n_ubatch {
                Some(v) => v,
                None => defaults.n_ubatch,
            },
            n_seq_max: match self.n_seq_max {
                Some(v) => v,
                None => defaults.n_seq_max,
            },
            seed: match self.seed {
                Some(v) => v,
                None => defaults.seed,
            },
            n_threads: match self.n_threads {
                Some(v) => v,
                None => defaults.n_threads,
            },
            n_threads_batch: match self.n_threads_batch {
                Some(v) => v,
                None => defaults.n_threads_batch,
            },
            flash_attn: match self.flash_attn {
                Some(v) => v,
                None => defaults.flash_attn,
            },
            mtp: match self.mtp {
                Some(v) => v,
                None => defaults.mtp,
            },
            embeddings: match self.embeddings {
                Some(v) => v,
                None => defaults.embeddings,
            },
            pooling_type: match self.pooling_type {
                Some(v) => v,
                None => defaults.pooling_type,
            },
        }
    }
}

/// Where nothing is set, the engine's own settings are in force.
pub proof fn lemma_nothing_set_changes_nothing(defaults: ContextSettings)
    ensures
        (LlamaContextParams {
            n_ctx: None,
            n_batch: None,
            n_ubatch: None,
            n_seq_max: None,
            seed: None,
            n_threads: None,
            n_threads_batch: None,
            flash_attn: None,
            mtp: None,
            embeddings: None,
            pooling_type: None,
        }).over(defaults) == defaults,
{
}

/// Each setting that was chosen is in force as it was chosen, and each that was not is
/// the engine's own; no choice touches another setting.
pub proof fn lemma_what_is_set_is_in_force(
    params: LlamaContextParams,
    defaults: ContextSettings,
    settings: ContextSettings,
)
    requires
        call_ensures(LlamaContextParams::as_raw, (&params, defaults), settings),
    ensures
        params.n_ctx is Some ==> settings.n_ctx == params.n_ctx->0,
        params.n_ctx is None ==> settings.n_ctx == defaults.n_ctx,
        params.n_batch is Some ==> settings.n_batch == params.n_batch->0,
        params.n_batch is None ==> settings.n_batch == defaults.n_batch,
        params.n_ubatch is Some ==> settings.n_ubatch == params.n_ubatch->0,
        params.n_ubatch is None ==> settings.n_ubatch == defaults.n_ubatch,
        params.n_seq_max is Some ==> settings.n_seq_max == params.n_seq_max->0,
        params.n_seq_max is None ==> settings.n_seq_max == defaults.n_seq_max,
        params.seed is Some ==> settings.seed == params.seed->0,
        params.seed is None ==> settings.seed == defaults.seed,
        params.n_threads is Some ==> settings.n_threads == params.n_threads->0,
        params.n_threads is None ==> settings.n_threads == defaults.n_threads,
        params.n_threads_batch is Some ==> settings.n_threads_batch == params.n_threads_batch->0,
        params.n_threads_batch is None ==> settings.n_threads_batch == defaults.n_threads_batch,
        params.flash_attn is Some ==> settings.flash_attn == params.flash_attn->0,
        params.flash_attn is None ==> settings.flash_attn == defaults.flash_attn,
        params.mtp is Some ==> settings.mtp == params.mtp->0,
        params.mtp is None ==> settings.mtp == defaults.mtp,
        params.embeddings is Some ==> settings.embeddings == params.embeddings->0,
        params.embeddings is None ==> settings.embeddings == defaults.embeddings,
        params.pooling_type is Some ==> settings.pooling_type == params.pooling_type->0,
        params.pooling_type is None ==> settings.pooling_type == defaults.pooling_type,
{
}

/// Whatever was chosen before, a further choice comes to the engine as it was made and
/// leaves every other setting as it was. Each choice stands with what it is given, what
/// it leaves chosen, and what is in force then.
pub proof fn lemma_a_choice_changes_its_own_setting(
    params: LlamaContextParams,
    defaults: ContextSettings,
    before: ContextSettings,
    n_ctx: (Option<u32>, LlamaContextParams, ContextSettings),
    n_batch: (u32, LlamaContextParams, ContextSettings),
    n_ubatch: (u32, LlamaContextParams, ContextSettings),
    n_rs_seq: (u32, LlamaContextParams, ContextSettings),
    context_type: (LlamaContextType, LlamaContextParams, ContextSettings),
    seed: (u32, LlamaContextParams, ContextSettings),
    n_threads: (u32, LlamaContextParams, ContextSettings),
    n_threads_batch: (u32, LlamaContextParams, ContextSettings),
    flash_attn: (bool, LlamaContextParams, ContextSettings),
    mtp: (bool, LlamaContextParams, ContextSettings),
    embeddings: (bool, LlamaContextParams, ContextSettings),
    pooling_type: (i32, LlamaContextParams, ContextSettings),
)
    requires
        call_ensures(LlamaContextParams::as_raw, (&params, defaults), before),
        call_ensures(LlamaContextParams::with_n_ctx, (params, n_ctx.0), n_ctx.1),
        call_ensures(LlamaContextParams::as_raw, (&n_ctx.1, defaults), n_ctx.2),
        call_ensures(LlamaContextParams::with_n_batch, (params, n_batch.0), n_batch.1),
        call_ensures(LlamaContextParams::as_raw, (&n_batch.1, defaults), n_batch.2),
        call_ensures(LlamaContextParams::with_n_ubatch, (params, n_ubatch.0), n_ubatch.1),
        call_ensures(LlamaContextParams::as_raw, (&n_ubatch.1, defaults), n_ubatch.2),
        call_ensures(LlamaContextParams::with_n_rs_seq, (params, n_rs_seq.0), n_rs_seq.1),
        call_ensures(LlamaContextParams::as_raw, (&n_rs_seq.1, defaults), n_rs_seq.2),
        call_ensures(LlamaContextParams::with_context_type, (params, context_type.0), context_type.1),
        call_ensures(LlamaContextParams::as_raw, (&context_type.1, defaults), context_type.2),
        call_ensures(LlamaContextParams::with_seed, (params, seed.0), seed.1),
        call_ensures(LlamaContextParams::as_raw, (&seed.1, defaults), seed.2),
        call_ensures(LlamaContextParams::with_n_threads, (params, n_threads.0), n_threads.1),
        call_ensures(LlamaContextParams::as_raw, (&n_threads.1, defaults), n_threads.2),
        call_ensures(LlamaContextParams::with_n_threads_batch, (params, n_threads_batch.0), n_threads_batch.1),
        call_ensures(LlamaContextParams::as_raw, (&n_threads_batch.1, defaults), n_threads_batch.2),
        call_ensures(LlamaContextParams::with_flash_attn, (params, flash_attn.0), flash_attn.1),
        call_ensures(LlamaContextParams::as_raw, (&flash_attn.1, defaults), flash_attn.2),
        call_ensures(LlamaContextParams::with_mtp, (params, mtp.0), mtp.1),
        call_ensures(LlamaContextParams::as_raw, (&mtp.1, defaults), mtp.2),
        call_ensures(LlamaContextParams::with_embeddings, (params, embeddings.0), embeddings.1),
        call_ensures(LlamaContextParams::as_raw, (&embeddings.1, defaults), embeddings.2),
        call_ensures(LlamaContextParams::with_pooling_type, (params, pooling_type.0), pooling_type.1),
        call_ensures(LlamaContextParams::as_raw, (&pooling_type.1, defaults), pooling_type.2),
    ensures
        n_ctx.2 == (ContextSettings { n_ctx: (if n_ctx.0 is Some {
            n_ctx.0->0
        } else {
            0
        }), ..before }),
        n_batch.2 == (ContextSettings { n_batch: n_batch.0, ..before }),
        n_ubatch.2 == (ContextSettings { n_ubatch: n_ubatch.0, ..before }),
        n_rs_seq.2 == (ContextSettings { n_seq_max: n_rs_seq.0, ..before }),
        context_type.2 == (ContextSettings { mtp: (context_type.0 is Mtp), ..before }),
        seed.2 == (ContextSettings { seed: seed.0, ..before }),
        n_threads.2 == (ContextSettings { n_threads: n_threads.0, ..before }),
        n_threads_batch.2 == (ContextSettings { n_threads_batch: n_threads_batch.0, ..before }),
        flash_attn.2 == (ContextSettings { flash_attn: flash_attn.0, ..before }),
        mtp.2 == (ContextSettings { mtp: mtp.0, ..before }),
        embeddings.2 == (ContextSettings { embeddings: embeddings.0, ..before }),
        pooling_type.2 == (ContextSettings { pooling_type: pooling_type.0, ..before }),
{
}

} // verus!
