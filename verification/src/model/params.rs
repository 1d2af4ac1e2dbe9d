//! Settings of a model.

use vstd::prelude::*;

verus! {

/// Settings of a model, as the engine takes them.
#[derive(Clone, Copy, Debug, PartialEq, Eq, Structural)]
pub struct ModelSettings {
    pub n_gpu_layers: i32,
    pub use_mmap: bool,
    pub use_mlock: bool,
    pub vocab_only: bool,
    pub mtp: bool,
}

/// The settings that a caller has chosen.
#[derive(Clone, Copy, Debug, PartialEq, Eq, Structural)]
pub struct LlamaModelParams {
    pub n_gpu_layers: Option<i32>,
    pub use_mmap: Option<bool>,
    pub use_mlock: Option<bool>,
    pub vocab_only: Option<bool>,
    pub mtp: Option<bool>,
}

impl Default for LlamaModelParams {
    /// Nothing is set.
    fn default() -> (params: LlamaModelParams)
        ensures
            params == (LlamaModelParams {
                n_gpu_layers: None,
                use_mmap: None,
                use_mlock: None,
                vocab_only: None,
                mtp: None,
            }),
    {
        LlamaModelParams {
            n_gpu_layers: None,
            use_mmap: None,
            use_mlock: None,
            vocab_only: None,
            mtp: None,
        }
    }
}

impl LlamaModelParams {
    /// How many layers the GPU takes. The engine counts them in 31 bits; a greater
    /// number is cut to the greatest of these.
    pub fn with_n_gpu_layers(self, n: u32) -> (params: LlamaModelParams)
        ensures
            params == (LlamaModelParams { n_gpu_layers: Some(if n <= i32::MAX {
                    n as i32
                } else {
                    i32::MAX
                }), ..self }),
    {
        LlamaModelParams { n_gpu_layers: Some(if n <= i32::MAX as u32 {
                n as i32
            } else {
                i32::MAX
            }), ..self }
    }

    /// Whether to map the file into memory.
    pub fn with_use_mmap(self, use_mmap: bool) -> (params: LlamaModelParams)
        ensures
            params == (LlamaModelParams { use_mmap: Some(use_mmap), ..self }),
    {
        LlamaModelParams { use_mmap: Some(use_mmap), ..self }
    }

    /// Whether to keep the model in memory.
    pub fn with_use_mlock(self, use_mlock: bool) -> (params: LlamaModelParams)
        ensures
            params == (LlamaModelParams { use_mlock: Some(use_mlock), ..self }),
    {
        LlamaModelParams { use_mlock: Some(use_mlock), ..self }
    }

    /// Whether to load the vocabulary alone.
    pub fn with_vocab_only(self, vocab_only: bool) -> (params: LlamaModelParams)
        ensures
            params == (LlamaModelParams { vocab_only: Some(vocab_only), ..self }),
    {
        LlamaModelParams { vocab_only: Some(vocab_only), ..self }
    }

    /// Whether to load the layers for multi-token prediction.
    pub fn with_mtp(self, mtp: bool) -> (params: LlamaModelParams)
        ensures
            params == (LlamaModelParams { mtp: Some(mtp), ..self }),
    {
        LlamaModelParams { mtp: Some(mtp), ..self }
    }

    /// The settings in force: what is set here, and the engine's own value for
    /// the rest.
    pub open spec fn over(self, defaults: ModelSettings) -> ModelSettings {
        ModelSettings {
            n_gpu_layers: match self.n_gpu_layers {
                Some(v) => v,
                None => defaults.n_gpu_layers,
            },
            use_mmap: match self.use_mmap {
                Some(v) => v,
                None => defaults.use_mmap,
            },
            use_mlock: match self.use_mlock {
                Some(v) => v,
                None => defaults.use_mlock,
            },
            vocab_only: match self.vocab_only {
                Some(v) => v,
                None => defaults.vocab_only,
            },
            mtp: match self.mtp {
                Some(v) => v,
                None => defaults.mtp,
            },
        }
    }

    /// The settings for the engine, whose own settings are `defaults`.
    pub fn as_raw(&self, defaults: ModelSettings) -> (settings: ModelSettings)
        ensures
            settings == self.over(defaults),
    {
        ModelSettings {
            n_gpu_layers: match self.n_gpu_layers {
                Some(v) => v,
                None => defaults.n_gpu_layers,
            },
            use_mmap: match self.use_mmap {
                Some(v) => v,
                None => defaults.use_mmap,
            },
            use_mlock: match self.use_mlock {
                Some(v) => v,
                None => defaults.use_mlock,
            },
            vocab_only: match self.vocab_only {
                Some(v) => v,
                None => defaults.vocab_only,
            },
            mtp: match self.mtp {
                Some(v) => v,
                None => defaults.mtp,
            },
        }
    }
}

/// Where nothing is set, the engine's own settings are in force.
pub proof fn lemma_nothing_set_changes_nothing(defaults: ModelSettings)
    ensures
        (LlamaModelParams {
            n_gpu_layers: None,
            use_mmap: None,
            use_mlock: None,
            vocab_only: None,
            mtp: None,
        }).over(defaults) == defaults,
{
}

/// Each setting that was chosen is in force as it was chosen, and each that was not is
/// the engine's own; no choice touches another setting.
pub proof fn lemma_what_is_set_is_in_force(
    params: LlamaModelParams,
    defaults: ModelSettings,
    settings: ModelSettings,
)
    requires
        call_ensures(LlamaModelParams::as_raw, (&params, defaults), settings),
    ensures
        params.n_gpu_layers is Some ==> settings.n_gpu_layers == params.n_gpu_layers->0,
        params.n_gpu_layers is None ==> settings.n_gpu_layers == defaults.n_gpu_layers,
        params.use_mmap is Some ==> settings.use_mmap == params.use_mmap->0,
        params.use_mmap is None ==> settings.use_mmap == defaults.use_mmap,
        params.use_mlock is Some ==> settings.use_mlock == params.use_mlock->0,
        params.use_mlock is None ==> settings.use_mlock == defaults.use_mlock,
        params.vocab_only is Some ==> settings.vocab_only == params.vocab_only->0,
        params.vocab_only is None ==> settings.vocab_only == defaults.vocab_only,
        params.mtp is Some ==> settings.mtp == params.mtp->0,
        params.mtp is None ==> settings.mtp == defaults.mtp,
{
}

/// Whatever was chosen before, a further choice comes to the engine as it was made and
/// leaves every other setting as it was. Each choice stands with what it is given, what
/// it leaves chosen, and what is in force then.
pub proof fn lemma_a_choice_changes_its_own_setting(
    params: LlamaModelParams,
    defaults: ModelSettings,
    before: ModelSettings,
    n_gpu_layers: (u32, LlamaModelParams, ModelSettings),
    use_mmap: (bool, LlamaModelParams, ModelSettings),
    use_mlock: (bool, LlamaModelParams, ModelSettings),
    vocab_only: (bool, LlamaModelParams, ModelSettings),
    mtp: (bool, LlamaModelParams, ModelSettings),
)
    requires
        call_ensures(LlamaModelParams::as_raw, (&params, defaults), before),
        call_ensures(LlamaModelParams::with_n_gpu_layers, (params, n_gpu_layers.0), n_gpu_layers.1),
        call_ensures(LlamaModelParams::as_raw, (&n_gpu_layers.1, defaults), n_gpu_layers.2),
        call_ensures(LlamaModelParams::with_use_mmap, (params, use_mmap.0), use_mmap.1),
        call_ensures(LlamaModelParams::as_raw, (&use_mmap.1, defaults), use_mmap.2),
        call_ensures(LlamaModelParams::with_use_mlock, (params, use_mlock.0), use_mlock.1),
        call_ensures(LlamaModelParams::as_raw, (&use_mlock.1, defaults), use_mlock.2),
        call_ensures(LlamaModelParams::with_vocab_only, (params, vocab_only.0), vocab_only.1),
        call_ensures(LlamaModelParams::as_raw, (&vocab_only.1, defaults), vocab_only.2),
        call_ensures(LlamaModelParams::with_mtp, (params, mtp.0), mtp.1),
        call_ensures(LlamaModelParams::as_raw, (&mtp.1, defaults), mtp.2),
    ensures
        n_gpu_layers.2 == (ModelSettings { n_gpu_layers: (if n_gpu_layers.0 <= i32::MAX {
            n_gpu_layers.0 as i32
        } else {
            i32::MAX
        }), ..before }),
        use_mmap.2 == (ModelSettings { use_mmap: use_mmap.0, ..before }),
        use_mlock.2 == (ModelSettings { use_mlock: use_mlock.0, ..before }),
        vocab_only.2 == (ModelSettings { vocab_only: vocab_only.0, ..before }),
        mtp.2 == (ModelSettings { mtp: mtp.0, ..before }),
{
}

} // verus!
