//! How long things took.

use vstd::prelude::*;

use crate::float::F64;

verus! {

/// The times and counts that a context has gathered.
#[derive(Clone, Copy, Debug, PartialEq, Eq, Structural)]
pub struct LlamaTimings {
    /// The start time in milliseconds.
    pub t_start_ms: F64,
    /// The end time in milliseconds.
    pub t_end_ms: F64,
    /// The time spent loading, in milliseconds.
    pub t_load_ms: F64,
    /// The time spent sampling, in milliseconds.
    pub t_sample_ms: F64,
    /// The time spent on prompts, in milliseconds.
    pub t_p_eval_ms: F64,
    /// The time spent on single tokens, in milliseconds.
    pub t_eval_ms: F64,
    /// The number of tokens sampled.
    pub n_sample: i32,
    /// The number of prompt tokens.
    pub n_p_eval: i32,
    /// The number of single tokens.
    pub n_eval: i32,
}

impl LlamaTimings {
    pub fn new(
        t_start_ms: F64,
        t_end_ms: F64,
        t_load_ms: F64,
        t_sample_ms: F64,
        t_p_eval_ms: F64,
        t_eval_ms: F64,
        n_sample: i32,
        n_p_eval: i32,
        n_eval: i32,
    ) -> (timings: LlamaTimings)
        ensures
            timings == (LlamaTimings {
                t_start_ms,
                t_end_ms,
                t_load_ms,
                t_sample_ms,
                t_p_eval_ms,
                t_eval_ms,
                n_sample,
                n_p_eval,
                n_eval,
            }),
    {
        LlamaTimings {
            t_start_ms,
            t_end_ms,
            t_load_ms,
            t_sample_ms,
            t_p_eval_ms,
            t_eval_ms,
            n_sample,
            n_p_eval,
            n_eval,
        }
    }

    /// The start time in milliseconds.
    pub fn t_start_ms(&self) -> (value: F64)
        ensures
            value == self.t_start_ms,
    {
        self.t_start_ms
    }

    /// The end time in milliseconds.
    pub fn t_end_ms(&self) -> (value: F64)
        ensures
            value == self.t_end_ms,
    {
        self.t_end_ms
    }

    /// The time spent loading, in milliseconds.
    pub fn t_load_ms(&self) -> (value: F64)
        ensures
            value == self.t_load_ms,
    {
        self.t_load_ms
    }

    /// The time spent sampling, in milliseconds.
    pub fn t_sample_ms(&self) -> (value: F64)
        ensures
            value == self.t_sample_ms,
    {
        self.t_sample_ms
    }

    /// The time spent on prompts, in milliseconds.
    pub fn t_p_eval_ms(&self) -> (value: F64)
        ensures
            value == self.t_p_eval_ms,
    {
        self.t_p_eval_ms
    }

    /// The time spent on single tokens, in milliseconds.
    pub fn t_eval_ms(&self) -> (value: F64)
        ensures
            value == self.t_eval_ms,
    {
        self.t_eval_ms
    }

    /// The number of tokens sampled.
    pub fn n_sample(&self) -> (value: i32)
        ensures
            value == self.n_sample,
    {
        self.n_sample
    }

    /// The number of prompt tokens.
    pub fn n_p_eval(&self) -> (value: i32)
        ensures
            value == self.n_p_eval,
    {
        self.n_p_eval
    }

    /// The number of single tokens.
    pub fn n_eval(&self) -> (value: i32)
        ensures
            value == self.n_eval,
    {
        self.n_eval
    }

    /// Sets the start time in milliseconds.
    pub fn set_t_start_ms(&mut self, t_start_ms: F64)
        ensures
            *final(self) == (LlamaTimings { t_start_ms, ..*old(self) }),
    {
        self.t_start_ms = t_start_ms;
    }

    /// Sets the end time in milliseconds.
    pub fn set_t_end_ms(&mut self, t_end_ms: F64)
        ensures
            *final(self) == (LlamaTimings { t_end_ms, ..*old(self) }),
    {
        self.t_end_ms = t_end_ms;
    }

    /// Sets the time spent loading, in milliseconds.
    pub fn set_t_load_ms(&mut self, t_load_ms: F64)
        ensures
            *final(self) == (LlamaTimings { t_load_ms, ..*old(self) }),
    {
        self.t_load_ms = t_load_ms;
    }

    /// Sets the time spent sampling, in milliseconds.
    pub fn set_t_sample_ms(&mut self, t_sample_ms: F64)
        ensures
            *final(self) == (LlamaTimings { t_sample_ms, ..*old(self) }),
    {
        self.t_sample_ms = t_sample_ms;
    }

    /// Sets the time spent on prompts, in milliseconds.
    pub fn set_t_p_eval_ms(&mut self, t_p_eval_ms: F64)
        ensures
            *final(self) == (LlamaTimings { t_p_eval_ms, ..*old(self) }),
    {
        self.t_p_eval_ms = t_p_eval_ms;
    }

    /// Sets the time spent on single tokens, in milliseconds.
    pub fn set_t_eval_ms(&mut self, t_eval_ms: F64)
        ensures
            *final(self) == (LlamaTimings { t_eval_ms, ..*old(self) }),
    {
        self.t_eval_ms = t_eval_ms;
    }

    /// Sets the number of tokens sampled.
    pub fn set_n_sample(&mut self, n_sample: i32)
        ensures
            *final(self) == (LlamaTimings { n_sample, ..*old(self) }),
    {
        self.n_sample = n_sample;
    }

    /// Sets the number of prompt tokens.
    pub fn set_n_p_eval(&mut self, n_p_eval: i32)
        ensures
            *final(self) == (LlamaTimings { n_p_eval, ..*old(self) }),
    {
        self.n_p_eval = n_p_eval;
    }

    /// Sets the number of single tokens.
    pub fn set_n_eval(&mut self, n_eval: i32)
        ensures
            *final(self) == (LlamaTimings { n_eval, ..*old(self) }),
    {
        self.n_eval = n_eval;
    }
}

} // verus!
