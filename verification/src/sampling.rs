//! Sampler chains.
//!
//! A [`LlamaSampler`] is a list of stages that are run over the candidates for
//! the next token, one after the other. The selectors are computed here. Every
//! other stage is the engine's work: a run over a chain stops at such a stage
//! and says what to call ([`ChainStep::Call`]), and goes on from what the call
//! left ([`LlamaSampler::resume`]).

pub mod calls;
pub mod laws;
pub mod rng;
pub mod seeded;
pub mod whole;

use vstd::prelude::*;

use crate::context::LlamaContext;
use crate::float::F32;
use crate::grammar::{texts_from_bytes, GrammarInitError, GrammarSource, GrammarTriggers};
use crate::sampling::rng::Rng;
use crate::token::data::LlamaTokenData;
use crate::token::data_array::LlamaTokenDataArray;
use crate::token::{raw_ids, LlamaToken};

verus! {

/// One stage of a chain.
#[derive(Debug)]
pub enum Stage {
    TopK(i32),
    TopP { p: F32, min_keep: usize },
    MinP { p: F32, min_keep: usize },
    Typical { p: F32, min_keep: usize },
    TopNSigma(F32),
    TailFree { z: F32, min_keep: usize },
    Temp(F32),
    TempExt { t: F32, delta: F32, exponent: F32 },
    Penalties { last_n: i32, repeat: F32, freq: F32, presence: F32 },
    /// A weighted draw over the softmax of the logits.
    Dist(Rng),
    /// The candidate with the greatest logit.
    Greedy,
    /// A grammar constraint; `grammar` tells the engine's grammars apart.
    Grammar { grammar: u64 },
}

/// A call into the engine that a stage needs, over the candidates as they stand.
#[derive(Debug)]
pub enum StageCall {
    TopK { k: i32, min_keep: usize },
    TopP { p: F32, min_keep: usize },
    MinP { p: F32, min_keep: usize },
    Typical { p: F32, min_keep: usize },
    TopNSigma { n: F32 },
    TailFree { z: F32, min_keep: usize },
    Temp { t: F32 },
    /// Dynamic temperature between `t - delta` and `t + delta`.
    Entropy { t: F32, delta: F32, exponent: F32 },
    RepetitionPenalties { last_tokens: Vec<LlamaToken>, repeat: F32, freq: F32, presence: F32 },
    /// Fill in the probabilities.
    Softmax,
    Grammar { grammar: u64 },
}

/// What a call into the engine left.
#[derive(Debug)]
pub struct EngineOutcome {
    pub data: Vec<LlamaTokenData>,
    /// The engine's selection: an index, or -1.
    pub selected: i64,
    pub sorted: bool,
    /// After a softmax, for each candidate the sum of the probabilities up to
    /// and with its own; otherwise not read.
    pub cumulative: Vec<F32>,
}

/// Where a run over a chain stands while the engine works.
#[derive(Clone, Copy, Debug)]
pub struct ChainRun {
    /// The stage to go on with after the call.
    pub next: usize,
    /// The number drawn, where the call is made for a distribution stage.
    pub pending: Option<F32>,
}

#[derive(Debug)]
pub enum ChainStep {
    /// Every stage has run.
    Done,
    /// The engine is to make `call`; `run` goes to [`LlamaSampler::resume`].
    Call { run: ChainRun, call: StageCall },
}

/// A sampler: stages in order, and the tokens accepted so far.
#[derive(Debug)]
pub struct LlamaSampler {
    pub stages: Vec<Stage>,
    pub history: Vec<LlamaToken>,
}

/// The bits of minus infinity.
pub const NEG_INFINITY: u32 = 0xff80_0000;

/// The logit is a number, and not minus infinity.
pub open spec fn is_live(d: LlamaTokenData) -> bool {
    d.logit.above(F32 { bits: NEG_INFINITY })
}

/// `best` is what a greedy selection over `data` finds: the first of the
/// candidates that no other outdoes, and the very first candidate where no
/// logit is above minus infinity.
pub open spec fn is_greedy_choice(data: Seq<LlamaTokenData>, best: int) -> bool {
    &&& 0 <= best < data.len()
    &&& if exists|i: int| 0 <= i < data.len() && is_live(#[trigger] data[i]) {
        &&& is_live(data[best])
        &&& forall|i: int|
            0 <= i < data.len() ==> !(#[trigger] data[i]).logit.above(data[best].logit)
        &&& forall|i: int|
            0 <= i < best ==> !(#[trigger] data[i]).logit.same_number(data[best].logit)
    } else {
        best == 0
    }
}

/// The index that a greedy selection over `data` finds.
pub open spec fn greedy_choice(data: Seq<LlamaTokenData>) -> int {
    choose|best: int| is_greedy_choice(data, best)
}

/// `chosen` is where a draw of `r` falls: the first candidate whose cumulative
/// probability is above `r`, or the last one where none is.
pub open spec fn is_drawn(cumulative: Seq<F32>, r: F32, chosen: int) -> bool {
    &&& 0 <= chosen < cumulative.len()
    &&& forall|i: int| 0 <= i < chosen ==> !(#[trigger] cumulative[i]).above(r)
    &&& cumulative[chosen].above(r) || chosen == cumulative.len() - 1
}

/// The index where a draw of `r` falls.
pub open spec fn drawn(cumulative: Seq<F32>, r: F32) -> int {
    choose|chosen: int| is_drawn(cumulative, r, chosen)
}

/// The last `last_n` tokens of `history`, or all of it where it is shorter.
pub open spec fn penalty_window(history: Seq<LlamaToken>, last_n: int) -> Seq<LlamaToken> {
    if last_n <= 0 {
        Seq::empty()
    } else if last_n >= history.len() {
        history
    } else {
        history.skip(history.len() - last_n)
    }
}

impl StageCall {
    /// `self` is the call that `stage` needs.
    pub open spec fn serves(self, stage: Stage, history: Seq<LlamaToken>) -> bool {
        match stage {
            Stage::TopK(k) => self == (StageCall::TopK { k, min_keep: 1 }),
            Stage::TopP { p, min_keep } => self == (StageCall::TopP { p, min_keep }),
            Stage::MinP { p, min_keep } => self == (StageCall::MinP { p, min_keep }),
            Stage::Typical { p, min_keep } => self == (StageCall::Typical { p, min_keep }),
            Stage::TopNSigma(n) => self == (StageCall::TopNSigma { n }),
            Stage::TailFree { z, min_keep } => self == (StageCall::TailFree { z, min_keep }),
            Stage::Temp(t) => self == (StageCall::Temp { t }),
            Stage::TempExt { t, delta, exponent } => self == (StageCall::Entropy {
                t,
                delta,
                exponent,
            }),
            Stage::Penalties { last_n, repeat, freq, presence } => {
                &&& self is RepetitionPenalties
                &&& self->last_tokens@ == penalty_window(history, last_n as int)
                &&& self->repeat == repeat
                &&& self->freq == freq
                &&& self->presence == presence
            },
            Stage::Dist(_) => self == StageCall::Softmax,
            Stage::Greedy => false,
            Stage::Grammar { grammar } => self == (StageCall::Grammar { grammar }),
        }
    }
}

/// The state of a run over a chain.
pub struct Progress {
    pub stages: Seq<Stage>,
    pub data: Seq<LlamaTokenData>,
    pub selected: Option<usize>,
    pub sorted: bool,
    /// The stage that comes next.
    pub at: int,
}

/// A run over `stages` and the candidates of `arr` that has come to stage `at`.
pub open spec fn standing(stages: Seq<Stage>, arr: LlamaTokenDataArray, at: int) -> Progress {
    Progress { stages, data: arr.data@, selected: arr.selected, sorted: arr.sorted, at }
}

/// Runs the stages from `p.at` on as far as no engine is needed.
///
/// A greedy stage selects. An empty set of candidates is handed to no stage: a
/// selector then selects nothing, and every other stage is passed over. The run
/// stops behind the last stage, or at the first one that has candidates to hand
/// to the engine; a distribution stage has made its draw by then.
pub open spec fn walk(p: Progress) -> Progress
    decreases p.stages.len() - p.at,
{
    if p.at < 0 || p.at >= p.stages.len() {
        p
    } else {
        match p.stages[p.at] {
            Stage::Greedy => walk(
                Progress {
                    selected: if p.data.len() == 0 {
                        None
                    } else {
                        Some(greedy_choice(p.data) as usize)
                    },
                    at: p.at + 1,
                    ..p
                },
            ),
            Stage::Dist(rng) => {
                let stages = p.stages.update(p.at, Stage::Dist(rng.stepped()));
                if p.data.len() == 0 {
                    walk(Progress { stages, selected: None, at: p.at + 1, ..p })
                } else {
                    Progress { stages, ..p }
                }
            },
            _ => if p.data.len() == 0 {
                walk(Progress { at: p.at + 1, ..p })
            } else {
                p
            },
        }
    }
}

impl LlamaSampler {
    /// `self`, `arr` and `step` are what comes of a run that stood at `p`.
    pub open spec fn has_walked(
        self,
        arr: LlamaTokenDataArray,
        step: ChainStep,
        p: Progress,
    ) -> bool {
        let w = walk(p);
        &&& self.stages@ == w.stages
        &&& arr.data@ == w.data
        &&& arr.selected == w.selected
        &&& arr.sorted == w.sorted
        &&& match step {
            ChainStep::Done => w.at >= w.stages.len(),
            ChainStep::Call { run, call } => {
                &&& w.at < w.stages.len()
                &&& run.next == w.at + 1
                &&& call.serves(w.stages[w.at], self.history@)
                &&& match p.stages[w.at] {
                    Stage::Dist(rng) => run.pending is Some && rng.uniform(run.pending->0),
                    _ => run.pending is None,
                }
            },
        }
    }
}

proof fn lemma_greedy_choice_is_unique(data: Seq<LlamaTokenData>, a: int, b: int)
    requires
        is_greedy_choice(data, a),
        is_greedy_choice(data, b),
    ensures
        a == b,
{
    if is_live(data[a]) && is_live(data[b]) {
        assert(data[a].logit.same_number(data[b].logit));
    }
}

proof fn lemma_drawn_is_unique(cumulative: Seq<F32>, r: F32, a: int, b: int)
    requires
        is_drawn(cumulative, r, a),
        is_drawn(cumulative, r, b),
    ensures
        a == b,
{
}

/// The greedy selection over `data`.
fn pick_greedy(data: &Vec<LlamaTokenData>) -> (best: usize)
    requires
        data@.len() > 0,
    ensures
        is_greedy_choice(data@, best as int),
        best == greedy_choice(data@),
{
    let mut best: usize = 0;
    let mut best_logit = F32::from_bits(NEG_INFINITY);
    let mut i: usize = 0;
    while i < data.len()
        invariant
            i <= data@.len(),
            best < data@.len(),
            forall|k: int| 0 <= k < i ==> !(#[trigger] data@[k]).logit.above(best_logit),
            if best_logit.bits == NEG_INFINITY {
                best == 0 && forall|k: int| 0 <= k < i ==> !is_live(#[trigger] data@[k])
            } else {
                &&& best < i
                &&& best_logit == data@[best as int].logit
                &&& is_live(data@[best as int])
                &&& forall|k: int|
                    0 <= k < best ==> !(#[trigger] data@[k]).logit.same_number(best_logit)
            },
        decreases data@.len() - i,
    {
        let d = data[i];
        if d.logit.gt(best_logit) {
            assert(is_live(d));
            best_logit = d.logit;
            best = i;
        }
        i += 1;
    }
    proof {
        assert(is_greedy_choice(data@, best as int));
        lemma_greedy_choice_is_unique(data@, best as int, greedy_choice(data@));
    }
    best
}

/// Where a draw of `r` falls.
fn pick_drawn(cumulative: &Vec<F32>, r: F32) -> (chosen: usize)
    requires
        cumulative@.len() > 0,
    ensures
        is_drawn(cumulative@, r, chosen as int),
        chosen == drawn(cumulative@, r),
{
    let last: usize = cumulative.len() - 1;
    let mut i: usize = 0;
    while i < last && !cumulative[i].gt(r)
        invariant
            i <= last,
            last == cumulative@.len() - 1,
            forall|k: int| 0 <= k < i ==> !(#[trigger] cumulative@[k]).above(r),
        decreases last - i,
    {
        i += 1;
    }
    proof {
        assert(is_drawn(cumulative@, r, i as int));
        lemma_drawn_is_unique(cumulative@, r, i as int, drawn(cumulative@, r));
    }
    i
}

/// The part of `history` that a penalty over the last `last_n` tokens looks at.
fn window_of(history: &Vec<LlamaToken>, last_n: i32) -> (window: Vec<LlamaToken>)
    ensures
        window@ == penalty_window(history@, last_n as int),
{
    let wanted: usize = if last_n > 0 {
        last_n as usize
    } else {
        0
    };
    let len: usize = history.len();
    let start: usize = if wanted < len {
        len - wanted
    } else {
        0
    };
    let window = vstd::slice::slice_to_vec(
        vstd::slice::slice_subrange(history.as_slice(), start, len),
    );
    proof {
        assert(history@.subrange(0, len as int) =~= history@);
        assert(history@.skip(start as int) =~= history@.subrange(start as int, len as int));
        assert(history@.subrange(len as int, len as int) =~= Seq::empty());
    }
    window
}

/// The stages of several samplers, one after the other.
pub open spec fn joined_stages(samplers: Seq<LlamaSampler>) -> Seq<Stage>
    decreases samplers.len(),
{
    if samplers.len() == 0 {
        Seq::empty()
    } else {
        joined_stages(samplers.drop_last()) + samplers.last().stages@
    }
}

/// The grammars of the grammar stages, in order.
pub open spec fn grammars(stages: Seq<Stage>) -> Seq<u64>
    decreases stages.len(),
{
    if stages.len() == 0 {
        Seq::empty()
    } else {
        let before = grammars(stages.drop_last());
        match stages.last() {
            Stage::Grammar { grammar } => before.push(grammar),
            _ => before,
        }
    }
}

/// The selection after a call for a stage with candidates: a draw decides where
/// one is pending, the engine's selection otherwise.
pub open spec fn selected_after(outcome: EngineOutcome, pending: Option<F32>) -> Option<usize> {
    match pending {
        Some(r) => if outcome.data@.len() == 0 {
            None
        } else {
            Some(drawn(outcome.cumulative@, r) as usize)
        },
        None => crate::token::data_array::selection(outcome.selected, outcome.data@.len()),
    }
}

impl Stage {
    /// The call that this stage needs.
    fn call(&self, history: &Vec<LlamaToken>) -> (call: StageCall)
        requires
            !(self is Greedy),
        ensures
            call.serves(*self, history@),
    {
        match self {
            Stage::TopK(k) => StageCall::TopK { k: *k, min_keep: 1 },
            Stage::TopP { p, min_keep } => StageCall::TopP { p: *p, min_keep: *min_keep },
            Stage::MinP { p, min_keep } => StageCall::MinP { p: *p, min_keep: *min_keep },
            Stage::Typical { p, min_keep } => StageCall::Typical { p: *p, min_keep: *min_keep },
            Stage::TopNSigma(n) => StageCall::TopNSigma { n: *n },
            Stage::TailFree { z, min_keep } => StageCall::TailFree { z: *z, min_keep: *min_keep },
            Stage::Temp(t) => StageCall::Temp { t: *t },
            Stage::TempExt { t, delta, exponent } => StageCall::Entropy {
                t: *t,
                delta: *delta,
                exponent: *exponent,
            },
            Stage::Penalties { last_n, repeat, freq, presence } => StageCall::RepetitionPenalties {
                last_tokens: window_of(history, *last_n),
                repeat: *repeat,
                freq: *freq,
                presence: *presence,
            },
            Stage::Dist(_) => StageCall::Softmax,
            Stage::Greedy => StageCall::Softmax,
            Stage::Grammar { grammar } => StageCall::Grammar { grammar: *grammar },
        }
    }
}

impl LlamaSampler {
    /// Runs the stages from `at` on until one needs the engine.
    fn run(&mut self, arr: &mut LlamaTokenDataArray, at: usize) -> (step: ChainStep)
        ensures
            final(self).has_walked(
                *final(arr),
                step,
                standing(old(self).stages@, *old(arr), at as int),
            ),
            final(self).history == old(self).history,
            final(arr).data == old(arr).data,
            final(arr).sorted == old(arr).sorted,
            step is Call ==> final(arr).data@.len() > 0,
    {
        let ghost start = standing(self.stages@, *arr, at as int);
        let mut i: usize = at;
        while i < self.stages.len()
            invariant
                at <= i,
                i <= self.stages@.len() || i == at,
                self.stages@.len() == start.stages.len(),
                self.history == old(self).history,
                arr.data == old(arr).data,
                arr.sorted == old(arr).sorted,
                start.data == arr.data@,
                start == standing(old(self).stages@, *old(arr), at as int),
                forall|k: int| i <= k < self.stages@.len() ==> self.stages@[k] == start.stages[k],
                walk(start) == walk(standing(self.stages@, *arr, i as int)),
            decreases self.stages@.len() - i,
        {
            let empty = arr.data.len() == 0;
            match &self.stages[i] {
                Stage::Greedy => {
                    arr.selected = if empty {
                        None
                    } else {
                        Some(pick_greedy(&arr.data))
                    };
                },
                Stage::Dist(rng) => {
                    let mut rng: Rng = *rng;
                    let r = rng.next_f32();
                    self.stages.set(i, Stage::Dist(rng));
                    if empty {
                        arr.selected = None;
                    } else {
                        return ChainStep::Call {
                            run: ChainRun { next: i + 1, pending: Some(r) },
                            call: StageCall::Softmax,
                        };
                    }
                },
                stage => {
                    if !empty {
                        return ChainStep::Call {
                            run: ChainRun { next: i + 1, pending: None },
                            call: stage.call(&self.history),
                        };
                    }
                },
            }
            i += 1;
        }
        ChainStep::Done
    }

    /// Starts a run of every stage over `arr`. Nothing happens to an empty set
    /// of candidates.
    pub fn apply(&mut self, arr: &mut LlamaTokenDataArray) -> (step: ChainStep)
        ensures
            old(arr).data@.len() == 0 ==> {
                &&& step is Done
                &&& *final(arr) == *old(arr)
                &&& *final(self) == *old(self)
            },
            old(arr).data@.len() > 0 ==> final(self).has_walked(
                *final(arr),
                step,
                standing(old(self).stages@, *old(arr), 0),
            ),
            final(self).history == old(self).history,
            final(arr).data == old(arr).data,
            final(arr).sorted == old(arr).sorted,
            step is Call ==> final(arr).data@.len() > 0,
    {
        if arr.data.len() == 0 {
            return ChainStep::Done;
        }
        self.run(arr, 0)
    }

    /// Goes on with a run after the engine has made its call.
    pub fn resume(
        &mut self,
        arr: &mut LlamaTokenDataArray,
        run: ChainRun,
        outcome: EngineOutcome,
    ) -> (step: ChainStep)
        requires
            run.pending is Some ==> outcome.cumulative@.len() == outcome.data@.len(),
        ensures
            final(self).has_walked(
                *final(arr),
                step,
                Progress {
                    stages: old(self).stages@,
                    data: outcome.data@,
                    selected: selected_after(outcome, run.pending),
                    sorted: outcome.sorted,
                    at: run.next as int,
                },
            ),
            final(self).history == old(self).history,
            final(arr).data == outcome.data,
            final(arr).sorted == outcome.sorted,
            step is Call ==> final(arr).data@.len() > 0,
    {
        let draw: Option<usize> = match run.pending {
            Some(r) if outcome.data.len() > 0 => Some(pick_drawn(&outcome.cumulative, r)),
            _ => None,
        };
        arr.sync_from_c(outcome.data, outcome.selected, outcome.sorted);
        if run.pending.is_some() {
            arr.selected = draw;
        }
        self.run(arr, run.next)
    }
}

impl LlamaSampler {
    /// One stage, and nothing accepted yet.
    pub open spec fn is_single(self, stage: Stage) -> bool {
        &&& self.stages@ == seq![stage]
        &&& self.history@.len() == 0
    }

    fn single(stage: Stage) -> (sampler: LlamaSampler)
        ensures
            sampler.is_single(stage),
    {
        let mut stages: Vec<Stage> = Vec::new();
        stages.push(stage);
        LlamaSampler { stages, history: Vec::new() }
    }

    /// The stages of all `samplers`, from left to right, as one chain. What they
    /// have accepted is forgotten.
    pub fn chain_simple(samplers: Vec<LlamaSampler>) -> (sampler: LlamaSampler)
        ensures
            sampler.stages@ == joined_stages(samplers@),
            sampler.history@.len() == 0,
    {
        let ghost all = samplers@;
        let mut rest = samplers;
        let mut stages: Vec<Stage> = Vec::new();
        assert(all.take(0) =~= Seq::empty());
        while rest.len() > 0
            invariant
                rest@.len() <= all.len(),
                rest@ == all.skip(all.len() - rest@.len()),
                stages@ == joined_stages(all.take(all.len() - rest@.len())),
            decreases rest@.len(),
        {
            let ghost done = all.len() - rest@.len();
            let mut first = rest.remove(0);
            stages.append(&mut first.stages);
            proof {
                assert(rest@ =~= all.skip(done + 1));
                assert(all.take(done + 1).drop_last() =~= all.take(done));
                assert(all.take(done + 1).last() == all[done]);
            }
        }
        assert(all.take(all.len() as int) =~= all);
        LlamaSampler { stages, history: Vec::new() }
    }

    /// Takes the candidate with the greatest logit.
    pub fn greedy() -> (sampler: LlamaSampler)
        ensures
            sampler.is_single(Stage::Greedy),
    {
        LlamaSampler::single(Stage::Greedy)
    }

    /// Draws by the probabilities, with random numbers from `seed`.
    pub fn dist(seed: u32) -> (sampler: LlamaSampler)
        ensures
            sampler.is_single(Stage::Dist(Rng::seeded(seed))),
    {
        LlamaSampler::single(Stage::Dist(Rng::new(seed)))
    }

    /// Temperature.
    pub fn temp(t: F32) -> (sampler: LlamaSampler)
        ensures
            sampler.is_single(Stage::Temp(t)),
    {
        LlamaSampler::single(Stage::Temp(t))
    }

    /// Dynamic temperature between `t - delta` and `t + delta`.
    pub fn temp_ext(t: F32, delta: F32, exponent: F32) -> (sampler: LlamaSampler)
        ensures
            sampler.is_single((Stage::TempExt { t, delta, exponent })),
    {
        LlamaSampler::single(Stage::TempExt { t, delta, exponent })
    }

    /// Keeps the `k` candidates with the greatest logits.
    pub fn top_k(k: i32) -> (sampler: LlamaSampler)
        ensures
            sampler.is_single(Stage::TopK(k)),
    {
        LlamaSampler::single(Stage::TopK(k))
    }

    /// Keeps the likeliest candidates that together reach `p`.
    pub fn top_p(p: F32, min_keep: usize) -> (sampler: LlamaSampler)
        ensures
            sampler.is_single((Stage::TopP { p, min_keep })),
    {
        LlamaSampler::single(Stage::TopP { p, min_keep })
    }

    /// Keeps the candidates that reach `p` times the likeliest.
    pub fn min_p(p: F32, min_keep: usize) -> (sampler: LlamaSampler)
        ensures
            sampler.is_single((Stage::MinP { p, min_keep })),
    {
        LlamaSampler::single(Stage::MinP { p, min_keep })
    }

    /// Locally typical sampling.
    pub fn typical(p: F32, min_keep: usize) -> (sampler: LlamaSampler)
        ensures
            sampler.is_single((Stage::Typical { p, min_keep })),
    {
        LlamaSampler::single(Stage::Typical { p, min_keep })
    }

    /// Keeps the logits within `n` standard deviations of the greatest.
    pub fn top_n_sigma(n: F32) -> (sampler: LlamaSampler)
        ensures
            sampler.is_single(Stage::TopNSigma(n)),
    {
        LlamaSampler::single(Stage::TopNSigma(n))
    }

    /// Tail-free sampling.
    pub fn tail_free(z: F32, min_keep: usize) -> (sampler: LlamaSampler)
        ensures
            sampler.is_single((Stage::TailFree { z, min_keep })),
    {
        LlamaSampler::single(Stage::TailFree { z, min_keep })
    }

    /// Penalties for what occurs among the last `penalty_last_n` accepted tokens.
    pub fn penalties(
        penalty_last_n: i32,
        penalty_repeat: F32,
        penalty_freq: F32,
        penalty_present: F32,
    ) -> (sampler: LlamaSampler)
        ensures
            sampler.is_single(
                (Stage::Penalties {
                    last_n: penalty_last_n,
                    repeat: penalty_repeat,
                    freq: penalty_freq,
                    presence: penalty_present,
                }),
            ),
    {
        LlamaSampler::single(
            Stage::Penalties {
                last_n: penalty_last_n,
                repeat: penalty_repeat,
                freq: penalty_freq,
                presence: penalty_present,
            },
        )
    }

    /// The first half of making a grammar stage: what the engine is to parse.
    pub fn grammar(grammar_str: &str, root: &str) -> (r: Result<GrammarSource, GrammarInitError>)
        ensures
            crate::grammar::is_grammar_source(grammar_str@, root@, r),
    {
        match GrammarSource::new(grammar_str, root) {
            Ok(source) => Ok(source),
            Err(e) => Err(GrammarInitError::Nul(e)),
        }
    }

    /// The first half of making a stage whose grammar waits for a trigger.
    pub fn grammar_lazy(
        grammar_str: &str,
        root: &str,
        trigger_words: Vec<Vec<u8>>,
        trigger_tokens: &[LlamaToken],
    ) -> (r: Result<(GrammarSource, GrammarTriggers), GrammarInitError>)
        ensures
            match r {
                Ok((source, triggers)) => {
                    &&& crate::grammar::is_source(grammar_str@, root@, Ok(source))
                    &&& crate::grammar::are_c_texts(
                        crate::grammar::contents(trigger_words@),
                        Ok(triggers.words),
                    )
                    &&& triggers.tokens@ == crate::token::ids_of(trigger_tokens@)
                },
                Err(GrammarInitError::Nul(e)) => {
                    ||| crate::grammar::is_source(grammar_str@, root@, Err(e))
                    ||| {
                        &&& crate::cstr::nul_free(vstd::utf8::encode_utf8(grammar_str@))
                        &&& crate::cstr::nul_free(vstd::utf8::encode_utf8(root@))
                        &&& crate::grammar::are_c_texts(
                            crate::grammar::contents(trigger_words@),
                            Err(e),
                        )
                    }
                },
                Err(GrammarInitError::Parse) => false,
            },
    {
        let source = match GrammarSource::new(grammar_str, root) {
            Ok(source) => source,
            Err(e) => return Err(GrammarInitError::Nul(e)),
        };
        let words = match texts_from_bytes(trigger_words) {
            Ok(words) => words,
            Err(e) => return Err(GrammarInitError::Nul(e)),
        };
        let tokens = raw_ids(trigger_tokens);
        Ok((source, GrammarTriggers { words, tokens }))
    }

    /// The second half of making a grammar stage: `parsed` is the engine's
    /// grammar, or nothing where it did not parse.
    pub fn parsed_grammar(parsed: Option<u64>) -> (r: Result<LlamaSampler, GrammarInitError>)
        ensures
            match r {
                Ok(sampler) => parsed is Some && sampler.is_single(
                    (Stage::Grammar { grammar: parsed->0 }),
                ),
                Err(e) => parsed is None && e == GrammarInitError::Parse,
            },
    {
        match parsed {
            Some(grammar) => Ok(LlamaSampler::single(Stage::Grammar { grammar })),
            None => Err(GrammarInitError::Parse),
        }
    }

    /// Records `token`, and says which grammars are to be advanced by it.
    pub fn accept(&mut self, token: LlamaToken) -> (advance: Vec<u64>)
        ensures
            final(self).history@ == old(self).history@.push(token),
            final(self).stages == old(self).stages,
            advance@ == grammars(old(self).stages@),
    {
        self.history.push(token);
        let mut advance: Vec<u64> = Vec::new();
        let mut i: usize = 0;
        assert(self.stages@.take(0) =~= Seq::empty());
        while i < self.stages.len()
            invariant
                i <= self.stages@.len(),
                self.stages == old(self).stages,
                self.history@ == old(self).history@.push(token),
                advance@ == grammars(self.stages@.take(i as int)),
            decreases self.stages@.len() - i,
        {
            proof {
                let upto = self.stages@.take(i + 1);
                assert(upto.drop_last() =~= self.stages@.take(i as int));
                assert(upto.last() == self.stages@[i as int]);
            }
            match &self.stages[i] {
                Stage::Grammar { grammar } => advance.push(*grammar),
                _ => {},
            }
            i += 1;
        }
        assert(self.stages@.take(i as int) =~= self.stages@);
        advance
    }

    /// Forgets the accepted tokens.
    pub fn reset(&mut self)
        ensures
            final(self).history@.len() == 0,
            final(self).stages == old(self).stages,
    {
        self.history.clear();
    }
}

/// Where a pass over the candidates ends that holds on to one of them and goes
/// over to each next one unless the one it holds is above that.
pub open spec fn last_greatest(data: Seq<LlamaTokenData>) -> int
    decreases data.len(),
{
    if data.len() <= 1 {
        0
    } else {
        let before = last_greatest(data.drop_last());
        if data[before].logit.above(data.last().logit) {
            before
        } else {
            data.len() - 1
        }
    }
}

/// The candidates for a row of logits, and none where there is no row.
pub open spec fn row_candidates(row: Option<&[F32]>) -> Seq<LlamaTokenData> {
    match row {
        Some(row) => crate::token::data_array::candidates(row@),
        None => Seq::empty(),
    }
}

/// The token that a finished run over `arr` comes to: the selected one; without
/// a selection the last of the greatest logits; and token 0 without candidates.
pub open spec fn outcome_token(arr: LlamaTokenDataArray) -> LlamaToken {
    match arr.chosen() {
        Some(token) => token,
        None => if arr.data@.len() == 0 {
            LlamaToken(0)
        } else {
            arr.data@[last_greatest(arr.data@)].id
        },
    }
}

impl LlamaSampler {
    /// Starts a run over the candidates for position `idx` of the batch: `row` is
    /// what logits the engine has for it.
    pub fn sample(&mut self, ctx: &LlamaContext, idx: i32, row: Option<&[F32]>) -> (started: (
        LlamaTokenDataArray,
        ChainStep,
    ))
        ensures
            started.0.data@ == row_candidates(row),
            !started.0.sorted,
            started.0.data@.len() == 0 ==> {
                &&& started.0.selected is None
                &&& started.1 is Done
                &&& *final(self) == *old(self)
            },
            started.0.data@.len() > 0 ==> final(self).has_walked(
                started.0,
                started.1,
                Progress {
                    stages: old(self).stages@,
                    data: row_candidates(row),
                    selected: None,
                    sorted: false,
                    at: 0,
                },
            ),
            final(self).history == old(self).history,
            started.1 is Call ==> started.0.data@.len() > 0,
    {
        let mut arr = ctx.token_data_array_ith(idx, row);
        let step = self.apply(&mut arr);
        (arr, step)
    }

    /// The token that a finished run comes to.
    pub fn sampled(arr: &LlamaTokenDataArray) -> (token: LlamaToken)
        ensures
            token == outcome_token(*arr),
    {
        if let Some(token) = arr.selected_token() {
            return token;
        }
        if arr.data.len() == 0 {
            return LlamaToken(0);
        }
        let mut best: usize = 0;
        let mut i: usize = 1;
        while i < arr.data.len()
            invariant
                1 <= i <= arr.data@.len(),
                best < i,
                best == last_greatest(arr.data@.take(i as int)),
            decreases arr.data@.len() - i,
        {
            proof {
                let upto = arr.data@.take(i + 1);
                assert(upto.drop_last() =~= arr.data@.take(i as int));
                assert(upto[best as int] == arr.data@[best as int]);
                assert(upto.last() == arr.data@[i as int]);
            }
            if !arr.data[best].logit.gt(arr.data[i].logit) {
                best = i;
            }
            i += 1;
        }
        assert(arr.data@.take(i as int) =~= arr.data@);
        arr.data[best].id
    }
}

proof fn lemma_greedy_choice_exists(data: Seq<LlamaTokenData>) -> (best: int)
    requires
        data.len() > 0,
    ensures
        is_greedy_choice(data, best),
    decreases data.len(),
{
    if data.len() == 1 {
        assert(is_greedy_choice(data, 0));
        0
    } else {
        let before = data.drop_last();
        let b = lemma_greedy_choice_exists(before);
        let last = data.len() - 1;
        assert(forall|i: int| 0 <= i < last ==> before[i] == data[i]);
        if data[last].logit.above(if is_live(data[b]) {
            data[b].logit
        } else {
            F32 { bits: NEG_INFINITY }
        }) {
            assert(is_live(data[last]));
            assert forall|i: int| 0 <= i < last implies !(#[trigger] data[i]).logit.above(
                data[last].logit,
            ) && !data[i].logit.same_number(data[last].logit) by {
                assert(before[i] == data[i]);
                if is_live(data[i]) {
                    assert(is_live(before[i]));
                }
            }
            assert(is_greedy_choice(data, last));
            last
        } else {
            if is_live(data[b]) {
                assert(is_live(before[b]));
            }
            assert(is_greedy_choice(data, b));
            b
        }
    }
}

/// Among one candidate or more, the greedy selection is a candidate, and no
/// candidate has a greater logit.
pub proof fn lemma_greedy_choice_is_greatest(data: Seq<LlamaTokenData>)
    requires
        data.len() > 0,
    ensures
        is_greedy_choice(data, greedy_choice(data)),
        0 <= greedy_choice(data) < data.len(),
        forall|i: int|
            0 <= i < data.len() ==> !(#[trigger] data[i]).logit.above(
                data[greedy_choice(data)].logit,
            ),
{
    let best = lemma_greedy_choice_exists(data);
    let chosen = greedy_choice(data);
    lemma_greedy_choice_is_unique(data, best, chosen);
    assert forall|i: int| 0 <= i < data.len() implies !(#[trigger] data[i]).logit.above(
        data[chosen].logit,
    ) by {
        if !is_live(data[chosen]) && data[i].logit.above(data[chosen].logit) {
            data[chosen].logit.lemma_at_least_minus_infinity();
            assert(is_live(data[i]));
        }
    }
}

} // verus!
