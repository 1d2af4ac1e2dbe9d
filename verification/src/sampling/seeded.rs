//! What a seed decides: the tokens that a distribution sampler selects, over any
//! number of sets of candidates.

use vstd::prelude::*;

use crate::sampling::rng::Rng;
use crate::sampling::whole::{Asked, WholeRun};
use crate::sampling::{ChainRun, ChainStep, EngineOutcome, LlamaSampler, Progress, Stage, StageCall};
use crate::token::data_array::LlamaTokenDataArray;
use crate::token::LlamaToken;

verus! {

/// The token that a run has selected where it stands at `p`.
pub open spec fn token_at(p: Progress) -> Option<LlamaToken> {
    match p.selected {
        Some(s) => if s < p.data.len() {
            Some(p.data[s as int].id)
        } else {
            None
        },
        None => None,
    }
}

/// The softmax left candidates, and a running sum of probabilities for each.
pub open spec fn leaves_candidates(outcome: EngineOutcome) -> bool {
    &&& outcome.data@.len() > 0
    &&& outcome.cumulative@.len() == outcome.data@.len()
}

/// All that applying `stages` to `arr` comes to where the engine answers the first
/// call with `outcome`, and no other.
pub open spec fn applied_once(
    stages: Seq<Stage>,
    arr: LlamaTokenDataArray,
    outcome: EngineOutcome,
) -> WholeRun {
    crate::sampling::whole::applied(
        stages,
        arr.data@,
        arr.selected,
        arr.sorted,
        seq![outcome],
    )
}

/// A distribution sampler calls the engine once, selects the candidate that its
/// draw falls on, and is left with the next state of its generator. Which
/// candidate it selects is decided by the state and by what the engine answers.
pub proof fn lemma_dist_selects_where_its_draw_falls(
    rng: Rng,
    arr: LlamaTokenDataArray,
    outcome: EngineOutcome,
)
    requires
        arr.data@.len() > 0,
        leaves_candidates(outcome),
    ensures
        ({
            let r = applied_once(seq![Stage::Dist(rng)], arr, outcome);
            let chosen = crate::sampling::drawn(outcome.cumulative@, rng.draw());
            &&& r.is_through()
            &&& r.asked == seq![
                Asked {
                    stage: Stage::Dist(rng.stepped()),
                    data: arr.data@,
                    selected: arr.selected,
                    sorted: arr.sorted,
                },
            ]
            &&& r.end.stages == seq![Stage::Dist(rng.stepped())]
            &&& r.end.data == outcome.data@
            &&& r.end.sorted == outcome.sorted
            &&& 0 <= chosen < outcome.data@.len()
            &&& r.end.selected == Some(chosen as usize)
            &&& token_at(r.end) == Some(outcome.data@[chosen].id)
        }),
{
    let stages = seq![Stage::Dist(rng)];
    let p = crate::sampling::standing(stages, arr, 0);
    let w = crate::sampling::walk(p);
    let after = seq![Stage::Dist(rng.stepped())];
    assert(w.stages =~= after);
    crate::sampling::laws::lemma_a_draw_falls_on_a_candidate(outcome.cumulative@, rng.draw());
    assert(outcome.cumulative.len() == outcome.cumulative@.len());
    let next = crate::sampling::whole::answered(p, outcome);
    assert(crate::sampling::walk(next) == next);
    let rest = crate::sampling::whole::whole_run(next, seq![outcome].skip(1));
    assert(rest.asked.len() == 0);
    let asked = seq![crate::sampling::whole::asked_at(w)];
    assert(asked + rest.asked =~= asked);
}

/// The steps of a distribution sampler, [`LlamaSampler::apply`] up to the call and
/// [`LlamaSampler::resume`] with what the engine answered, leave what
/// [`applied_once`] says: the same selected token and the same state of the
/// generator. `halfway` and `shown` are what `apply` leaves, `done` and `left`
/// what `resume` leaves.
pub proof fn lemma_dist_steps_select_the_same(
    rng: Rng,
    arr: LlamaTokenDataArray,
    halfway: LlamaSampler,
    shown: LlamaTokenDataArray,
    run: ChainRun,
    call: StageCall,
    outcome: EngineOutcome,
    done: LlamaSampler,
    left: LlamaTokenDataArray,
    step: ChainStep,
)
    requires
        arr.data@.len() > 0,
        leaves_candidates(outcome),
        halfway.has_walked(
            shown,
            ChainStep::Call { run, call },
            crate::sampling::standing(seq![Stage::Dist(rng)], arr, 0),
        ),
        done.has_walked(
            left,
            step,
            Progress {
                stages: halfway.stages@,
                data: outcome.data@,
                selected: crate::sampling::selected_after(outcome, run.pending),
                sorted: outcome.sorted,
                at: run.next as int,
            },
        ),
    ensures
        step is Done,
        done.stages@ == applied_once(seq![Stage::Dist(rng)], arr, outcome).end.stages,
        left.chosen() == token_at(applied_once(seq![Stage::Dist(rng)], arr, outcome).end),
        left.chosen() is Some,
{
    let p = crate::sampling::standing(seq![Stage::Dist(rng)], arr, 0);
    let answers = seq![outcome];
    let after = Progress {
        stages: halfway.stages@,
        data: outcome.data@,
        selected: crate::sampling::selected_after(outcome, run.pending),
        sorted: outcome.sorted,
        at: run.next as int,
    };
    lemma_dist_selects_where_its_draw_falls(rng, arr, outcome);
    crate::sampling::whole::lemma_steps_make_up_the_run(
        halfway,
        shown,
        ChainStep::Call { run, call },
        p,
        answers,
    );
    assert(after.at >= after.stages.len());
    crate::sampling::whole::lemma_steps_make_up_the_run(done, left, step, after, answers.skip(1));
}

/// The tokens that a sampler whose stages call the engine once at most selects when
/// it is applied to one set of candidates after another, and the engine answers
/// each call by `engine`.
pub open spec fn selections(
    stages: Seq<Stage>,
    arrays: Seq<LlamaTokenDataArray>,
    engine: spec_fn(Asked) -> EngineOutcome,
) -> Seq<Option<LlamaToken>>
    decreases arrays.len(),
{
    if arrays.len() == 0 {
        Seq::empty()
    } else {
        let end = applied_once(stages, arrays[0], engine(first_asked(stages, arrays[0]))).end;
        seq![token_at(end)] + selections(end.stages, arrays.skip(1), engine)
    }
}

/// The first thing that the engine is asked when `stages` are applied to `arr`.
pub open spec fn first_asked(stages: Seq<Stage>, arr: LlamaTokenDataArray) -> Asked {
    crate::sampling::whole::asked_at(
        crate::sampling::walk(crate::sampling::standing(stages, arr, 0)),
    )
}

/// `x` and `y` hold the same candidates, the same selection and the same flag.
pub open spec fn same_candidates(x: LlamaTokenDataArray, y: LlamaTokenDataArray) -> bool {
    &&& x.data@ == y.data@
    &&& x.selected == y.selected
    &&& x.sorted == y.sorted
}

/// Equal seeds select alike: two distribution samplers made with the same seed and
/// applied to the same candidates select the same token, in the first use and in
/// every later one, and always select one; provided that the engine answers alike
/// what it is asked alike, and that its softmax leaves candidates.
pub proof fn lemma_equal_seeds_select_alike(
    seed: u32,
    a: LlamaSampler,
    b: LlamaSampler,
    xs: Seq<LlamaTokenDataArray>,
    ys: Seq<LlamaTokenDataArray>,
    engine: spec_fn(Asked) -> EngineOutcome,
)
    requires
        a.is_single(Stage::Dist(Rng::seeded(seed))),
        b.is_single(Stage::Dist(Rng::seeded(seed))),
        xs.len() == ys.len(),
        forall|i: int| 0 <= i < xs.len() ==> same_candidates(#[trigger] xs[i], ys[i]),
        forall|i: int| 0 <= i < xs.len() ==> (#[trigger] xs[i]).data@.len() > 0,
        forall|asked: Asked|
            asked.data.len() > 0 ==> leaves_candidates(#[trigger] engine(asked)),
    ensures
        selections(a.stages@, xs, engine) == selections(b.stages@, ys, engine),
        selections(a.stages@, xs, engine).len() == xs.len(),
        forall|i: int|
            0 <= i < xs.len() ==> (#[trigger] selections(a.stages@, xs, engine)[i]) is Some,
{
    lemma_equal_states_select_alike(Rng::seeded(seed), xs, ys, engine);
}

proof fn lemma_equal_states_select_alike(
    rng: Rng,
    xs: Seq<LlamaTokenDataArray>,
    ys: Seq<LlamaTokenDataArray>,
    engine: spec_fn(Asked) -> EngineOutcome,
)
    requires
        xs.len() == ys.len(),
        forall|i: int| 0 <= i < xs.len() ==> same_candidates(#[trigger] xs[i], ys[i]),
        forall|i: int| 0 <= i < xs.len() ==> (#[trigger] xs[i]).data@.len() > 0,
        forall|asked: Asked|
            asked.data.len() > 0 ==> leaves_candidates(#[trigger] engine(asked)),
    ensures
        ({
            let s = selections(seq![Stage::Dist(rng)], xs, engine);
            &&& s == selections(seq![Stage::Dist(rng)], ys, engine)
            &&& s.len() == xs.len()
            &&& forall|i: int| 0 <= i < xs.len() ==> (#[trigger] s[i]) is Some
        }),
    decreases xs.len(),
{
    if xs.len() > 0 {
        let stages = seq![Stage::Dist(rng)];
        assert(same_candidates(xs[0], ys[0]));
        assert(first_asked(stages, xs[0]) == first_asked(stages, ys[0]));
        let asked = first_asked(stages, xs[0]);
        assert(asked.data == xs[0].data@);
        lemma_dist_selects_where_its_draw_falls(rng, xs[0], engine(asked));
        let xt = xs.skip(1);
        let yt = ys.skip(1);
        assert forall|i: int| 0 <= i < xt.len() implies same_candidates(#[trigger] xt[i], yt[i])
            && xt[i].data@.len() > 0 by {
            assert(same_candidates(xs[i + 1], ys[i + 1]));
        }
        lemma_equal_states_select_alike(rng.stepped(), xt, yt, engine);
    }
}

} // verus!
