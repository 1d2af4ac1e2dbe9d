//! What the numbers that a sampler was made with come to: the calls that the engine
//! gets, the candidate that is selected, and what is remembered in between.

use vstd::prelude::*;
use vstd::arithmetic::power2::*;

use crate::context::LlamaContext;
use crate::float::F32;
use crate::grammar::{GrammarInitError, GrammarSource, GrammarTriggers};
use crate::sampling::rng::Rng;
use crate::sampling::{
    ChainRun, ChainStep, EngineOutcome, LlamaSampler, Progress, Stage, StageCall,
};
use crate::token::data::LlamaTokenData;
use crate::token::data_array::LlamaTokenDataArray;
use crate::token::LlamaToken;

verus! {

/// Where a walk over candidates stops: behind greedy stages alone, at the first stage
/// that is none. The stages are as they were, but for the generator of a
/// distribution stage that the walk stops at.
proof fn lemma_walk_stops_behind_greedy_stages(p: Progress)
    requires
        0 <= p.at <= p.stages.len(),
        p.data.len() > 0,
    ensures
        ({
            let w = crate::sampling::walk(p);
            &&& p.at <= w.at <= p.stages.len()
            &&& w.stages.len() == p.stages.len()
            &&& w.data == p.data
            &&& w.sorted == p.sorted
            &&& forall|k: int| p.at <= k < w.at ==> (#[trigger] p.stages[k]) is Greedy
            &&& w.at < p.stages.len() ==> !(p.stages[w.at] is Greedy)
            &&& forall|k: int|
                0 <= k < p.stages.len() && k != w.at ==> #[trigger] w.stages[k] == p.stages[k]
            &&& w.at < p.stages.len() ==> w.stages[w.at] == match p.stages[w.at] {
                Stage::Dist(rng) => Stage::Dist(rng.stepped()),
                stage => stage,
            }
            &&& w.selected == if w.at > p.at {
                Some(crate::sampling::greedy_choice(p.data) as usize)
            } else {
                p.selected
            }
        }),
    decreases p.stages.len() - p.at,
{
    if p.at < p.stages.len() {
        if p.stages[p.at] is Greedy {
            let next = Progress {
                selected: Some(crate::sampling::greedy_choice(p.data) as usize),
                at: p.at + 1,
                ..p
            };
            lemma_walk_stops_behind_greedy_stages(next);
            let w = crate::sampling::walk(next);
            assert forall|k: int| p.at <= k < w.at implies (#[trigger] p.stages[k]) is Greedy by {
                assert(next.stages[k] == p.stages[k]);
            }
        }
    }
}

/// The engine keeps as many candidates as `top_k` was given, and one at least.
pub proof fn lemma_top_k_reaches_the_engine(
    k: i32,
    made: LlamaSampler,
    sampler: &mut LlamaSampler,
    arr: &mut LlamaTokenDataArray,
    step: ChainStep,
)
    requires
        call_ensures(LlamaSampler::top_k, (k,), made),
        old(sampler).stages@ == made.stages@,
        old(arr).data@.len() > 0,
        call_ensures(LlamaSampler::apply, (sampler, arr), step),
    ensures
        made.history@.len() == 0,
        step is Call,
        step->run.next == 1,
        step->run.pending is None,
        step->call is TopK,
        step->call->TopK_k == k,
        step->call->TopK_min_keep == 1,
        final(sampler).stages@ == old(sampler).stages@,
        final(arr).data == old(arr).data,
        final(arr).selected == old(arr).selected,
{
    reveal_with_fuel(crate::sampling::walk, 2);
}

/// The engine is given the two numbers that `top_p` was given.
pub proof fn lemma_top_p_reaches_the_engine(
    p: F32,
    min_keep: usize,
    made: LlamaSampler,
    sampler: &mut LlamaSampler,
    arr: &mut LlamaTokenDataArray,
    step: ChainStep,
)
    requires
        call_ensures(LlamaSampler::top_p, (p, min_keep), made),
        old(sampler).stages@ == made.stages@,
        old(arr).data@.len() > 0,
        call_ensures(LlamaSampler::apply, (sampler, arr), step),
    ensures
        made.history@.len() == 0,
        step is Call,
        step->run.next == 1,
        step->run.pending is None,
        step->call is TopP,
        step->call->TopP_p == p,
        step->call->TopP_min_keep == min_keep,
        final(sampler).stages@ == old(sampler).stages@,
        final(arr).data == old(arr).data,
        final(arr).selected == old(arr).selected,
{
    reveal_with_fuel(crate::sampling::walk, 2);
}

/// The engine is given the two numbers that `min_p` was given.
pub proof fn lemma_min_p_reaches_the_engine(
    p: F32,
    min_keep: usize,
    made: LlamaSampler,
    sampler: &mut LlamaSampler,
    arr: &mut LlamaTokenDataArray,
    step: ChainStep,
)
    requires
        call_ensures(LlamaSampler::min_p, (p, min_keep), made),
        old(sampler).stages@ == made.stages@,
        old(arr).data@.len() > 0,
        call_ensures(LlamaSampler::apply, (sampler, arr), step),
    ensures
        made.history@.len() == 0,
        step is Call,
        step->run.next == 1,
        step->run.pending is None,
        step->call is MinP,
        step->call->MinP_p == p,
        step->call->MinP_min_keep == min_keep,
        final(sampler).stages@ == old(sampler).stages@,
        final(arr).data == old(arr).data,
        final(arr).selected == old(arr).selected,
{
    reveal_with_fuel(crate::sampling::walk, 2);
}

/// The engine is given the two numbers that `typical` was given.
pub proof fn lemma_typical_reaches_the_engine(
    p: F32,
    min_keep: usize,
    made: LlamaSampler,
    sampler: &mut LlamaSampler,
    arr: &mut LlamaTokenDataArray,
    step: ChainStep,
)
    requires
        call_ensures(LlamaSampler::typical, (p, min_keep), made),
        old(sampler).stages@ == made.stages@,
        old(arr).data@.len() > 0,
        call_ensures(LlamaSampler::apply, (sampler, arr), step),
    ensures
        made.history@.len() == 0,
        step is Call,
        step->run.next == 1,
        step->run.pending is None,
        step->call is Typical,
        step->call->Typical_p == p,
        step->call->Typical_min_keep == min_keep,
        final(sampler).stages@ == old(sampler).stages@,
        final(arr).data == old(arr).data,
        final(arr).selected == old(arr).selected,
{
    reveal_with_fuel(crate::sampling::walk, 2);
}

/// The engine is given the two numbers that `tail_free` was given.
pub proof fn lemma_tail_free_reaches_the_engine(
    z: F32,
    min_keep: usize,
    made: LlamaSampler,
    sampler: &mut LlamaSampler,
    arr: &mut LlamaTokenDataArray,
    step: ChainStep,
)
    requires
        call_ensures(LlamaSampler::tail_free, (z, min_keep), made),
        old(sampler).stages@ == made.stages@,
        old(arr).data@.len() > 0,
        call_ensures(LlamaSampler::apply, (sampler, arr), step),
    ensures
        made.history@.len() == 0,
        step is Call,
        step->run.next == 1,
        step->run.pending is None,
        step->call is TailFree,
        step->call->TailFree_z == z,
        step->call->TailFree_min_keep == min_keep,
        final(sampler).stages@ == old(sampler).stages@,
        final(arr).data == old(arr).data,
        final(arr).selected == old(arr).selected,
{
    reveal_with_fuel(crate::sampling::walk, 2);
}

/// The engine is given the number that `top_n_sigma` was given.
pub proof fn lemma_top_n_sigma_reaches_the_engine(
    n: F32,
    made: LlamaSampler,
    sampler: &mut LlamaSampler,
    arr: &mut LlamaTokenDataArray,
    step: ChainStep,
)
    requires
        call_ensures(LlamaSampler::top_n_sigma, (n,), made),
        old(sampler).stages@ == made.stages@,
        old(arr).data@.len() > 0,
        call_ensures(LlamaSampler::apply, (sampler, arr), step),
    ensures
        made.history@.len() == 0,
        step is Call,
        step->run.next == 1,
        step->run.pending is None,
        step->call is TopNSigma,
        step->call->TopNSigma_n == n,
        final(sampler).stages@ == old(sampler).stages@,
        final(arr).data == old(arr).data,
        final(arr).selected == old(arr).selected,
{
    reveal_with_fuel(crate::sampling::walk, 2);
}

/// The engine is given the temperature that `temp` was given.
pub proof fn lemma_temp_reaches_the_engine(
    t: F32,
    made: LlamaSampler,
    sampler: &mut LlamaSampler,
    arr: &mut LlamaTokenDataArray,
    step: ChainStep,
)
    requires
        call_ensures(LlamaSampler::temp, (t,), made),
        old(sampler).stages@ == made.stages@,
        old(arr).data@.len() > 0,
        call_ensures(LlamaSampler::apply, (sampler, arr), step),
    ensures
        made.history@.len() == 0,
        step is Call,
        step->run.next == 1,
        step->run.pending is None,
        step->call is Temp,
        step->call->Temp_t == t,
        final(sampler).stages@ == old(sampler).stages@,
        final(arr).data == old(arr).data,
        final(arr).selected == old(arr).selected,
{
    reveal_with_fuel(crate::sampling::walk, 2);
}

/// The engine is given the three numbers that `temp_ext` was given.
pub proof fn lemma_temp_ext_reaches_the_engine(
    t: F32,
    delta: F32,
    exponent: F32,
    made: LlamaSampler,
    sampler: &mut LlamaSampler,
    arr: &mut LlamaTokenDataArray,
    step: ChainStep,
)
    requires
        call_ensures(LlamaSampler::temp_ext, (t, delta, exponent), made),
        old(sampler).stages@ == made.stages@,
        old(arr).data@.len() > 0,
        call_ensures(LlamaSampler::apply, (sampler, arr), step),
    ensures
        made.history@.len() == 0,
        step is Call,
        step->run.next == 1,
        step->run.pending is None,
        step->call is Entropy,
        step->call->Entropy_t == t,
        step->call->Entropy_delta == delta,
        step->call->Entropy_exponent == exponent,
        final(sampler).stages@ == old(sampler).stages@,
        final(arr).data == old(arr).data,
        final(arr).selected == old(arr).selected,
{
    reveal_with_fuel(crate::sampling::walk, 2);
}

/// The engine is given the three penalties that `penalties` was given, and the end of what
/// was accepted: the last `last_n` tokens in order, or all of them where there are
/// fewer, or none where `last_n` is not above zero.
pub proof fn lemma_penalties_reach_the_engine(
    last_n: i32,
    repeat: F32,
    freq: F32,
    presence: F32,
    made: LlamaSampler,
    sampler: &mut LlamaSampler,
    arr: &mut LlamaTokenDataArray,
    step: ChainStep,
)
    requires
        call_ensures(LlamaSampler::penalties, (last_n, repeat, freq, presence), made),
        old(sampler).stages@ == made.stages@,
        old(arr).data@.len() > 0,
        call_ensures(LlamaSampler::apply, (sampler, arr), step),
    ensures
        made.history@.len() == 0,
        step is Call,
        step->run.next == 1,
        step->run.pending is None,
        step->call is RepetitionPenalties,
        step->call->RepetitionPenalties_repeat == repeat,
        step->call->RepetitionPenalties_freq == freq,
        step->call->RepetitionPenalties_presence == presence,
        ({
            let seen = step->call->RepetitionPenalties_last_tokens@;
            let all = old(sampler).history@;
            &&& last_n <= 0 ==> seen.len() == 0
            &&& 0 < last_n <= all.len() ==> seen.len() == last_n
            &&& 0 < last_n && all.len() <= last_n ==> seen.len() == all.len()
            &&& forall|i: int|
                0 <= i < seen.len() ==> #[trigger] seen[i] == all[all.len() - seen.len() + i]
        }),
        final(sampler).stages@ == old(sampler).stages@,
        final(arr).data == old(arr).data,
        final(arr).selected == old(arr).selected,
{
    reveal_with_fuel(crate::sampling::walk, 2);
}

/// Two penalty samplers that differ in a number make calls that differ in it.
pub proof fn lemma_different_penalties_make_different_calls(
    last_n: i32,
    a: (F32, F32, F32),
    b: (F32, F32, F32),
    made: (LlamaSampler, LlamaSampler),
    first: &mut LlamaSampler,
    second: &mut LlamaSampler,
    x: &mut LlamaTokenDataArray,
    y: &mut LlamaTokenDataArray,
    step: ChainStep,
    other: ChainStep,
)
    requires
        call_ensures(LlamaSampler::penalties, (last_n, a.0, a.1, a.2), made.0),
        call_ensures(LlamaSampler::penalties, (last_n, b.0, b.1, b.2), made.1),
        old(first).stages@ == made.0.stages@,
        old(second).stages@ == made.1.stages@,
        old(x).data@.len() > 0,
        old(y).data@.len() > 0,
        call_ensures(LlamaSampler::apply, (first, x), step),
        call_ensures(LlamaSampler::apply, (second, y), other),
    ensures
        step->call->repeat == other->call->repeat <==> a.0 == b.0,
        step->call->freq == other->call->freq <==> a.1 == b.1,
        step->call->presence == other->call->presence <==> a.2 == b.2,
{
    reveal_with_fuel(crate::sampling::walk, 2);
}

/// A grammar sampler asks for the grammar that it was made of, and there is none
/// without one.
pub proof fn lemma_grammar_reaches_the_engine(
    parsed: Option<u64>,
    made: Result<LlamaSampler, GrammarInitError>,
    sampler: &mut LlamaSampler,
    arr: &mut LlamaTokenDataArray,
    step: ChainStep,
)
    requires
        call_ensures(LlamaSampler::parsed_grammar, (parsed,), made),
        made matches Ok(made) ==> old(sampler).stages@ == made.stages@,
        old(arr).data@.len() > 0,
        call_ensures(LlamaSampler::apply, (sampler, arr), step),
    ensures
        made is Ok <==> parsed is Some,
        made is Err ==> made->Err_0 is Parse,
        made is Ok ==> {
            &&& step is Call
            &&& step->run.next == 1
            &&& step->run.pending is None
            &&& step->call is Grammar
            &&& step->call->Grammar_grammar == parsed->0
        },
{
    reveal_with_fuel(crate::sampling::walk, 2);
}

/// A greedy sampler is done at once. It selects the first of the candidates with the
/// greatest logit; logits that are no numbers, or minus infinity, count for nothing,
/// and where there are no others the first candidate is taken.
pub proof fn lemma_greedy_selects_the_first_greatest(
    made: LlamaSampler,
    sampler: &mut LlamaSampler,
    arr: &mut LlamaTokenDataArray,
    step: ChainStep,
)
    requires
        call_ensures(LlamaSampler::greedy, (), made),
        old(sampler).stages@ == made.stages@,
        old(arr).data@.len() > 0,
        call_ensures(LlamaSampler::apply, (sampler, arr), step),
    ensures
        step is Done,
        final(arr).data == old(arr).data,
        final(arr).selected is Some,
        ({
            let data = old(arr).data@;
            let best = final(arr).selected->0 as int;
            &&& 0 <= best < data.len()
            &&& forall|i: int|
                0 <= i < data.len() ==> !(#[trigger] data[i]).logit.above(data[best].logit)
            &&& forall|i: int|
                0 <= i < best && !data[i].logit.nan() && data[i].logit.bits != 0xff80_0000
                    ==> data[best].logit.above((#[trigger] data[i]).logit)
            &&& best > 0 ==> !data[best].logit.nan() && data[best].logit.bits != 0xff80_0000
            &&& data[best].logit.nan() || data[best].logit.bits == 0xff80_0000 ==> best == 0
                && forall|i: int|
                0 <= i < data.len() ==> (#[trigger] data[i]).logit.nan() || data[i].logit.bits
                    == 0xff80_0000
        }),
{
    reveal_with_fuel(crate::sampling::walk, 2);
    let data = old(arr).data@;
    crate::sampling::lemma_greedy_choice_is_greatest(data);
    let best = crate::sampling::greedy_choice(data);
    assert(old(arr).data.len() == data.len());
    assert(final(arr).selected == Some(best as usize));
    assert forall|i: int| 0 <= i < data.len() implies (crate::sampling::is_live(#[trigger] data[i])
        <==> !data[i].logit.nan() && data[i].logit.bits != 0xff80_0000) by {
        data[i].logit.lemma_minus_infinity_is_one_pattern();
    }
}

/// A distribution sampler draws a number from the generator's state and asks for
/// probabilities; its generator is one step further after that.
pub proof fn lemma_dist_draws_before_it_asks(
    rng: Rng,
    sampler: &mut LlamaSampler,
    arr: &mut LlamaTokenDataArray,
    step: ChainStep,
)
    requires
        old(sampler).stages@ == seq![Stage::Dist(rng)],
        old(arr).data@.len() > 0,
        call_ensures(LlamaSampler::apply, (sampler, arr), step),
    ensures
        step is Call,
        step->call is Softmax,
        step->run.next == 1,
        step->run.pending is Some,
        !step->run.pending->0.nan(),
        !step->run.pending->0.negative(),
        step->run.pending->0.units() == (rng.output() as nat / 0x100_0000_0000) * pow2(125),
        final(sampler).stages@.len() == 1,
        final(sampler).stages@[0] is Dist,
        final(sampler).stages@[0]->Dist_0.state == rng.stepped().state,
        final(arr).data == old(arr).data,
        final(arr).selected == old(arr).selected,
{
    reveal_with_fuel(crate::sampling::walk, 2);
    crate::sampling::rng::lemma_top_bits(rng.output());
}

/// What a call for the last stage leaves: the engine's candidates and its sorted flag;
/// and as the selection, where a number was drawn, the first candidate whose running
/// sum is above it, or the last candidate where none is; otherwise the engine's own
/// selection, where it points at a candidate.
pub proof fn lemma_last_answer_decides(
    sampler: &mut LlamaSampler,
    arr: &mut LlamaTokenDataArray,
    run: ChainRun,
    outcome: EngineOutcome,
    step: ChainStep,
)
    requires
        run.next >= old(sampler).stages@.len(),
        run.pending is Some ==> outcome.cumulative@.len() == outcome.data@.len(),
        call_ensures(LlamaSampler::resume, (sampler, arr, run, outcome), step),
    ensures
        step is Done,
        final(sampler).stages@ == old(sampler).stages@,
        final(sampler).history == old(sampler).history,
        final(arr).data == outcome.data,
        final(arr).sorted == outcome.sorted,
        run.pending is None ==> final(arr).selected == if 0 <= outcome.selected
            < outcome.data@.len() {
            Some(outcome.selected as usize)
        } else {
            None
        },
        run.pending is Some && outcome.data@.len() == 0 ==> final(arr).selected is None,
        run.pending is Some && outcome.data@.len() > 0 ==> {
            let sums = outcome.cumulative@;
            let chosen = final(arr).selected->0 as int;
            &&& final(arr).selected is Some
            &&& 0 <= chosen < sums.len()
            &&& forall|i: int| 0 <= i < chosen ==> !(#[trigger] sums[i]).above(run.pending->0)
            &&& sums[chosen].above(run.pending->0) || chosen == sums.len() - 1
        },
{
    if run.pending is Some && outcome.data@.len() > 0 {
        crate::sampling::laws::lemma_a_draw_falls_on_a_candidate(
            outcome.cumulative@,
            run.pending->0,
        );
        assert(outcome.cumulative.len() == outcome.cumulative@.len());
    }
}

/// Where a run over a chain stops. It stops for the first stage that is not greedy,
/// and asks for it just what a sampler of that one stage asks that has accepted the
/// same tokens. It goes through where every stage is greedy. A greedy stage on the
/// way selects the greedy choice, and nothing else changes.
pub proof fn lemma_chain_stops_at_its_first_engine_stage(
    sampler: &mut LlamaSampler,
    arr: &mut LlamaTokenDataArray,
    step: ChainStep,
    lone: &mut LlamaSampler,
    lone_arr: &mut LlamaTokenDataArray,
    lone_step: ChainStep,
)
    requires
        old(arr).data@.len() > 0,
        call_ensures(LlamaSampler::apply, (sampler, arr), step),
        old(lone_arr).data@.len() > 0,
        old(lone).history@ == old(sampler).history@,
        step is Call && 0 < step->run.next <= old(sampler).stages@.len() ==> old(lone).stages@
            == seq![old(sampler).stages@[step->run.next - 1]],
        call_ensures(LlamaSampler::apply, (lone, lone_arr), lone_step),
    ensures
        final(sampler).history == old(sampler).history,
        final(arr).data == old(arr).data,
        final(arr).sorted == old(arr).sorted,
        final(sampler).stages@.len() == old(sampler).stages@.len(),
        step is Done ==> {
            &&& final(sampler).stages@ == old(sampler).stages@
            &&& forall|k: int|
                0 <= k < old(sampler).stages@.len() ==> (#[trigger] old(sampler).stages@[k]) is Greedy
            &&& old(sampler).stages@.len() == 0 ==> final(arr).selected == old(arr).selected
        },
        step is Call ==> {
            let at = step->run.next - 1;
            &&& 0 <= at < old(sampler).stages@.len()
            &&& !(old(sampler).stages@[at] is Greedy)
            &&& forall|k: int| 0 <= k < at ==> (#[trigger] old(sampler).stages@[k]) is Greedy
            &&& forall|k: int|
                0 <= k < old(sampler).stages@.len() && k != at ==> #[trigger] final(sampler).stages@[k]
                    == old(sampler).stages@[k]
            &&& final(sampler).stages@[at] == final(lone).stages@[0]
            &&& at == 0 ==> final(arr).selected == old(arr).selected
            &&& lone_step is Call
            &&& step->run.pending == lone_step->run.pending
            &&& step->call is RepetitionPenalties <==> lone_step->call is RepetitionPenalties
            &&& !(step->call is RepetitionPenalties) ==> step->call == lone_step->call
            &&& step->call is RepetitionPenalties ==> {
                &&& step->call->last_tokens@ == lone_step->call->last_tokens@
                &&& step->call->repeat == lone_step->call->repeat
                &&& step->call->freq == lone_step->call->freq
                &&& step->call->presence == lone_step->call->presence
            }
        },
        step is Done || step->run.next > 1 ==> old(sampler).stages@.len() > 0
            ==> final(arr).selected == Some(
            crate::sampling::greedy_choice(old(arr).data@) as usize,
        ),
{
    let p = crate::sampling::standing(old(sampler).stages@, *old(arr), 0);
    lemma_walk_stops_behind_greedy_stages(p);
    if step is Done {
        assert(final(sampler).stages@ =~= old(sampler).stages@);
    } else {
        let q = crate::sampling::standing(old(lone).stages@, *old(lone_arr), 0);
        lemma_walk_stops_behind_greedy_stages(q);
        let w = crate::sampling::walk(p);
        let v = crate::sampling::walk(q);
        assert(q.stages[0] == p.stages[w.at]);
        assert(v.at == 0);
        if let Stage::Dist(rng) = p.stages[w.at] {
            crate::sampling::rng::lemma_same_state_same_draw(
                rng,
                step->run.pending->0,
                lone_step->run.pending->0,
            );
        }
    }
}

/// Nothing happens to an empty set of candidates.
pub proof fn lemma_empty_set_is_left_alone(
    sampler: &mut LlamaSampler,
    arr: &mut LlamaTokenDataArray,
    step: ChainStep,
)
    requires
        old(arr).data@.len() == 0,
        call_ensures(LlamaSampler::apply, (sampler, arr), step),
    ensures
        step is Done,
        *final(arr) == *old(arr),
        *final(sampler) == *old(sampler),
{
}

/// How the stages of a joined chain come about, sampler by sampler: each adds its own
/// stages behind the ones before it. A chain has accepted nothing.
pub proof fn lemma_each_sampler_adds_its_stages(
    samplers: Vec<LlamaSampler>,
    chain: LlamaSampler,
    more: Vec<LlamaSampler>,
    longer: LlamaSampler,
    last: LlamaSampler,
)
    requires
        call_ensures(LlamaSampler::chain_simple, (samplers,), chain),
        call_ensures(LlamaSampler::chain_simple, (more,), longer),
        more@ == samplers@.push(last),
    ensures
        samplers@.len() == 0 ==> chain.stages@.len() == 0,
        longer.stages@ == chain.stages@ + last.stages@,
        chain.history@.len() == 0,
{
    assert(more@.drop_last() =~= samplers@);
}

/// What is accepted is remembered behind what was accepted before, and every grammar
/// of the chain is to be advanced, once for each of its stages and in their order,
/// and nothing else is.
pub proof fn lemma_accepting_advances_every_grammar(
    sampler: &mut LlamaSampler,
    token: LlamaToken,
    advance: Vec<u64>,
)
    requires
        call_ensures(LlamaSampler::accept, (sampler, token), advance),
    ensures
        final(sampler).history@ == old(sampler).history@.push(token),
        final(sampler).stages@ == old(sampler).stages@,
        forall|i: int|
            0 <= i < old(sampler).stages@.len() && (#[trigger] old(sampler).stages@[i]) is Grammar
                ==> advance@.contains(old(sampler).stages@[i]->grammar),
        forall|k: int|
            0 <= k < advance@.len() ==> old(sampler).stages@.contains(
                (Stage::Grammar { grammar: #[trigger] advance@[k] }),
            ),
        advance@ == old(sampler).stages@.filter(|s: Stage| s is Grammar).map_values(
            |s: Stage| s->grammar,
        ),
{
    lemma_grammars_are_filtered(old(sampler).stages@);
}

proof fn lemma_grammars_are_filtered(stages: Seq<Stage>)
    ensures
        crate::sampling::grammars(stages) == stages.filter(|s: Stage| s is Grammar).map_values(
            |s: Stage| s->grammar,
        ),
        forall|i: int|
            0 <= i < stages.len() && (#[trigger] stages[i]) is Grammar
                ==> crate::sampling::grammars(stages).contains(stages[i]->grammar),
        forall|k: int|
            0 <= k < crate::sampling::grammars(stages).len() ==> stages.contains(
                (Stage::Grammar { grammar: #[trigger] crate::sampling::grammars(stages)[k] }),
            ),
    decreases stages.len(),
{
    reveal(Seq::filter);
    let is_grammar = |s: Stage| s is Grammar;
    let id = |s: Stage| s->grammar;
    let all = crate::sampling::grammars(stages);
    if stages.len() > 0 {
        let front = stages.drop_last();
        let before = crate::sampling::grammars(front);
        lemma_grammars_are_filtered(front);
        assert(forall|k: int| 0 <= k < before.len() ==> all[k] == before[k]);
        assert forall|i: int| 0 <= i < stages.len() && (#[trigger] stages[i]) is Grammar implies
            all.contains(stages[i]->grammar) by {
            if i < front.len() {
                assert(front[i] == stages[i]);
                let k = choose|k: int| 0 <= k < before.len() && before[k] == stages[i]->grammar;
                assert(all[k] == stages[i]->grammar);
            } else {
                assert(all.last() == stages[i]->grammar);
            }
        }
        assert forall|k: int| 0 <= k < all.len() implies stages.contains(
            (Stage::Grammar { grammar: #[trigger] all[k] }),
        ) by {
            let stage = Stage::Grammar { grammar: all[k] };
            if k < before.len() {
                assert(front.contains((Stage::Grammar { grammar: before[k] })));
                let i = choose|i: int| 0 <= i < front.len() && front[i] == stage;
                assert(stages[i] == stage);
            } else {
                assert(stages[stages.len() - 1] == stage);
            }
        }
        assert(all =~= stages.filter(is_grammar).map_values(id));
    } else {
        assert(all =~= stages.filter(is_grammar).map_values(id));
    }
}

/// Accepted tokens are forgotten, and the stages are kept.
pub proof fn lemma_reset_forgets_the_history(sampler: &mut LlamaSampler)
    requires
        call_ensures(LlamaSampler::reset, (sampler,), ()),
    ensures
        final(sampler).history@.len() == 0,
        final(sampler).stages@ == old(sampler).stages@,
{
}

/// Sampling from a row of logits starts from one candidate for each logit, whose id is
/// its place in the row; and it goes on as the sampler does over these candidates.
pub proof fn lemma_sampling_starts_from_the_row(
    sampler: &mut LlamaSampler,
    ctx: LlamaContext,
    idx: i32,
    row: Option<&[F32]>,
    started: (LlamaTokenDataArray, ChainStep),
)
    requires
        call_ensures(LlamaSampler::sample, (sampler, &ctx, idx, row), started),
    ensures
        row is None ==> started.0.data@.len() == 0,
        row matches Some(row) ==> {
            &&& started.0.data@.len() == row@.len()
            &&& forall|i: int|
                0 <= i < row@.len() ==> {
                    &&& i <= i32::MAX ==> (#[trigger] started.0.data@[i]).id.0 == i
                    &&& started.0.data@[i].logit == row@[i]
                    &&& started.0.data@[i].p.bits == 0
                }
        },
        !started.0.sorted,
        started.0.data@.len() == 0 ==> started.1 is Done && *final(sampler) == *old(sampler),
        final(sampler).history == old(sampler).history,
        started.1 is Call && started.1->run.next == 1 ==> started.0.selected is None,
{
    if started.0.data@.len() > 0 {
        lemma_walk_stops_behind_greedy_stages(
            Progress {
                stages: old(sampler).stages@,
                data: crate::sampling::row_candidates(row),
                selected: None,
                sorted: false,
                at: 0,
            },
        );
    }
}

/// The token that a finished run comes to: the selected one; without a selection one
/// with the greatest logit, the last of several, where all logits are numbers; and
/// token 0 without candidates.
pub proof fn lemma_run_comes_to_the_selected_token(arr: LlamaTokenDataArray, token: LlamaToken)
    requires
        call_ensures(LlamaSampler::sampled, (&arr,), token),
    ensures
        arr.selected matches Some(s) ==> s < arr.data@.len() ==> token == arr.data@[s as int].id,
        arr.data@.len() == 0 ==> token.0 == 0,
        arr.data@.len() > 0 && (arr.selected is None || arr.selected->0 >= arr.data@.len()) && (
        forall|i: int| 0 <= i < arr.data@.len() ==> !(#[trigger] arr.data@[i]).logit.nan())
            ==> exists|best: int|
            {
                &&& 0 <= best < arr.data@.len()
                &&& token == (#[trigger] arr.data@[best]).id
                &&& forall|i: int|
                    0 <= i < arr.data@.len() ==> !(#[trigger] arr.data@[i]).logit.above(
                        arr.data@[best].logit,
                    )
                &&& forall|i: int|
                    best < i < arr.data@.len() ==> arr.data@[best].logit.above(
                        (#[trigger] arr.data@[i]).logit,
                    )
            },
{
    let data = arr.data@;
    if data.len() > 0 && (forall|i: int| 0 <= i < data.len() ==> !(#[trigger] data[i]).logit.nan()) {
        crate::sampling::laws::lemma_fallback_is_last_greatest(data);
        assert(data[crate::sampling::last_greatest(data)].id == data[crate::sampling::last_greatest(
            data,
        )].id);
    }
}

/// Without a selection a further candidate is taken unless the one before it is above
/// it; so a logit that is no number is passed on from, and taken where it comes last.
pub proof fn lemma_further_candidate_is_taken_unless_below(
    data: Seq<LlamaTokenData>,
    next: LlamaTokenData,
)
    requires
        data.len() > 0,
    ensures
        crate::sampling::last_greatest(seq![next]) == 0,
        crate::sampling::last_greatest(data.push(next)) == if data[crate::sampling::last_greatest(
            data,
        )].logit.above(next.logit) {
            crate::sampling::last_greatest(data)
        } else {
            data.len() as int
        },
{
    lemma_last_greatest_is_in_range(data);
    assert(data.push(next).drop_last() =~= data);
}

proof fn lemma_last_greatest_is_in_range(data: Seq<LlamaTokenData>)
    requires
        data.len() > 0,
    ensures
        0 <= crate::sampling::last_greatest(data) < data.len(),
    decreases data.len(),
{
    if data.len() > 1 {
        lemma_last_greatest_is_in_range(data.drop_last());
    }
}

/// A run that goes on after an answer with candidates takes these over, and stops for
/// the first of the stages left that is not greedy, asking for it just what a sampler of
/// that one stage asks that has accepted the same tokens. It goes through where all
/// that are left are greedy. The stages before are not touched again.
pub proof fn lemma_resumed_chain_stops_at_its_next_engine_stage(
    sampler: &mut LlamaSampler,
    arr: &mut LlamaTokenDataArray,
    run: ChainRun,
    outcome: EngineOutcome,
    step: ChainStep,
    lone: &mut LlamaSampler,
    lone_arr: &mut LlamaTokenDataArray,
    lone_step: ChainStep,
)
    requires
        outcome.data@.len() > 0,
        run.next <= old(sampler).stages@.len(),
        run.pending is Some ==> outcome.cumulative@.len() == outcome.data@.len(),
        call_ensures(LlamaSampler::resume, (sampler, arr, run, outcome), step),
        old(lone_arr).data@.len() > 0,
        old(lone).history@ == old(sampler).history@,
        step is Call && 0 < step->run.next <= old(sampler).stages@.len() ==> old(lone).stages@
            == seq![old(sampler).stages@[step->run.next - 1]],
        call_ensures(LlamaSampler::apply, (lone, lone_arr), lone_step),
    ensures
        final(sampler).history == old(sampler).history,
        final(arr).data == outcome.data,
        final(arr).sorted == outcome.sorted,
        final(sampler).stages@.len() == old(sampler).stages@.len(),
        step is Done ==> {
            &&& final(sampler).stages@ == old(sampler).stages@
            &&& forall|k: int|
                run.next <= k < old(sampler).stages@.len() ==> (
                #[trigger] old(sampler).stages@[k]) is Greedy
        },
        step is Call ==> {
            let at = step->run.next - 1;
            &&& run.next <= at < old(sampler).stages@.len()
            &&& !(old(sampler).stages@[at] is Greedy)
            &&& forall|k: int|
                run.next <= k < at ==> (#[trigger] old(sampler).stages@[k]) is Greedy
            &&& forall|k: int|
                0 <= k < old(sampler).stages@.len() && k != at ==> #[trigger] final(sampler).stages@[k]
                    == old(sampler).stages@[k]
            &&& final(sampler).stages@[at] == final(lone).stages@[0]
            &&& lone_step is Call
            &&& step->run.pending == lone_step->run.pending
            &&& step->call is RepetitionPenalties <==> lone_step->call is RepetitionPenalties
            &&& !(step->call is RepetitionPenalties) ==> step->call == lone_step->call
            &&& step->call is RepetitionPenalties ==> {
                &&& step->call->last_tokens@ == lone_step->call->last_tokens@
                &&& step->call->repeat == lone_step->call->repeat
                &&& step->call->freq == lone_step->call->freq
                &&& step->call->presence == lone_step->call->presence
            }
        },
        run.next < old(sampler).stages@.len() && old(sampler).stages@[run.next as int] is Greedy
            ==> final(arr).selected == Some(
            crate::sampling::greedy_choice(outcome.data@) as usize,
        ),
{
    let p = Progress {
        stages: old(sampler).stages@,
        data: outcome.data@,
        selected: crate::sampling::selected_after(outcome, run.pending),
        sorted: outcome.sorted,
        at: run.next as int,
    };
    lemma_walk_stops_behind_greedy_stages(p);
    if step is Done {
        assert(final(sampler).stages@ =~= old(sampler).stages@);
    } else {
        let q = crate::sampling::standing(old(lone).stages@, *old(lone_arr), 0);
        lemma_walk_stops_behind_greedy_stages(q);
        let w = crate::sampling::walk(p);
        let v = crate::sampling::walk(q);
        assert(q.stages[0] == p.stages[w.at]);
        assert(v.at == 0);
        if let Stage::Dist(rng) = p.stages[w.at] {
            crate::sampling::rng::lemma_same_state_same_draw(
                rng,
                step->run.pending->0,
                lone_step->run.pending->0,
            );
        }
    }
}

/// Where the engine leaves no candidates, the run goes through without another call and
/// nothing is selected. Each distribution stage that is left still makes its draw, and
/// no other stage changes.
pub proof fn lemma_emptied_run_selects_nothing(
    sampler: &mut LlamaSampler,
    arr: &mut LlamaTokenDataArray,
    run: ChainRun,
    outcome: EngineOutcome,
    step: ChainStep,
)
    requires
        outcome.data@.len() == 0,
        run.next <= old(sampler).stages@.len(),
        run.pending is Some ==> outcome.cumulative@.len() == outcome.data@.len(),
        call_ensures(LlamaSampler::resume, (sampler, arr, run, outcome), step),
    ensures
        step is Done,
        final(arr).data@.len() == 0,
        final(arr).selected is None,
        final(arr).sorted == outcome.sorted,
        final(sampler).history == old(sampler).history,
        final(sampler).stages@.len() == old(sampler).stages@.len(),
        forall|k: int|
            0 <= k < old(sampler).stages@.len() && (k < run.next || !(
            old(sampler).stages@[k] is Dist)) ==> #[trigger] final(sampler).stages@[k]
                == old(sampler).stages@[k],
        forall|k: int|
            run.next <= k < old(sampler).stages@.len() && old(sampler).stages@[k] is Dist ==> {
                &&& (#[trigger] final(sampler).stages@[k]) is Dist
                &&& final(sampler).stages@[k]->Dist_0
                    == old(sampler).stages@[k]->Dist_0.stepped()
            },
{
    lemma_walk_over_no_candidates(
        Progress {
            stages: old(sampler).stages@,
            data: outcome.data@,
            selected: crate::sampling::selected_after(outcome, run.pending),
            sorted: outcome.sorted,
            at: run.next as int,
        },
    );
}

proof fn lemma_walk_over_no_candidates(p: Progress)
    requires
        0 <= p.at <= p.stages.len(),
        p.data.len() == 0,
        p.selected is None,
    ensures
        ({
            let w = crate::sampling::walk(p);
            &&& w.at == p.stages.len()
            &&& w.stages.len() == p.stages.len()
            &&& w.data == p.data
            &&& w.sorted == p.sorted
            &&& w.selected is None
            &&& forall|k: int|
                0 <= k < p.stages.len() ==> #[trigger] w.stages[k] == match p.stages[k] {
                    Stage::Dist(rng) => if k < p.at {
                        p.stages[k]
                    } else {
                        Stage::Dist(rng.stepped())
                    },
                    stage => stage,
                }
        }),
    decreases p.stages.len() - p.at,
{
    if p.at < p.stages.len() {
        match p.stages[p.at] {
            Stage::Greedy => lemma_walk_over_no_candidates(
                Progress { selected: None, at: p.at + 1, ..p },
            ),
            Stage::Dist(rng) => lemma_walk_over_no_candidates(
                Progress {
                    stages: p.stages.update(p.at, Stage::Dist(rng.stepped())),
                    selected: None,
                    at: p.at + 1,
                    ..p
                },
            ),
            _ => lemma_walk_over_no_candidates(Progress { at: p.at + 1, ..p }),
        }
    }
}

/// A grammar that waits goes to the engine with all that it waits for: each word as its
/// bytes and each token by its id, in order. It is refused just where the grammar, its
/// root or a word holds a NUL.
pub proof fn lemma_lazy_grammar_goes_with_its_triggers(
    grammar: &str,
    root: &str,
    words: Vec<Vec<u8>>,
    tokens: &[LlamaToken],
    r: Result<(GrammarSource, GrammarTriggers), GrammarInitError>,
)
    requires
        call_ensures(LlamaSampler::grammar_lazy, (grammar, root, words, tokens), r),
    ensures
        r is Err ==> r->Err_0 is Nul,
        r is Ok ==> !grammar@.contains('\0') && !root@.contains('\0'),
        r is Err ==> grammar@.contains('\0') || root@.contains('\0') || exists|k: int|
            0 <= k < words@.len() && (#[trigger] words@[k])@.contains(0),
        r is Ok ==> {
            let source = r->Ok_0.0;
            let triggers = r->Ok_0.1;
            &&& source.grammar@ == vstd::utf8::encode_utf8(grammar@)
            &&& source.root@ == vstd::utf8::encode_utf8(root@)
            &&& triggers.words@.len() == words@.len()
            &&& forall|i: int|
                0 <= i < words@.len() ==> (#[trigger] triggers.words@[i])@ == words@[i]@
            &&& triggers.tokens@.len() == tokens@.len()
            &&& forall|i: int|
                0 <= i < tokens@.len() ==> #[trigger] triggers.tokens@[i] == tokens@[i].0
        },
{
    let all = crate::grammar::contents(words@);
    assert(forall|i: int| 0 <= i < words@.len() ==> #[trigger] all[i] == words@[i]@);
    crate::cstr::lemma_nul_byte_iff_nul_char(grammar@);
    crate::cstr::lemma_nul_byte_iff_nul_char(root@);
    match r {
        Ok((source, triggers)) => {
            assert forall|i: int| 0 <= i < words@.len() implies (#[trigger] triggers.words@[i])@
                == words@[i]@ by {
                assert(crate::cstr::nul_free(all[i]));
            }
        },
        Err(GrammarInitError::Nul(e)) => {
            let g = vstd::utf8::encode_utf8(grammar@);
            let t = vstd::utf8::encode_utf8(root@);
            if e.found_in(g) {
                crate::cstr::lemma_error_points_at_the_first_nul(e, g);
            } else if e.found_in(t) {
                crate::cstr::lemma_error_points_at_the_first_nul(e, t);
            } else {
                let k = choose|k: int|
                    {
                        &&& 0 <= k < all.len()
                        &&& e.found_in(#[trigger] all[k])
                        &&& forall|i: int| 0 <= i < k ==> crate::cstr::nul_free(#[trigger] all[i])
                    };
                crate::cstr::lemma_error_points_at_the_first_nul(e, all[k]);
                assert(words@[k]@[e.position as int] == 0);
            }
        },
        Err(GrammarInitError::Parse) => {},
    }
}

/// A distribution sampler starts from its own seed: its generator is the one that the
/// seed makes, and three samplers with different seeds do not all start alike.
pub proof fn lemma_dist_starts_from_its_seed(
    s: u32,
    t: u32,
    u: u32,
    a: LlamaSampler,
    b: LlamaSampler,
    c: LlamaSampler,
    first: Rng,
    second: Rng,
    third: Rng,
)
    requires
        s != t,
        t != u,
        s != u,
        call_ensures(LlamaSampler::dist, (s,), a),
        call_ensures(LlamaSampler::dist, (t,), b),
        call_ensures(LlamaSampler::dist, (u,), c),
        call_ensures(Rng::new, (s,), first),
        call_ensures(Rng::new, (t,), second),
        call_ensures(Rng::new, (u,), third),
    ensures
        a.history@.len() == 0,
        a.stages@.len() == 1,
        a.stages@[0] is Dist,
        a.stages@[0]->Dist_0.state == first.state,
        b.stages@[0]->Dist_0.state == second.state,
        c.stages@[0]->Dist_0.state == third.state,
        !(a.stages@[0]->Dist_0.state == b.stages@[0]->Dist_0.state
            && b.stages@[0]->Dist_0.state == c.stages@[0]->Dist_0.state),
{
    crate::sampling::rng::lemma_at_most_two_seeds_share_a_start(s, t, u, first, second, third);
}

} // verus!
