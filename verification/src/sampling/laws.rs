//! What holds of every chain.

use vstd::prelude::*;

use crate::float::F32;
use crate::sampling::{LlamaSampler, Progress, Stage};
use crate::token::data::LlamaTokenData;
use crate::token::LlamaToken;

verus! {

/// No stage hands an empty set of candidates to the engine: where a run stops
/// for a call, there are candidates.
pub proof fn lemma_engine_never_sees_an_empty_set(p: Progress)
    requires
        0 <= p.at,
    ensures
        crate::sampling::walk(p).at < crate::sampling::walk(p).stages.len() ==> p.data.len() > 0,
    decreases p.stages.len() - p.at,
{
    if p.at < p.stages.len() && p.data.len() == 0 {
        match p.stages[p.at] {
            Stage::Greedy => lemma_engine_never_sees_an_empty_set(
                Progress { selected: None, at: p.at + 1, ..p },
            ),
            Stage::Dist(rng) => lemma_engine_never_sees_an_empty_set(
                Progress {
                    stages: p.stages.update(p.at, Stage::Dist(rng.stepped())),
                    selected: None,
                    at: p.at + 1,
                    ..p
                },
            ),
            _ => lemma_engine_never_sees_an_empty_set(Progress { at: p.at + 1, ..p }),
        }
    }
}

/// A walk changes neither the candidates nor the number of stages, and goes
/// forward.
pub proof fn lemma_walk_keeps_candidates(p: Progress)
    requires
        0 <= p.at <= p.stages.len(),
    ensures
        crate::sampling::walk(p).data == p.data,
        crate::sampling::walk(p).stages.len() == p.stages.len(),
        p.at <= crate::sampling::walk(p).at <= p.stages.len(),
    decreases p.stages.len() - p.at,
{
    if p.at < p.stages.len() {
        match p.stages[p.at] {
            Stage::Greedy => lemma_walk_keeps_candidates(
                Progress {
                    selected: if p.data.len() == 0 {
                        None
                    } else {
                        Some(crate::sampling::greedy_choice(p.data) as usize)
                    },
                    at: p.at + 1,
                    ..p
                },
            ),
            Stage::Dist(rng) => if p.data.len() == 0 {
                lemma_walk_keeps_candidates(
                    Progress {
                        stages: p.stages.update(p.at, Stage::Dist(rng.stepped())),
                        selected: None,
                        at: p.at + 1,
                        ..p
                    },
                );
            },
            _ => if p.data.len() == 0 {
                lemma_walk_keeps_candidates(Progress { at: p.at + 1, ..p });
            },
        }
    }
}

/// Stages behind the ones that are walked over do not matter for them, from
/// whatever stage the walk starts.
pub proof fn lemma_walk_of_front(p: Progress, back: Seq<Stage>)
    requires
        0 <= p.at <= p.stages.len(),
    ensures
        ({
            let front = crate::sampling::walk(p);
            let whole = crate::sampling::walk(Progress { stages: p.stages + back, ..p });
            if front.at < p.stages.len() {
                whole == (Progress { stages: front.stages + back, ..front })
            } else {
                whole == crate::sampling::walk(Progress { stages: front.stages + back, ..front })
            }
        }),
    decreases p.stages.len() - p.at,
{
    if p.at < p.stages.len() {
        assert((p.stages + back)[p.at] == p.stages[p.at]);
        match p.stages[p.at] {
            Stage::Greedy => lemma_walk_of_front(
                Progress {
                    selected: if p.data.len() == 0 {
                        None
                    } else {
                        Some(crate::sampling::greedy_choice(p.data) as usize)
                    },
                    at: p.at + 1,
                    ..p
                },
                back,
            ),
            Stage::Dist(rng) => {
                let stages = p.stages.update(p.at, Stage::Dist(rng.stepped()));
                assert((p.stages + back).update(p.at, Stage::Dist(rng.stepped())) =~= stages
                    + back);
                if p.data.len() == 0 {
                    lemma_walk_of_front(
                        Progress { stages, selected: None, at: p.at + 1, ..p },
                        back,
                    );
                }
            },
            _ => if p.data.len() == 0 {
                lemma_walk_of_front(Progress { at: p.at + 1, ..p }, back);
            },
        }
    }
}

/// Stages before the ones that are walked over do not matter for them, from
/// whatever stage the walk starts.
pub proof fn lemma_walk_of_back(front: Seq<Stage>, p: Progress)
    requires
        0 <= p.at <= p.stages.len(),
    ensures
        ({
            let back = crate::sampling::walk(p);
            crate::sampling::walk(
                Progress { stages: front + p.stages, at: front.len() + p.at, ..p },
            ) == (Progress { stages: front + back.stages, at: front.len() + back.at, ..back })
        }),
    decreases p.stages.len() - p.at,
{
    if p.at < p.stages.len() {
        let at = front.len() + p.at;
        assert((front + p.stages)[at] == p.stages[p.at]);
        match p.stages[p.at] {
            Stage::Greedy => lemma_walk_of_back(
                front,
                Progress {
                    selected: if p.data.len() == 0 {
                        None
                    } else {
                        Some(crate::sampling::greedy_choice(p.data) as usize)
                    },
                    at: p.at + 1,
                    ..p
                },
            ),
            Stage::Dist(rng) => {
                let stages = p.stages.update(p.at, Stage::Dist(rng.stepped()));
                assert((front + p.stages).update(at, Stage::Dist(rng.stepped())) =~= front
                    + stages);
                if p.data.len() == 0 {
                    lemma_walk_of_back(
                        front,
                        Progress { stages, selected: None, at: p.at + 1, ..p },
                    );
                }
            },
            _ => if p.data.len() == 0 {
                lemma_walk_of_back(front, Progress { at: p.at + 1, ..p });
            },
        }
    }
}

/// A greedy stage at the end of a chain has the last word: a run that comes
/// through with candidates has selected the greedy choice among them.
pub proof fn lemma_final_greedy_stage_decides(p: Progress)
    requires
        0 <= p.at < p.stages.len(),
        p.stages.last() is Greedy,
        p.data.len() > 0,
    ensures
        ({
            let w = crate::sampling::walk(p);
            w.at >= w.stages.len() ==> w.selected == Some(
                crate::sampling::greedy_choice(p.data) as usize,
            )
        }),
    decreases p.stages.len() - p.at,
{
    reveal_with_fuel(crate::sampling::walk, 2);
    if p.stages[p.at] is Greedy && p.at + 1 < p.stages.len() {
        lemma_final_greedy_stage_decides(
            Progress {
                selected: Some(crate::sampling::greedy_choice(p.data) as usize),
                at: p.at + 1,
                ..p
            },
        );
    }
}

/// Joining chains is joining their stages: how samplers are grouped into chains
/// does not matter.
pub proof fn lemma_chains_can_be_regrouped(a: Seq<LlamaSampler>, b: Seq<LlamaSampler>)
    ensures
        crate::sampling::joined_stages(a + b) == crate::sampling::joined_stages(a)
            + crate::sampling::joined_stages(b),
    decreases b.len(),
{
    if b.len() == 0 {
        assert(a + b =~= a);
        assert(crate::sampling::joined_stages(a) + Seq::<Stage>::empty()
            =~= crate::sampling::joined_stages(a));
    } else {
        lemma_chains_can_be_regrouped(a, b.drop_last());
        assert((a + b).drop_last() =~= a + b.drop_last());
        assert((a + b).last() == b.last());
        assert((crate::sampling::joined_stages(a) + crate::sampling::joined_stages(b.drop_last()))
            + b.last().stages@ =~= crate::sampling::joined_stages(a) + (
        crate::sampling::joined_stages(b.drop_last()) + b.last().stages@));
    }
}

/// A chain of one sampler has that sampler's stages.
pub proof fn lemma_chain_of_one(sampler: LlamaSampler)
    ensures
        crate::sampling::joined_stages(seq![sampler]) == sampler.stages@,
{
    reveal_with_fuel(crate::sampling::joined_stages, 2);
    assert(seq![sampler].drop_last() =~= Seq::empty());
    assert(Seq::<Stage>::empty() + sampler.stages@ =~= sampler.stages@);
}

/// A chain of two samplers has the stages of the first and then those of the second.
pub proof fn lemma_chain_of_two(a: LlamaSampler, b: LlamaSampler)
    ensures
        crate::sampling::joined_stages(seq![a, b]) == a.stages@ + b.stages@,
{
    assert(seq![a, b] =~= seq![a] + seq![b]);
    lemma_chains_can_be_regrouped(seq![a], seq![b]);
    lemma_chain_of_one(a);
    lemma_chain_of_one(b);
}

/// The window of a penalty is the end of the history, at most `last_n` long,
/// and shorter only where the history is.
pub proof fn lemma_penalty_window_is_recent(history: Seq<LlamaToken>, last_n: int)
    ensures
        ({
            let window = crate::sampling::penalty_window(history, last_n);
            &&& window.len() <= history.len()
            &&& window == history.skip(history.len() - window.len())
            &&& last_n > 0 ==> window.len() == if last_n < history.len() {
                last_n
            } else {
                history.len() as int
            }
            &&& last_n <= 0 ==> window.len() == 0
        }),
{
    assert(history.skip(0) =~= history);
    assert(history.skip(history.len() as int) =~= Seq::empty());
}

/// A token that was just accepted is the last in the window of every penalty that
/// looks back at all, and what the penalty saw before moves up.
pub proof fn lemma_accepted_token_enters_the_window(
    history: Seq<LlamaToken>,
    token: LlamaToken,
    last_n: int,
)
    requires
        last_n > 0,
    ensures
        ({
            let before = crate::sampling::penalty_window(history, last_n);
            let after = crate::sampling::penalty_window(history.push(token), last_n);
            after == if before.len() < last_n {
                before.push(token)
            } else {
                before.skip(1).push(token)
            }
        }),
{
    let before = crate::sampling::penalty_window(history, last_n);
    let after = crate::sampling::penalty_window(history.push(token), last_n);
    if before.len() < last_n {
        assert(after =~= before.push(token));
    } else {
        assert(after =~= before.skip(1).push(token));
    }
}

/// A draw falls on a candidate, whatever the number and the probabilities.
pub proof fn lemma_a_draw_falls_on_a_candidate(cumulative: Seq<F32>, r: F32)
    requires
        cumulative.len() > 0,
    ensures
        crate::sampling::is_drawn(cumulative, r, crate::sampling::drawn(cumulative, r)),
        0 <= crate::sampling::drawn(cumulative, r) < cumulative.len(),
{
    let chosen = first_above(cumulative, r, 0);
    lemma_first_above(cumulative, r, 0);
    assert(crate::sampling::is_drawn(cumulative, r, chosen));
}

spec fn first_above(cumulative: Seq<F32>, r: F32, from: int) -> int
    decreases cumulative.len() - from,
{
    if from >= cumulative.len() - 1 || cumulative[from].above(r) {
        from
    } else {
        first_above(cumulative, r, from + 1)
    }
}

proof fn lemma_first_above(cumulative: Seq<F32>, r: F32, from: int)
    requires
        0 <= from < cumulative.len(),
    ensures
        from <= first_above(cumulative, r, from) < cumulative.len(),
        forall|i: int|
            from <= i < first_above(cumulative, r, from) ==> !(#[trigger] cumulative[i]).above(r),
        cumulative[first_above(cumulative, r, from)].above(r) || first_above(cumulative, r, from)
            == cumulative.len() - 1,
    decreases cumulative.len() - from,
{
    if from < cumulative.len() - 1 && !cumulative[from].above(r) {
        lemma_first_above(cumulative, r, from + 1);
    }
}

/// Where every logit is a number, a run without a selection comes to the last
/// of the greatest: none is above it, and all that follow are below it.
pub proof fn lemma_fallback_is_last_greatest(data: Seq<LlamaTokenData>)
    requires
        data.len() > 0,
        forall|i: int| 0 <= i < data.len() ==> !(#[trigger] data[i]).logit.nan(),
    ensures
        0 <= crate::sampling::last_greatest(data) < data.len(),
        forall|i: int|
            0 <= i < data.len() ==> !(#[trigger] data[i]).logit.above(
                data[crate::sampling::last_greatest(data)].logit,
            ),
        forall|i: int|
            crate::sampling::last_greatest(data) < i < data.len()
                ==> data[crate::sampling::last_greatest(data)].logit.above(
                (#[trigger] data[i]).logit,
            ),
    decreases data.len(),
{
    if data.len() > 1 {
        let before = data.drop_last();
        assert(forall|i: int| 0 <= i < before.len() ==> before[i] == data[i]);
        lemma_fallback_is_last_greatest(before);
        let b = crate::sampling::last_greatest(before);
        assert forall|i: int| 0 <= i < before.len() implies !(#[trigger] data[i]).logit.above(
            data[b].logit,
        ) by {
            assert(before[i] == data[i]);
        }
        assert forall|i: int| b < i < before.len() implies data[b].logit.above(
            (#[trigger] data[i]).logit,
        ) by {
            assert(before[i] == data[i]);
        }
    }
}

} // verus!
