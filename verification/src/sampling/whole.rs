//! Whole runs over a chain: from the first stage to the last, with all that the
//! engine answers on the way.

use vstd::prelude::*;

use crate::float::F32;
use crate::sampling::{ChainStep, EngineOutcome, LlamaSampler, Progress, Stage};
use crate::token::data::LlamaTokenData;
use crate::token::data_array::LlamaTokenDataArray;

verus! {

/// The number that a stage draws before it calls the engine, if it draws one.
pub open spec fn pending_draw(stage: Stage) -> Option<F32> {
    match stage {
        Stage::Dist(rng) => Some(rng.draw()),
        _ => None,
    }
}

/// Where a run that stood at `p` stands once the engine has answered the call
/// that it came to.
pub open spec fn answered(p: Progress, outcome: EngineOutcome) -> Progress {
    let w = crate::sampling::walk(p);
    Progress {
        stages: w.stages,
        data: outcome.data@,
        selected: crate::sampling::selected_after(outcome, pending_draw(p.stages[w.at])),
        sorted: outcome.sorted,
        at: w.at + 1,
    }
}

/// What the engine was asked: the stage that it was called for, and what it was
/// handed.
pub struct Asked {
    pub stage: Stage,
    pub data: Seq<LlamaTokenData>,
    pub selected: Option<usize>,
    pub sorted: bool,
}

/// A run, as far as the engine's answers took it.
pub struct WholeRun {
    pub end: Progress,
    /// What the engine was asked, in order.
    pub asked: Seq<Asked>,
}

impl WholeRun {
    /// Every stage has run.
    pub open spec fn is_through(self) -> bool {
        self.end.at >= self.end.stages.len()
    }
}

/// What a run that stops at `w` asks the engine.
pub open spec fn asked_at(w: Progress) -> Asked {
    Asked { stage: w.stages[w.at], data: w.data, selected: w.selected, sorted: w.sorted }
}

/// The run from `p` on where the engine gives `answers`, one for each call. It
/// ends behind the last stage, or at the first call that has no answer.
pub open spec fn whole_run(p: Progress, answers: Seq<EngineOutcome>) -> WholeRun
    decreases answers.len(),
{
    let w = crate::sampling::walk(p);
    if w.at >= w.stages.len() || answers.len() == 0 {
        WholeRun { end: w, asked: Seq::empty() }
    } else {
        let rest = whole_run(answered(p, answers[0]), answers.skip(1));
        WholeRun { end: rest.end, asked: seq![asked_at(w)] + rest.asked }
    }
}

/// All that applying `stages` to the candidates of `arr` comes to. Nothing happens
/// to an empty set.
pub open spec fn applied(
    stages: Seq<Stage>,
    data: Seq<LlamaTokenData>,
    selected: Option<usize>,
    sorted: bool,
    answers: Seq<EngineOutcome>,
) -> WholeRun {
    if data.len() == 0 {
        WholeRun {
            end: Progress { stages, data, selected, sorted, at: stages.len() as int },
            asked: Seq::empty(),
        }
    } else {
        whole_run(Progress { stages, data, selected, sorted, at: 0 }, answers)
    }
}

/// The steps that [`LlamaSampler::apply`] and [`LlamaSampler::resume`] take make
/// up the whole run. Where the run is through, it has come to what they leave.
/// Where the engine is to be called, the call serves the stage that comes next in
/// the run, and `resume` goes on where the run does once the call is answered.
pub proof fn lemma_steps_make_up_the_run(
    sampler: LlamaSampler,
    arr: LlamaTokenDataArray,
    step: ChainStep,
    p: Progress,
    answers: Seq<EngineOutcome>,
)
    requires
        0 <= p.at,
        sampler.has_walked(arr, step, p),
    ensures
        match step {
            ChainStep::Done => {
                let r = whole_run(p, answers);
                &&& r.is_through()
                &&& r.asked.len() == 0
                &&& r.end.stages == sampler.stages@
                &&& r.end.data == arr.data@
                &&& r.end.selected == arr.selected
                &&& r.end.sorted == arr.sorted
            },
            ChainStep::Call { run, call } => answers.len() > 0 ==> {
                let r = whole_run(p, answers);
                let rest = whole_run(
                    Progress {
                        stages: sampler.stages@,
                        data: answers[0].data@,
                        selected: crate::sampling::selected_after(answers[0], run.pending),
                        sorted: answers[0].sorted,
                        at: run.next as int,
                    },
                    answers.skip(1),
                );
                &&& r.end == rest.end
                &&& r.asked.len() > 0
                &&& r.asked.skip(1) == rest.asked
                &&& call.serves(r.asked[0].stage, sampler.history@)
                &&& r.asked[0].data == arr.data@
                &&& r.asked[0].selected == arr.selected
                &&& r.asked[0].sorted == arr.sorted
            },
        },
{
    let w = crate::sampling::walk(p);
    if let ChainStep::Call { run, call } = step {
        if let Stage::Dist(rng) = p.stages[w.at] {
            let x = run.pending->0;
            assert(rng.uniform(rng.draw()));
            crate::sampling::rng::lemma_same_state_same_draw(rng, x, rng.draw());
        }
        assert(run.pending == pending_draw(p.stages[w.at]));
        if answers.len() > 0 {
            let r = whole_run(p, answers);
            let rest = whole_run(answered(p, answers[0]), answers.skip(1));
            assert(r.asked.skip(1) =~= rest.asked);
        }
    }
}

/// A run keeps the number of stages, goes forward, and asks no more than it is
/// answered.
pub proof fn lemma_run_goes_forward(p: Progress, answers: Seq<EngineOutcome>)
    requires
        0 <= p.at <= p.stages.len(),
    ensures
        whole_run(p, answers).end.stages.len() == p.stages.len(),
        p.at <= whole_run(p, answers).end.at <= p.stages.len(),
        whole_run(p, answers).asked.len() <= answers.len(),
        !whole_run(p, answers).is_through() ==> whole_run(p, answers).asked.len() == answers.len(),
    decreases answers.len(),
{
    crate::sampling::laws::lemma_walk_keeps_candidates(p);
    let w = crate::sampling::walk(p);
    if w.at < w.stages.len() && answers.len() > 0 {
        lemma_run_goes_forward(answered(p, answers[0]), answers.skip(1));
    }
}

/// Two runs go the same way from where their walks meet.
proof fn lemma_same_walk_same_run(p: Progress, q: Progress, answers: Seq<EngineOutcome>)
    requires
        crate::sampling::walk(p) == crate::sampling::walk(q),
        p.stages[crate::sampling::walk(p).at] == q.stages[crate::sampling::walk(q).at],
    ensures
        whole_run(p, answers) == whole_run(q, answers),
{
}

/// Running `first` and then the stages `second` over what it comes to.
pub open spec fn run_in_turn(
    first: Progress,
    second: Seq<Stage>,
    answers: Seq<EngineOutcome>,
) -> WholeRun {
    let f = whole_run(first, answers);
    if f.is_through() {
        let s = whole_run(
            Progress { stages: second, at: 0, ..f.end },
            answers.skip(f.asked.len() as int),
        );
        WholeRun {
            end: Progress {
                stages: f.end.stages + s.end.stages,
                at: first.stages.len() + s.end.at,
                ..s.end
            },
            asked: f.asked + s.asked,
        }
    } else {
        WholeRun {
            end: Progress { stages: f.end.stages + second, ..f.end },
            asked: f.asked,
        }
    }
}

/// A run that has come to the stages `p.stages` does not depend on the stages
/// before them.
pub proof fn lemma_run_forgets_earlier_stages(
    front: Seq<Stage>,
    p: Progress,
    answers: Seq<EngineOutcome>,
)
    requires
        0 <= p.at <= p.stages.len(),
    ensures
        ({
            let r = whole_run(p, answers);
            whole_run(
                Progress { stages: front + p.stages, at: front.len() + p.at, ..p },
                answers,
            ) == (WholeRun {
                end: Progress {
                    stages: front + r.end.stages,
                    at: front.len() + r.end.at,
                    ..r.end
                },
                asked: r.asked,
            })
        }),
    decreases answers.len(),
{
    let q = Progress { stages: front + p.stages, at: front.len() + p.at, ..p };
    crate::sampling::laws::lemma_walk_of_back(front, p);
    crate::sampling::laws::lemma_walk_keeps_candidates(p);
    let w = crate::sampling::walk(p);
    if w.at < w.stages.len() && answers.len() > 0 {
        assert(q.stages[front.len() + w.at] == p.stages[w.at]);
        assert((front + w.stages)[front.len() + w.at] == w.stages[w.at]);
        let next = answered(p, answers[0]);
        lemma_run_forgets_earlier_stages(front, next, answers.skip(1));
        assert(answered(q, answers[0]) == (Progress {
            stages: front + next.stages,
            at: front.len() + next.at,
            ..next
        }));
    }
}

/// From any stage of `first` on, `first` and `second` joined run as `first` and
/// then `second`: the same calls in the same order, each stage once, and the same
/// end.
pub proof fn lemma_joined_stages_run_in_turn(
    first: Progress,
    second: Seq<Stage>,
    answers: Seq<EngineOutcome>,
)
    requires
        0 <= first.at <= first.stages.len(),
    ensures
        whole_run(Progress { stages: first.stages + second, ..first }, answers) == run_in_turn(
            first,
            second,
            answers,
        ),
    decreases answers.len(),
{
    let joined = Progress { stages: first.stages + second, ..first };
    crate::sampling::laws::lemma_walk_of_front(first, second);
    crate::sampling::laws::lemma_walk_keeps_candidates(first);
    let w = crate::sampling::walk(first);
    if w.at < first.stages.len() {
        if answers.len() > 0 {
            assert(joined.stages[w.at] == first.stages[w.at]);
            assert((w.stages + second)[w.at] == w.stages[w.at]);
            let next = answered(first, answers[0]);
            let tail = answers.skip(1);
            assert(answered(joined, answers[0]) == (Progress {
                stages: next.stages + second,
                ..next
            }));
            lemma_joined_stages_run_in_turn(next, second, tail);
            lemma_run_goes_forward(next, tail);
            let f = whole_run(next, tail);
            let used = f.asked.len() as int;
            assert(tail.skip(used) =~= answers.skip(used + 1));
            let r = run_in_turn(next, second, tail);
            assert(seq![asked_at(w)] + r.asked =~= run_in_turn(first, second, answers).asked);
        }
    } else {
        let s = Progress { stages: second, at: 0, ..w };
        let q = Progress { stages: w.stages + second, ..w };
        lemma_run_forgets_earlier_stages(w.stages, s, answers);
        assert(q == (Progress { stages: w.stages + s.stages, at: w.stages.len() + s.at, ..s }));
        crate::sampling::laws::lemma_walk_of_back(w.stages, s);
        crate::sampling::laws::lemma_walk_keeps_candidates(s);
        let at = crate::sampling::walk(q).at;
        if at < q.stages.len() {
            assert(joined.stages[at] == second[at - w.stages.len()]);
            assert(q.stages[at] == second[at - w.stages.len()]);
            lemma_same_walk_same_run(joined, q, answers);
        }
        assert(answers.skip(0) =~= answers);
        let r = whole_run(s, answers);
        assert(Seq::<Asked>::empty() + r.asked =~= r.asked);
    }
}

/// A run over an empty set without a selection changes neither, and calls for
/// nothing.
proof fn lemma_run_over_nothing(p: Progress, answers: Seq<EngineOutcome>)
    requires
        0 <= p.at <= p.stages.len(),
        p.data.len() == 0,
        p.selected is None,
    ensures
        ({
            let r = whole_run(p, answers);
            &&& r.is_through()
            &&& r.asked.len() == 0
            &&& r.end.data == p.data
            &&& r.end.selected is None
            &&& r.end.sorted == p.sorted
        }),
    decreases p.stages.len() - p.at,
{
    if p.at < p.stages.len() {
        match p.stages[p.at] {
            Stage::Greedy => lemma_run_over_nothing(
                Progress { selected: None, at: p.at + 1, ..p },
                answers,
            ),
            Stage::Dist(rng) => lemma_run_over_nothing(
                Progress {
                    stages: p.stages.update(p.at, Stage::Dist(rng.stepped())),
                    selected: None,
                    at: p.at + 1,
                    ..p
                },
                answers,
            ),
            _ => lemma_run_over_nothing(Progress { at: p.at + 1, ..p }, answers),
        }
    }
}

/// A set that was emptied on the way has no selection.
proof fn lemma_emptied_set_has_no_selection(p: Progress, answers: Seq<EngineOutcome>)
    requires
        0 <= p.at <= p.stages.len(),
        p.data.len() > 0 || p.selected is None,
    ensures
        whole_run(p, answers).end.data.len() == 0 ==> whole_run(p, answers).end.selected is None,
    decreases answers.len(),
{
    crate::sampling::laws::lemma_walk_keeps_candidates(p);
    let w = crate::sampling::walk(p);
    if p.data.len() == 0 {
        lemma_run_over_nothing(p, answers);
    } else if w.at < w.stages.len() && answers.len() > 0 {
        lemma_emptied_set_has_no_selection(answered(p, answers[0]), answers.skip(1));
    }
}

/// A chain runs from left to right. Applying two chains joined comes to the same
/// candidates, the same selection and the same sorted flag as applying the first
/// and then, to what it leaves, the second, where the engine gives the same
/// answers; and the engine is asked the same in the same order. Where candidates
/// are left for the second, its stages too end as they do alone.
pub proof fn lemma_chains_run_left_to_right(
    first: Seq<Stage>,
    second: Seq<Stage>,
    data: Seq<LlamaTokenData>,
    selected: Option<usize>,
    sorted: bool,
    answers: Seq<EngineOutcome>,
)
    requires
        applied(first, data, selected, sorted, answers).is_through(),
    ensures
        ({
            let joined = applied(first + second, data, selected, sorted, answers);
            let f = applied(first, data, selected, sorted, answers);
            let s = applied(
                second,
                f.end.data,
                f.end.selected,
                f.end.sorted,
                answers.skip(f.asked.len() as int),
            );
            &&& joined.end.data == s.end.data
            &&& joined.end.selected == s.end.selected
            &&& joined.end.sorted == s.end.sorted
            &&& joined.asked == f.asked + s.asked
            &&& joined.is_through() == s.is_through()
            &&& f.end.data.len() > 0 ==> joined.end.stages == f.end.stages + s.end.stages
        }),
{
    let f = applied(first, data, selected, sorted, answers);
    let rest = answers.skip(f.asked.len() as int);
    if data.len() > 0 {
        let p = Progress { stages: first, data, selected, sorted, at: 0 };
        lemma_joined_stages_run_in_turn(p, second, answers);
        lemma_run_goes_forward(p, answers);
        let q = Progress { stages: second, at: 0, ..f.end };
        lemma_run_goes_forward(q, rest);
        if f.end.data.len() == 0 {
            lemma_emptied_set_has_no_selection(p, answers);
            lemma_run_over_nothing(q, rest);
            assert(whole_run(q, rest).asked =~= Seq::<Asked>::empty());
        }
    } else {
        assert(f.asked + Seq::<Asked>::empty() =~= f.asked);
    }
}

/// As [`lemma_chains_run_left_to_right`], for the chain `c` that
/// [`LlamaSampler::chain_simple`] makes of `a` and `b`.
pub proof fn lemma_chain_simple_applies_in_turn(
    a: LlamaSampler,
    b: LlamaSampler,
    c: LlamaSampler,
    data: Seq<LlamaTokenData>,
    selected: Option<usize>,
    sorted: bool,
    answers: Seq<EngineOutcome>,
)
    requires
        c.stages@ == crate::sampling::joined_stages(seq![a, b]),
        applied(a.stages@, data, selected, sorted, answers).is_through(),
    ensures
        ({
            let joined = applied(c.stages@, data, selected, sorted, answers);
            let first = applied(a.stages@, data, selected, sorted, answers);
            let second = applied(
                b.stages@,
                first.end.data,
                first.end.selected,
                first.end.sorted,
                answers.skip(first.asked.len() as int),
            );
            &&& joined.end.data == second.end.data
            &&& joined.end.selected == second.end.selected
            &&& joined.end.sorted == second.end.sorted
            &&& joined.asked == first.asked + second.asked
            &&& joined.is_through() == second.is_through()
        }),
{
    crate::sampling::laws::lemma_chain_of_two(a, b);
    lemma_chains_run_left_to_right(a.stages@, b.stages@, data, selected, sorted, answers);
}

/// The stages from `at` on that the engine is called for, as they stand when it is
/// called: all but the greedy ones, and a distribution stage after its draw.
pub open spec fn engine_stages(stages: Seq<Stage>, at: int) -> Seq<Stage>
    decreases stages.len() - at,
{
    if at < 0 || at >= stages.len() {
        Seq::empty()
    } else {
        match stages[at] {
            Stage::Greedy => engine_stages(stages, at + 1),
            Stage::Dist(rng) => seq![Stage::Dist(rng.stepped())] + engine_stages(stages, at + 1),
            stage => seq![stage] + engine_stages(stages, at + 1),
        }
    }
}

proof fn lemma_engine_stages_of_rest(s: Seq<Stage>, t: Seq<Stage>, at: int)
    requires
        0 <= at,
        s.len() == t.len(),
        forall|i: int| at <= i < s.len() ==> s[i] == t[i],
    ensures
        engine_stages(s, at) == engine_stages(t, at),
    decreases s.len() - at,
{
    if at < s.len() {
        lemma_engine_stages_of_rest(s, t, at + 1);
    }
}

/// With candidates, a walk stops at the next stage that the engine is called for.
proof fn lemma_walk_to_engine_stage(p: Progress)
    requires
        0 <= p.at <= p.stages.len(),
        p.data.len() > 0,
    ensures
        ({
            let w = crate::sampling::walk(p);
            if w.at < w.stages.len() {
                engine_stages(p.stages, p.at) == seq![w.stages[w.at]] + engine_stages(
                    w.stages,
                    w.at + 1,
                )
            } else {
                engine_stages(p.stages, p.at).len() == 0
            }
        }),
    decreases p.stages.len() - p.at,
{
    if p.at < p.stages.len() {
        match p.stages[p.at] {
            Stage::Greedy => lemma_walk_to_engine_stage(
                Progress {
                    selected: Some(crate::sampling::greedy_choice(p.data) as usize),
                    at: p.at + 1,
                    ..p
                },
            ),
            Stage::Dist(rng) => lemma_engine_stages_of_rest(
                p.stages,
                p.stages.update(p.at, Stage::Dist(rng.stepped())),
                p.at + 1,
            ),
            _ => {},
        }
    }
}

/// Every stage runs exactly once, in order: where there are candidates all the
/// way, a run that is through has called the engine once for each of its stages
/// but the greedy ones, one after the other.
pub proof fn lemma_every_stage_runs_once(p: Progress, answers: Seq<EngineOutcome>)
    requires
        0 <= p.at <= p.stages.len(),
        p.data.len() > 0,
        forall|i: int| 0 <= i < answers.len() ==> (#[trigger] answers[i]).data@.len() > 0,
        whole_run(p, answers).is_through(),
    ensures
        whole_run(p, answers).asked.map_values(|a: Asked| a.stage) == engine_stages(
            p.stages,
            p.at,
        ),
    decreases answers.len(),
{
    crate::sampling::laws::lemma_walk_keeps_candidates(p);
    lemma_walk_to_engine_stage(p);
    let w = crate::sampling::walk(p);
    let r = whole_run(p, answers);
    if w.at < w.stages.len() {
        let next = answered(p, answers[0]);
        let tail = answers.skip(1);
        assert(forall|i: int| 0 <= i < tail.len() ==> tail[i] == answers[i + 1]);
        lemma_every_stage_runs_once(next, tail);
        let rest = whole_run(next, tail);
        assert(r.asked.map_values(|a: Asked| a.stage) =~= seq![w.stages[w.at]]
            + rest.asked.map_values(|a: Asked| a.stage));
    } else {
        assert(r.asked.map_values(|a: Asked| a.stage) =~= engine_stages(p.stages, p.at));
    }
}

} // verus!
