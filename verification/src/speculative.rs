//! Multi-token prediction: the engine drafts several tokens at once, and the
//! drafts that the model agrees with are kept.

use vstd::prelude::*;

use crate::context::LlamaContext;
use crate::error::LlamaError;
use crate::float::F32;
use crate::token::{from_raw_ids, raw_ids, LlamaToken};

verus! {

/// What decoding is to do for multi-token prediction.
#[derive(Clone, Copy, Debug, PartialEq, Eq, Structural)]
pub enum MtpOpType {
    /// Decode as usual.
    Normal,
    /// Take in the prompt.
    Warmup,
    /// Move on by the accepted tokens.
    UpdateAccepted,
    /// Draft tokens.
    DraftGen,
}

/// Settings of multi-token prediction.
#[derive(Clone, Copy, Debug)]
pub struct MtpSpeculativeParams {
    /// The most tokens to draft in a step.
    pub n_max: i32,
    /// The fewest tokens to draft in a step.
    pub n_min: i32,
    /// The probability below which drafting stops; zero never stops it.
    pub p_min: F32,
    /// How many prediction heads to use.
    pub mtp_heads: i32,
    /// The temperature of the target's sampler; zero and below is greedy.
    pub temp: F32,
}

impl Default for MtpSpeculativeParams {
    fn default() -> (params: MtpSpeculativeParams)
        ensures
            params == (MtpSpeculativeParams {
                n_max: 2,
                n_min: 0,
                p_min: F32 { bits: 0 },
                mtp_heads: 1,
                temp: F32 { bits: 0 },
            }),
    {
        MtpSpeculativeParams {
            n_max: 2,
            n_min: 0,
            p_min: F32::from_bits(0),
            mtp_heads: 1,
            temp: F32::from_bits(0),
        }
    }
}

/// What came of a step.
#[derive(Debug)]
pub struct MtpStep {
    /// The tokens that the step gave, each for the first time.
    pub tokens: Vec<LlamaToken>,
    /// How many of the drafts were kept.
    pub n_accepted: i32,
}

impl Clone for MtpStep {
    fn clone(&self) -> (step: MtpStep)
        ensures
            step.tokens@ == self.tokens@,
            step.n_accepted == self.n_accepted,
    {
        MtpStep {
            tokens: vstd::slice::slice_to_vec(self.tokens.as_slice()),
            n_accepted: self.n_accepted,
        }
    }
}

/// The driver of multi-token prediction over a context.
#[derive(Clone, Copy, Debug)]
pub struct MtpSpeculative {
    pub ctx: LlamaContext,
    pub params: MtpSpeculativeParams,
}

/// A call that runs a whole step.
#[derive(Clone, Copy, Debug, PartialEq, Eq, Structural)]
pub struct StepCall {
    /// The number of tokens that the buffer for the answer holds.
    pub cap: usize,
}

/// A call that drafts tokens after `id_last`.
#[derive(Clone, Copy, Debug, PartialEq, Eq, Structural)]
pub struct DraftCall {
    pub n_past: i32,
    pub id_last: i32,
    /// The number of tokens that the buffer for the answer holds.
    pub cap: usize,
}

/// A call that ends a round of drafting.
#[derive(Debug)]
pub struct CommitCall {
    pub id_last: i32,
    pub committed: Vec<i32>,
    pub n_draft: usize,
}

/// The tokens among the first `n_out` of the buffer `out`.
pub open spec fn given_tokens(out: Seq<i32>, n_out: usize) -> Seq<LlamaToken> {
    crate::token::tokens_of(crate::step::cut(out, n_out as int))
}

fn take_given(out: Vec<i32>, n_out: usize) -> (tokens: Vec<LlamaToken>)
    ensures
        tokens@ == given_tokens(out@, n_out),
{
    let mut out = out;
    out.truncate(n_out);
    from_raw_ids(out.as_slice())
}

/// A status is good news only when it is zero.
fn check_status(status: i32) -> (r: Result<(), LlamaError>)
    ensures
        r == if status == 0 {
            Ok::<(), LlamaError>(())
        } else {
            Err(LlamaError::MtpStep(status))
        },
{
    if status != 0 {
        return Err(LlamaError::MtpStep(status));
    }
    Ok(())
}

impl StepCall {
    /// Reads the engine's answer.
    pub fn resume(self, status: i32, out: Vec<i32>, n_out: usize, n_accepted: i32) -> (r: Result<
        MtpStep,
        LlamaError,
    >)
        ensures
            match r {
                Ok(step) => {
                    &&& status == 0
                    &&& step.tokens@ == given_tokens(out@, n_out)
                    &&& step.n_accepted == n_accepted
                },
                Err(e) => status != 0 && e == LlamaError::MtpStep(status),
            },
    {
        match check_status(status) {
            Ok(()) => Ok(MtpStep { tokens: take_given(out, n_out), n_accepted }),
            Err(e) => Err(e),
        }
    }
}

impl DraftCall {
    /// Reads the engine's answer.
    pub fn resume(self, status: i32, out: Vec<i32>, n_out: usize) -> (r: Result<
        Vec<LlamaToken>,
        LlamaError,
    >)
        ensures
            match r {
                Ok(drafts) => status == 0 && drafts@ == given_tokens(out@, n_out),
                Err(e) => status != 0 && e == LlamaError::MtpStep(status),
            },
    {
        match check_status(status) {
            Ok(()) => Ok(take_given(out, n_out)),
            Err(e) => Err(e),
        }
    }
}

impl CommitCall {
    /// Reads the engine's answer.
    pub fn resume(self, status: i32) -> (r: Result<(), LlamaError>)
        ensures
            r == if status == 0 {
                Ok::<(), LlamaError>(())
            } else {
                Err(LlamaError::MtpStep(status))
            },
    {
        check_status(status)
    }
}

impl MtpSpeculative {
    /// How many tokens may be drafted: `n_max`, and one at least.
    pub open spec fn draft_room(self) -> int {
        if self.params.n_max >= 1 {
            self.params.n_max as int
        } else {
            1
        }
    }

    /// The driver over `ctx`, where the engine could make it.
    pub fn new(ctx: LlamaContext, params: MtpSpeculativeParams, made: bool) -> (r: Result<
        MtpSpeculative,
        LlamaError,
    >)
        ensures
            r == if made {
                Ok::<MtpSpeculative, LlamaError>(MtpSpeculative { ctx, params })
            } else {
                Err(LlamaError::MtpInit)
            },
    {
        if made {
            Ok(MtpSpeculative { ctx, params })
        } else {
            Err(LlamaError::MtpInit)
        }
    }

    /// The first half of taking in a prompt: its tokens as the engine takes them.
    pub fn begin(&self, prompt: &[LlamaToken]) -> (ids: Vec<i32>)
        ensures
            ids@ == crate::token::ids_of(prompt@),
    {
        raw_ids(prompt)
    }

    /// The second half: the engine's answer is the number of tokens taken in, or
    /// a negative status.
    pub fn began(&self, n: i64) -> (r: Result<usize, LlamaError>)
        ensures
            r == if n < 0 {
                Err(LlamaError::MtpBegin(n as i32))
            } else {
                Ok::<usize, LlamaError>(n as usize)
            },
    {
        if n < 0 {
            return Err(LlamaError::MtpBegin(n as i32));
        }
        Ok(n as usize)
    }

    /// A step of drafting, checking and committing.
    pub fn step(&self) -> (call: StepCall)
        ensures
            call.cap == self.draft_room() + 2,
    {
        let room: i32 = if self.params.n_max >= 1 {
            self.params.n_max
        } else {
            1
        };
        StepCall { cap: room as usize + 2 }
    }

    /// Drafts tokens after `id_last`, which stands at `n_past`.
    pub fn draft(&self, n_past: i32, id_last: LlamaToken) -> (call: DraftCall)
        ensures
            call.n_past == n_past,
            call.id_last == id_last.0,
            call.cap == self.draft_room(),
    {
        let room: i32 = if self.params.n_max >= 1 {
            self.params.n_max
        } else {
            1
        };
        DraftCall { n_past, id_last: id_last.0, cap: room as usize }
    }

    /// Ends a round in which `n_draft` tokens were drafted. `committed` is the
    /// drafts that are kept and one token more; anything that cannot be that is
    /// refused before the engine hears of it.
    pub fn commit(&self, id_last: LlamaToken, committed: &[LlamaToken], n_draft: usize) -> (r:
        Result<CommitCall, LlamaError>)
        ensures
            match r {
                Ok(call) => {
                    &&& 1 <= committed@.len() <= n_draft + 1
                    &&& call.id_last == id_last.0
                    &&& call.committed@ == crate::token::ids_of(committed@)
                    &&& call.n_draft == n_draft
                },
                Err(e) => {
                    &&& committed@.len() == 0 || committed@.len() > n_draft + 1
                    &&& e == LlamaError::MtpStep(-1i32)
                },
            },
    {
        if committed.len() == 0 || committed.len() - 1 > n_draft {
            return Err(LlamaError::MtpStep(-1));
        }
        Ok(CommitCall { id_last: id_last.0, committed: raw_ids(committed), n_draft })
    }

    pub fn params(&self) -> (params: MtpSpeculativeParams)
        ensures
            params == self.params,
    {
        self.params
    }

    /// The context that the drafts are checked on.
    pub fn target_context(&self) -> (ctx: &LlamaContext)
        ensures
            *ctx == self.ctx,
    {
        &self.ctx
    }

    /// The context that the drafts are checked on, to decode them there.
    pub fn target_context_mut(&mut self) -> (ctx: &mut LlamaContext)
        ensures
            *ctx == old(self).ctx,
            *final(self) == (MtpSpeculative { ctx: *final(ctx), ..*old(self) }),
    {
        &mut self.ctx
    }

    /// As [`Self::target_context_mut`].
    pub fn context_mut(&mut self) -> (ctx: &mut LlamaContext)
        ensures
            *ctx == old(self).ctx,
            *final(self) == (MtpSpeculative { ctx: *final(ctx), ..*old(self) }),
    {
        &mut self.ctx
    }
}

/// An engine that keeps to its buffer drafts no more than was asked for, and a
/// step gives no more than two tokens beyond that.
pub proof fn lemma_drafts_fit(
    spec: MtpSpeculative,
    call: DraftCall,
    step: StepCall,
    out: Seq<i32>,
    n_out: usize,
)
    requires
        call.cap == spec.draft_room(),
        step.cap == spec.draft_room() + 2,
    ensures
        out.len() == call.cap ==> given_tokens(out, n_out).len() <= spec.draft_room(),
        out.len() == step.cap ==> given_tokens(out, n_out).len() <= spec.draft_room() + 2,
{
}

/// Every round that keeps some first drafts and adds one token can be committed,
/// and it commits at least that one token: the position always moves on, and
/// never beyond what was checked.
pub proof fn lemma_kept_drafts_can_be_committed(drafts: Seq<LlamaToken>, kept: int, extra: LlamaToken)
    requires
        0 <= kept <= drafts.len(),
    ensures
        1 <= drafts.take(kept).push(extra).len() <= drafts.len() + 1,
{
}

/// The engine has room for `n_max` drafts, and for one where that is less; and for two
/// tokens more in a whole step. A draft is asked for behind the token and the position
/// that were given.
pub proof fn lemma_room_for_drafts(
    spec: MtpSpeculative,
    n_past: i32,
    id_last: LlamaToken,
    draft: DraftCall,
    step: StepCall,
)
    requires
        call_ensures(MtpSpeculative::draft, (&spec, n_past, id_last), draft),
        call_ensures(MtpSpeculative::step, (&spec,), step),
    ensures
        draft.n_past == n_past,
        draft.id_last == id_last.0,
        spec.params.n_max >= 1 ==> draft.cap == spec.params.n_max,
        spec.params.n_max < 1 ==> draft.cap == 1,
        step.cap == draft.cap + 2,
{
}

/// What the engine gives is taken over as it is: the first `n_out` tokens of its buffer,
/// or all of a shorter one, in order; and a status other than zero is an error that
/// holds it.
pub proof fn lemma_given_tokens_are_taken_over(
    draft: DraftCall,
    step: StepCall,
    status: i32,
    out: Vec<i32>,
    n_out: usize,
    n_accepted: i32,
    drafts: Result<Vec<LlamaToken>, LlamaError>,
    given: Result<MtpStep, LlamaError>,
)
    requires
        call_ensures(DraftCall::resume, (draft, status, out, n_out), drafts),
        call_ensures(StepCall::resume, (step, status, out, n_out, n_accepted), given),
    ensures
        drafts is Ok <==> status == 0,
        given is Ok <==> status == 0,
        status != 0 ==> {
            &&& drafts->Err_0 == LlamaError::MtpStep(status)
            &&& given->Err_0 == LlamaError::MtpStep(status)
        },
        status == 0 ==> {
            let tokens = drafts->Ok_0@;
            &&& n_out <= out@.len() ==> tokens.len() == n_out
            &&& n_out > out@.len() ==> tokens.len() == out@.len()
            &&& forall|i: int| 0 <= i < tokens.len() ==> (#[trigger] tokens[i]).0 == out@[i]
            &&& given->Ok_0.tokens@ == tokens
            &&& given->Ok_0.n_accepted == n_accepted
        },
{
}

/// A round is ended with the ids of the tokens that were kept, in order; it is refused,
/// before the engine hears of it, just where there is none or more than one beyond the
/// drafts. A prompt begins with the ids of its tokens.
pub proof fn lemma_kept_tokens_are_committed(
    spec: MtpSpeculative,
    id_last: LlamaToken,
    committed: &[LlamaToken],
    n_draft: usize,
    r: Result<CommitCall, LlamaError>,
    ids: Vec<i32>,
)
    requires
        call_ensures(MtpSpeculative::commit, (&spec, id_last, committed, n_draft), r),
        call_ensures(MtpSpeculative::begin, (&spec, committed), ids),
    ensures
        r is Ok <==> 1 <= committed@.len() <= n_draft + 1,
        r is Err ==> r->Err_0 == LlamaError::MtpStep(-1i32),
        r matches Ok(call) ==> {
            &&& call.id_last == id_last.0
            &&& call.n_draft == n_draft
            &&& call.committed@.len() == committed@.len()
            &&& forall|i: int|
                0 <= i < committed@.len() ==> #[trigger] call.committed@[i] == committed@[i].0
        },
        ids@.len() == committed@.len(),
        forall|i: int| 0 <= i < committed@.len() ==> #[trigger] ids@[i] == committed@[i].0,
{
}

/// The engine's answer to a prompt is the number of tokens that it took in, or a status
/// below zero, which the error holds.
pub proof fn lemma_begun_prompt_is_counted(
    spec: MtpSpeculative,
    n: i64,
    r: Result<usize, LlamaError>,
)
    requires
        i32::MIN <= n <= u32::MAX,
        call_ensures(MtpSpeculative::began, (&spec, n), r),
    ensures
        r is Ok <==> n >= 0,
        r is Ok ==> r->Ok_0 == n,
        r is Err ==> r->Err_0 is MtpBegin && r->Err_0->MtpBegin_0 == n,
{
}

} // verus!
