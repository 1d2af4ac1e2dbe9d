//! The candidate array that samplers read and change.

use vstd::prelude::*;

use crate::float::F32;
use crate::sampling::StageCall;
use crate::token::data::LlamaTokenData;
use crate::token::LlamaToken;

verus! {

/// The candidates for the next token.
#[derive(Clone, Debug, PartialEq)]
pub struct LlamaTokenDataArray {
    pub data: Vec<LlamaTokenData>,
    /// The index in `data` that a sampler chose, if one did.
    pub selected: Option<usize>,
    /// Whether `data` is sorted by logit, greatest first.
    pub sorted: bool,
}

/// The candidate for index `i` of a row of logits: the index is the id, and no
/// probability is known yet.
pub open spec fn candidate(i: int, logit: F32) -> LlamaTokenData {
    LlamaTokenData { id: LlamaToken(i as i32), logit, p: F32 { bits: 0 } }
}

/// The candidates for a row of logits.
pub open spec fn candidates(logits: Seq<F32>) -> Seq<LlamaTokenData> {
    Seq::new(logits.len(), |i: int| candidate(i, logits[i]))
}

/// The selection as the engine keeps it: an index, or -1 for none.
pub open spec fn raw_selected(selected: Option<usize>) -> i64 {
    match selected {
        Some(s) => if s <= i64::MAX {
            s as i64
        } else {
            -1i64
        },
        None => -1i64,
    }
}

/// What the engine's selection means for `len` candidates: anything that is not
/// an index of one of them is no selection.
pub open spec fn selection(raw: i64, len: nat) -> Option<usize> {
    if 0 <= raw < len {
        Some(raw as usize)
    } else {
        None
    }
}

impl LlamaTokenDataArray {
    pub fn new(data: Vec<LlamaTokenData>, sorted: bool) -> (arr: LlamaTokenDataArray)
        ensures
            arr.data == data,
            arr.selected is None,
            arr.sorted == sorted,
    {
        LlamaTokenDataArray { data, selected: None, sorted }
    }

    /// As [`Self::new`], for candidates gathered one by one.
    pub fn from_iter(data: Vec<LlamaTokenData>, sorted: bool) -> (arr: LlamaTokenDataArray)
        ensures
            arr.data == data,
            arr.selected is None,
            arr.sorted == sorted,
    {
        LlamaTokenDataArray::new(data, sorted)
    }

    /// One candidate per logit; the index of the logit is the token id.
    pub fn from_logits(logits: &[F32]) -> (arr: LlamaTokenDataArray)
        ensures
            arr.data@ == candidates(logits@),
            arr.selected is None,
            !arr.sorted,
    {
        let mut data: Vec<LlamaTokenData> = Vec::new();
        let mut i: usize = 0;
        while i < logits.len()
            invariant
                i <= logits@.len(),
                data@ == candidates(logits@.take(i as int)),
            decreases logits@.len() - i,
        {
            let id: i32 = i as i32;
            data.push(LlamaTokenData::new(LlamaToken(id), logits[i], F32::from_bits(0)));
            i += 1;
            assert(data@ =~= candidates(logits@.take(i as int)));
        }
        assert(logits@.take(i as int) =~= logits@);
        LlamaTokenDataArray::new(data, false)
    }

    /// The token that the selection stands for.
    pub open spec fn chosen(&self) -> Option<LlamaToken> {
        match self.selected {
            Some(s) => if s < self.data@.len() {
                Some(self.data@[s as int].id)
            } else {
                None
            },
            None => None,
        }
    }

    pub fn selected_token(&self) -> (token: Option<LlamaToken>)
        ensures
            token == self.chosen(),
    {
        match self.selected {
            Some(s) => if s < self.data.len() {
                Some(self.data[s].id)
            } else {
                None
            },
            None => None,
        }
    }

    /// The call that penalizes what occurs in `last_tokens`, if there is anything
    /// to penalize. What it leaves goes to [`Self::sync_from_c`].
    pub fn apply_repetition_penalties(
        &self,
        last_tokens: &[LlamaToken],
        penalty_repeat: F32,
        penalty_freq: F32,
        penalty_present: F32,
    ) -> (call: Option<StageCall>)
        ensures
            last_tokens@.len() == 0 ==> call is None,
            last_tokens@.len() > 0 ==> {
                &&& call matches Some(StageCall::RepetitionPenalties {
                    last_tokens: tokens,
                    repeat,
                    freq,
                    presence,
                })
                &&& tokens@ == last_tokens@
                &&& repeat == penalty_repeat
                &&& freq == penalty_freq
                &&& presence == penalty_present
            },
    {
        if last_tokens.len() == 0 {
            return None;
        }
        Some(
            StageCall::RepetitionPenalties {
                last_tokens: vstd::slice::slice_to_vec(last_tokens),
                repeat: penalty_repeat,
                freq: penalty_freq,
                presence: penalty_present,
            },
        )
    }

    /// The selection to hand to the engine beside the candidates.
    pub fn as_c(&self) -> (raw: i64)
        ensures
            raw == raw_selected(self.selected),
    {
        match self.selected {
            Some(s) => if s as u128 <= i64::MAX as u128 {
                s as i64
            } else {
                -1
            },
            None => -1i64,
        }
    }

    /// Takes over the candidates, the selection and the sorted flag that the
    /// engine left.
    pub fn sync_from_c(&mut self, data: Vec<LlamaTokenData>, selected: i64, sorted: bool)
        ensures
            final(self).data == data,
            final(self).selected == selection(selected, data@.len()),
            final(self).sorted == sorted,
    {
        let n: usize = data.len();
        self.selected = if selected >= 0 && (selected as u128) < n as u128 {
            Some(selected as usize)
        } else {
            None
        };
        self.data = data;
        self.sorted = sorted;
    }
}

/// An array that the engine hands back as it got it is unchanged, but for a
/// selection that points at no candidate, which is dropped.
pub proof fn lemma_sync_round_trip(selected: Option<usize>, len: nat)
    requires
        len <= usize::MAX,
    ensures
        (selected matches Some(s) && s < len && s <= i64::MAX) ==> selection(
            raw_selected(selected),
            len,
        ) == selected,
        (selected matches Some(s) ==> s >= len) ==> selection(raw_selected(selected), len) is None,
{
}

/// A row of logits becomes one candidate for each logit, in order: its id is its place
/// in the row, its logit is the one that stands there, and no probability is known.
/// Nothing is selected.
pub proof fn lemma_each_logit_is_a_candidate(logits: &[F32], arr: LlamaTokenDataArray)
    requires
        call_ensures(LlamaTokenDataArray::from_logits, (logits,), arr),
    ensures
        arr.data@.len() == logits@.len(),
        forall|i: int|
            0 <= i < logits@.len() ==> {
                &&& i <= i32::MAX ==> (#[trigger] arr.data@[i]).id.0 == i
                &&& arr.data@[i].logit == logits@[i]
                &&& arr.data@[i].p.bits == 0
            },
        arr.selected is None,
        !arr.sorted,
{
}

/// There is a selected token just where the selection is the index of a candidate,
/// and then it is that candidate's.
pub proof fn lemma_selection_stands_for_its_candidate(
    arr: LlamaTokenDataArray,
    token: Option<LlamaToken>,
)
    requires
        call_ensures(LlamaTokenDataArray::selected_token, (&arr,), token),
    ensures
        token is Some <==> arr.selected is Some && arr.selected->0 < arr.data@.len(),
        token is Some ==> token->0 == arr.data@[arr.selected->0 as int].id,
{
}

/// The engine is handed the index that is selected, and -1 where none is; and what it
/// hands back is taken over, its selection just where it is the index of a candidate.
pub proof fn lemma_engine_shares_the_selection(
    arr: LlamaTokenDataArray,
    raw: i64,
    taken: &mut LlamaTokenDataArray,
    data: Vec<LlamaTokenData>,
    selected: i64,
    sorted: bool,
)
    requires
        call_ensures(LlamaTokenDataArray::as_c, (&arr,), raw),
        call_ensures(LlamaTokenDataArray::sync_from_c, (taken, data, selected, sorted), ()),
    ensures
        arr.selected is None ==> raw == -1,
        arr.selected matches Some(s) ==> s <= i64::MAX ==> raw == s,
        final(taken).data@ == data@,
        final(taken).sorted == sorted,
        0 <= selected < data@.len() ==> final(taken).selected is Some
            && final(taken).selected->0 == selected,
        selected < 0 || selected >= data@.len() ==> final(taken).selected is None,
{
    assert(data.len() == data@.len());
}

} // verus!
