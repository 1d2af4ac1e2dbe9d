//! The tokens of one decoding step.

use vstd::prelude::*;

use crate::error::LlamaError;
use crate::token::LlamaToken;

verus! {

/// A token in a batch, as the engine takes it.
#[derive(Debug)]
pub struct BatchToken {
    pub token: i32,
    pub pos: i32,
    pub seq_ids: Vec<i32>,
    /// 1 where logits are wanted, 0 otherwise.
    pub logits: i8,
}

/// What a [`BatchToken`] says.
pub struct BatchEntry {
    pub token: LlamaToken,
    pub pos: i32,
    pub seq_ids: Seq<i32>,
    pub logits: bool,
}

impl View for BatchToken {
    type V = BatchEntry;

    open spec fn view(&self) -> BatchEntry {
        BatchEntry {
            token: LlamaToken(self.token),
            pos: self.pos,
            seq_ids: self.seq_ids@,
            logits: self.logits != 0,
        }
    }
}

/// Up to `capacity` tokens, each for up to `n_seq_max` sequences.
#[derive(Debug)]
pub struct LlamaBatch {
    tokens: Vec<BatchToken>,
    capacity: usize,
    n_seq_max: usize,
}

impl View for LlamaBatch {
    type V = Seq<BatchEntry>;

    closed spec fn view(&self) -> Seq<BatchEntry> {
        self.tokens@.map_values(|t: BatchToken| t@)
    }
}

/// The tokens of a prompt, at positions from 0 on in the one sequence `seq_id`.
/// Logits are wanted for each, or only for the last.
pub open spec fn prompt_entries(
    tokens: Seq<LlamaToken>,
    seq_id: i32,
    logits_all: bool,
) -> Seq<BatchEntry> {
    Seq::new(
        tokens.len(),
        |i: int|
            BatchEntry {
                token: tokens[i],
                pos: i as i32,
                seq_ids: seq![seq_id],
                logits: logits_all || i + 1 == tokens.len(),
            },
    )
}

impl LlamaBatch {
    pub closed spec fn spec_capacity(&self) -> usize {
        self.capacity
    }

    pub closed spec fn spec_n_seq_max(&self) -> usize {
        self.n_seq_max
    }

    /// The batch keeps to its dimensions, and these fit the engine's counters.
    #[verifier::type_invariant]
    spec fn keeps_to_dimensions(self) -> bool {
        &&& self.capacity <= i32::MAX
        &&& self.n_seq_max <= i32::MAX
        &&& self.tokens@.len() <= self.capacity
        &&& forall|i: int|
            0 <= i < self.tokens@.len() ==> {
                &&& (#[trigger] self.tokens@[i]).seq_ids@.len() <= self.n_seq_max
                &&& self.tokens@[i].logits == 0 || self.tokens@[i].logits == 1
            }
    }

    /// Each of the tokens, and their number, keep to the batch's dimensions.
    pub open spec fn in_bounds(&self) -> bool {
        &&& self.spec_capacity() <= i32::MAX
        &&& self.spec_n_seq_max() <= i32::MAX
        &&& self@.len() <= self.spec_capacity()
        &&& forall|i: int|
            0 <= i < self@.len() ==> (#[trigger] self@[i]).seq_ids.len() <= self.spec_n_seq_max()
    }

    /// How many more tokens the batch takes.
    pub open spec fn room(&self) -> int {
        self.spec_capacity() - self@.len()
    }

    pub fn new(capacity: usize, n_seq_max: usize) -> (batch: LlamaBatch)
        requires
            capacity <= i32::MAX,
            n_seq_max <= i32::MAX,
        ensures
            batch.in_bounds(),
            batch@ == Seq::<BatchEntry>::empty(),
            batch.spec_capacity() == capacity,
            batch.spec_n_seq_max() == n_seq_max,
    {
        let batch = LlamaBatch { tokens: Vec::new(), capacity, n_seq_max };
        assert(batch@ =~= Seq::empty());
        batch
    }

    pub fn clear(&mut self)
        ensures
            final(self).in_bounds(),
            final(self)@ == Seq::<BatchEntry>::empty(),
            final(self).spec_capacity() == old(self).spec_capacity(),
            final(self).spec_n_seq_max() == old(self).spec_n_seq_max(),
    {
        proof {
            use_type_invariant(&*self);
        }
        let mut tokens: Vec<BatchToken> = Vec::new();
        std::mem::swap(&mut tokens, &mut self.tokens);
        tokens.clear();
        self.tokens = tokens;
        assert(self@ =~= Seq::empty());
    }

    pub fn n_tokens(&self) -> (n: i32)
        ensures
            n == self@.len(),
            self.in_bounds(),
    {
        proof {
            use_type_invariant(self);
        }
        self.tokens.len() as i32
    }

    /// Adds a token for the sequences `seq_ids`. A full batch is found out
    /// before too many sequences are.
    pub fn add(&mut self, token: LlamaToken, pos: i32, seq_ids: &[i32], logits: bool) -> (r: Result<
        (),
        LlamaError,
    >)
        ensures
            old(self).in_bounds(),
            final(self).in_bounds(),
            final(self).spec_capacity() == old(self).spec_capacity(),
            final(self).spec_n_seq_max() == old(self).spec_n_seq_max(),
            r == if old(self).room() <= 0 {
                Err(
                    LlamaError::BatchOverflow {
                        capacity: old(self).spec_capacity(),
                        index: old(self)@.len() as usize,
                    },
                )
            } else if seq_ids@.len() > old(self).spec_n_seq_max() {
                Err(
                    LlamaError::TooManySeqIds {
                        got: seq_ids@.len() as usize,
                        max: old(self).spec_n_seq_max(),
                    },
                )
            } else {
                Ok::<(), LlamaError>(())
            },
            final(self)@ == if r is Ok {
                old(self)@.push(BatchEntry { token, pos, seq_ids: seq_ids@, logits })
            } else {
                old(self)@
            },
    {
        proof {
            use_type_invariant(&*self);
        }
        let index: usize = self.tokens.len();
        if index >= self.capacity {
            return Err(LlamaError::BatchOverflow { capacity: self.capacity, index });
        }
        if seq_ids.len() > self.n_seq_max {
            return Err(LlamaError::TooManySeqIds { got: seq_ids.len(), max: self.n_seq_max });
        }
        let added = BatchToken {
            token: token.0,
            pos,
            seq_ids: vstd::slice::slice_to_vec(seq_ids),
            logits: if logits {
                1
            } else {
                0
            },
        };
        let mut tokens: Vec<BatchToken> = Vec::new();
        std::mem::swap(&mut tokens, &mut self.tokens);
        tokens.push(added);
        self.tokens = tokens;
        assert(self@ =~= old(self)@.push(BatchEntry { token, pos, seq_ids: seq_ids@, logits }));
        Ok(())
    }

    /// Adds a whole prompt. Where the batch fills up on the way, the tokens that
    /// did fit stay in it.
    pub fn add_sequence(&mut self, tokens: &[LlamaToken], seq_id: i32, logits_all: bool) -> (r:
        Result<(), LlamaError>)
        ensures
            old(self).in_bounds(),
            final(self).in_bounds(),
            final(self).spec_capacity() == old(self).spec_capacity(),
            final(self).spec_n_seq_max() == old(self).spec_n_seq_max(),
            r == if tokens@.len() == 0 {
                Ok(())
            } else if old(self).room() > 0 && old(self).spec_n_seq_max() == 0 {
                Err(LlamaError::TooManySeqIds { got: 1, max: 0 })
            } else if tokens@.len() > old(self).room() {
                Err(
                    LlamaError::BatchOverflow {
                        capacity: old(self).spec_capacity(),
                        index: old(self).spec_capacity(),
                    },
                )
            } else {
                Ok::<(), LlamaError>(())
            },
            final(self)@ == old(self)@ + prompt_entries(tokens@, seq_id, logits_all).take(
                if old(self).spec_n_seq_max() == 0 {
                    0
                } else if tokens@.len() > old(self).room() {
                    old(self).room()
                } else {
                    tokens@.len() as int
                },
            ),
            forall|k: int|
                0 <= k < old(self)@.len() ==> #[trigger] final(self)@[k] == old(self)@[k],
            forall|i: int|
                0 <= i < final(self)@.len() - old(self)@.len() ==> {
                    let entry = #[trigger] final(self)@[old(self)@.len() + i];
                    &&& entry.token == tokens@[i]
                    &&& entry.pos == i
                    &&& entry.seq_ids == seq![seq_id]
                    &&& entry.logits == (logits_all || i + 1 == tokens@.len())
                },
    {
        proof {
            use_type_invariant(&*self);
        }
        let ghost prompt = prompt_entries(tokens@, seq_id, logits_all);
        let mut seq_ids: Vec<i32> = Vec::new();
        seq_ids.push(seq_id);
        let mut i: usize = 0;
        assert(self@ =~= old(self)@ + prompt.take(0));
        while i < tokens.len()
            invariant
                self.in_bounds(),
                old(self).in_bounds(),
                i <= tokens@.len(),
                i <= old(self).room(),
                i > 0 ==> old(self).spec_n_seq_max() > 0,
                seq_ids@ == seq![seq_id],
                prompt == prompt_entries(tokens@, seq_id, logits_all),
                self.spec_capacity() == old(self).spec_capacity(),
                self.spec_n_seq_max() == old(self).spec_n_seq_max(),
                self@ == old(self)@ + prompt.take(i as int),
            decreases tokens@.len() - i,
        {
            let want_logits = logits_all || i + 1 == tokens.len();
            match self.add(tokens[i], i as i32, seq_ids.as_slice(), want_logits) {
                Ok(()) => {},
                Err(e) => return Err(e),
            }
            assert(prompt.take(i + 1) =~= prompt.take(i as int).push(prompt[i as int]));
            i += 1;
        }
        Ok(())
    }

    /// The tokens for the engine.
    pub fn as_raw(&self) -> (tokens: &[BatchToken])
        ensures
            self.in_bounds(),
            tokens@.map_values(|t: BatchToken| t@) == self@,
            forall|i: int|
                0 <= i < tokens@.len() ==> (#[trigger] tokens@[i]).seq_ids@.len()
                    <= self.spec_n_seq_max() && (tokens@[i].logits == 0 || tokens@[i].logits == 1),
            tokens@.len() == self@.len(),
            forall|i: int|
                0 <= i < tokens@.len() ==> {
                    let raw = #[trigger] tokens@[i];
                    &&& raw.token == self@[i].token.0
                    &&& raw.pos == self@[i].pos
                    &&& raw.seq_ids@ == self@[i].seq_ids
                    &&& raw.logits == 1 <==> self@[i].logits
                },
    {
        proof {
            use_type_invariant(self);
        }
        self.tokens.as_slice()
    }
}

/// A prompt for which not all logits are wanted asks for exactly one row of
/// them, that of its last token.
pub proof fn lemma_prompt_wants_last_logits(tokens: Seq<LlamaToken>, seq_id: i32)
    ensures
        forall|i: int|
            0 <= i < tokens.len() ==> ((#[trigger] prompt_entries(
                tokens,
                seq_id,
                false,
            )[i]).logits <==> i == tokens.len() - 1),
{
}

/// What a prompt does to a batch. Nothing that was there moves. Behind it stand the
/// first tokens of the prompt in order, all of them where there is room and as many
/// as there is room for otherwise. The one at index `i` stands at position `i`, in
/// the one sequence; so no two share a position, and each stands one further than
/// the one before it, however long the prompt is. The last token of the prompt wants
/// logits, and every other one wants them only where all do.
pub proof fn lemma_prompt_stands_in_order(
    batch: &mut LlamaBatch,
    tokens: &[LlamaToken],
    seq_id: i32,
    logits_all: bool,
    r: Result<(), LlamaError>,
)
    requires
        call_ensures(LlamaBatch::add_sequence, (batch, tokens, seq_id, logits_all), r),
    ensures
        ({
            let before = old(batch)@;
            let after = final(batch)@;
            let room = old(batch).spec_capacity() - before.len();
            let added = after.len() - before.len();
            &&& 0 <= added <= tokens@.len()
            &&& r is Ok <==> added == tokens@.len()
            &&& old(batch).spec_n_seq_max() == 0 ==> added == 0
            &&& old(batch).spec_n_seq_max() > 0 && tokens@.len() <= room ==> added
                == tokens@.len()
            &&& old(batch).spec_n_seq_max() > 0 && tokens@.len() > room ==> added == room
            &&& forall|k: int| 0 <= k < before.len() ==> #[trigger] after[k] == before[k]
            &&& forall|i: int|
                0 <= i < added ==> {
                    let entry = #[trigger] after[before.len() + i];
                    &&& entry.token == tokens@[i]
                    &&& entry.pos == i
                    &&& entry.seq_ids.len() == 1
                    &&& entry.seq_ids[0] == seq_id
                    &&& entry.logits <==> (logits_all || i == tokens@.len() - 1)
                }
            &&& forall|i: int, j: int|
                0 <= i < j < added ==> (#[trigger] after[before.len() + j]).pos - (
                #[trigger] after[before.len() + i]).pos == j - i
        }),
{
    let before = old(batch)@;
    let prompt = prompt_entries(tokens@, seq_id, logits_all);
    assert forall|i: int| 0 <= i < final(batch)@.len() - before.len() implies #[trigger] final(batch)@[before.len() + i] == prompt[i] by {}
}

/// What one token does to a batch: where there is room for it and it is in no more
/// sequences than a token may be, it stands behind the others just as it was given;
/// otherwise the batch is as it was.
pub proof fn lemma_token_stands_as_given(
    batch: &mut LlamaBatch,
    token: LlamaToken,
    pos: i32,
    seq_ids: &[i32],
    logits: bool,
    r: Result<(), LlamaError>,
)
    requires
        call_ensures(LlamaBatch::add, (batch, token, pos, seq_ids, logits), r),
    ensures
        r is Ok <==> old(batch)@.len() < old(batch).spec_capacity() && seq_ids@.len() <= old(batch).spec_n_seq_max(),
        r is Err ==> final(batch)@ == old(batch)@,
        r is Ok ==> {
            let added = final(batch)@.last();
            &&& final(batch)@.len() == old(batch)@.len() + 1
            &&& final(batch)@.drop_last() == old(batch)@
            &&& added.token == token
            &&& added.pos == pos
            &&& added.seq_ids == seq_ids@
            &&& added.logits == logits
        },
        r matches Err(LlamaError::BatchOverflow { capacity, index }) ==> capacity == old(batch).spec_capacity() && index == capacity,
        r matches Err(LlamaError::TooManySeqIds { got, max }) ==> got == seq_ids@.len() && max
            == old(batch).spec_n_seq_max(),
        r is Err ==> (r->Err_0 is BatchOverflow <==> old(batch)@.len() >= old(batch).spec_capacity()),
        r is Err ==> r->Err_0 is BatchOverflow || r->Err_0 is TooManySeqIds,
{
    assert(r is Ok ==> final(batch)@.drop_last() =~= old(batch)@);
    assert(seq_ids.len() == seq_ids@.len());
}

/// A new batch is empty and has the dimensions that it was made with; clearing one
/// empties it and keeps them.
pub proof fn lemma_batch_starts_empty(
    capacity: usize,
    n_seq_max: usize,
    made: LlamaBatch,
    batch: &mut LlamaBatch,
)
    requires
        call_ensures(LlamaBatch::new, (capacity, n_seq_max), made),
        call_ensures(LlamaBatch::clear, (batch,), ()),
    ensures
        made@.len() == 0,
        made.spec_capacity() == capacity,
        made.spec_n_seq_max() == n_seq_max,
        final(batch)@.len() == 0,
        final(batch).spec_capacity() == old(batch).spec_capacity(),
        final(batch).spec_n_seq_max() == old(batch).spec_n_seq_max(),
{
}

/// What the engine is handed is what the batch holds, entry by entry: the ids, the
/// positions and the sequences as they are, and 1 for logits that are wanted and 0
/// for others.
pub proof fn lemma_engine_sees_the_batch(batch: &LlamaBatch, tokens: &[BatchToken], n: i32)
    requires
        call_ensures(LlamaBatch::as_raw, (batch,), tokens),
        call_ensures(LlamaBatch::n_tokens, (batch,), n),
    ensures
        tokens@.len() == batch@.len(),
        n == batch@.len(),
        forall|i: int|
            0 <= i < batch@.len() ==> {
                let raw = #[trigger] tokens@[i];
                &&& raw.token == batch@[i].token.0
                &&& raw.pos == batch@[i].pos
                &&& raw.seq_ids@ == batch@[i].seq_ids
                &&& raw.logits == (if batch@[i].logits {
                    1i8
                } else {
                    0i8
                })
            },
{
    let seen = tokens@.map_values(|t: BatchToken| t@);
    assert forall|i: int| 0 <= i < batch@.len() implies seen[i] == (#[trigger] tokens@[i])@ by {}
}

} // verus!
