//! Token ids.

pub mod data;
pub mod data_array;

use vstd::prelude::*;

verus! {

/// One entry of the vocabulary, by its id.
#[derive(Debug, Clone, Copy, PartialEq, Eq, Structural, Hash, PartialOrd, Ord)]
pub struct LlamaToken(pub i32);

impl LlamaToken {
    pub fn new(id: i32) -> (token: LlamaToken)
        ensures
            token.0 == id,
    {
        LlamaToken(id)
    }

    pub fn raw(self) -> (id: i32)
        ensures
            id == self.0,
    {
        self.0
    }
}

/// The raw ids of `tokens`, in order.
pub open spec fn ids_of(tokens: Seq<LlamaToken>) -> Seq<i32> {
    tokens.map_values(|t: LlamaToken| t.0)
}

/// `ids` as tokens, in order.
pub open spec fn tokens_of(ids: Seq<i32>) -> Seq<LlamaToken> {
    ids.map_values(|id: i32| LlamaToken(id))
}

/// The raw ids of `tokens`, as the engine takes them.
pub fn raw_ids(tokens: &[LlamaToken]) -> (ids: Vec<i32>)
    ensures
        ids@ == ids_of(tokens@),
{
    let mut ids: Vec<i32> = Vec::new();
    let mut i: usize = 0;
    while i < tokens.len()
        invariant
            i <= tokens@.len(),
            ids@ == ids_of(tokens@.take(i as int)),
        decreases tokens@.len() - i,
    {
        ids.push(tokens[i].0);
        i += 1;
        assert(ids@ =~= ids_of(tokens@.take(i as int)));
    }
    assert(tokens@.take(i as int) =~= tokens@);
    ids
}

/// Ids that the engine handed back, as tokens.
pub fn from_raw_ids(ids: &[i32]) -> (tokens: Vec<LlamaToken>)
    ensures
        tokens@ == tokens_of(ids@),
{
    let mut tokens: Vec<LlamaToken> = Vec::new();
    let mut i: usize = 0;
    while i < ids.len()
        invariant
            i <= ids@.len(),
            tokens@ == tokens_of(ids@.take(i as int)),
        decreases ids@.len() - i,
    {
        tokens.push(LlamaToken(ids[i]));
        i += 1;
        assert(tokens@ =~= tokens_of(ids@.take(i as int)));
    }
    assert(ids@.take(i as int) =~= ids@);
    tokens
}

/// Handing tokens to the engine and taking them back changes nothing.
pub proof fn lemma_raw_ids_round_trip(tokens: Seq<LlamaToken>, ids: Seq<i32>)
    ensures
        tokens_of(ids_of(tokens)) == tokens,
        ids_of(tokens_of(ids)) == ids,
{
    assert(tokens_of(ids_of(tokens)) =~= tokens);
    assert(ids_of(tokens_of(ids)) =~= ids);
}

/// Tokens go to the engine, and come back from it, one by one and in order, by their
/// ids.
pub proof fn lemma_ids_are_those_of_the_tokens(
    tokens: &[LlamaToken],
    ids: Vec<i32>,
    raw: &[i32],
    read: Vec<LlamaToken>,
)
    requires
        call_ensures(raw_ids, (tokens,), ids),
        call_ensures(from_raw_ids, (raw,), read),
    ensures
        ids@.len() == tokens@.len(),
        forall|i: int| 0 <= i < tokens@.len() ==> #[trigger] ids@[i] == tokens@[i].0,
        read@.len() == raw@.len(),
        forall|i: int| 0 <= i < raw@.len() ==> (#[trigger] read@[i]).0 == raw@[i],
{
}

} // verus!
