//! A candidate token with its logit and probability.

use vstd::prelude::*;

use crate::float::F32;
use crate::token::LlamaToken;

verus! {

/// A token id with its logit and its probability.
#[derive(Clone, Copy, Debug)]
pub struct LlamaTokenData {
    pub id: LlamaToken,
    pub logit: F32,
    pub p: F32,
}

impl LlamaTokenData {
    pub fn new(id: LlamaToken, logit: F32, p: F32) -> (data: LlamaTokenData)
        ensures
            data == (LlamaTokenData { id, logit, p }),
    {
        LlamaTokenData { id, logit, p }
    }

    pub fn id(&self) -> (id: LlamaToken)
        ensures
            id == self.id,
    {
        self.id
    }

    pub fn logit(&self) -> (logit: F32)
        ensures
            logit == self.logit,
    {
        self.logit
    }

    pub fn p(&self) -> (p: F32)
        ensures
            p == self.p,
    {
        self.p
    }

    pub fn set_id(&mut self, id: LlamaToken)
        ensures
            *final(self) == (LlamaTokenData { id, ..*old(self) }),
    {
        self.id = id;
    }

    pub fn set_logit(&mut self, logit: F32)
        ensures
            *final(self) == (LlamaTokenData { logit, ..*old(self) }),
    {
        self.logit = logit;
    }

    pub fn set_p(&mut self, p: F32)
        ensures
            *final(self) == (LlamaTokenData { p, ..*old(self) }),
    {
        self.p = p;
    }
}

impl PartialEq for LlamaTokenData {
    fn eq(&self, other: &LlamaTokenData) -> (r: bool) {
        self.id == other.id && self.logit == other.logit && self.p == other.p
    }
}

impl vstd::std_specs::cmp::PartialEqSpecImpl for LlamaTokenData {
    open spec fn obeys_eq_spec() -> bool {
        true
    }

    open spec fn eq_spec(&self, other: &LlamaTokenData) -> bool {
        self.id == other.id && self.logit.same_number(other.logit) && self.p.same_number(other.p)
    }
}

/// Two candidates are equal just where their ids are, and their logits and their
/// probabilities are the same numbers.
pub proof fn lemma_equal_candidates(a: LlamaTokenData, b: LlamaTokenData)
    ensures
        vstd::std_specs::cmp::PartialEqSpec::eq_spec(&a, &b) <==> {
            &&& a.id.0 == b.id.0
            &&& !a.logit.nan() && !b.logit.nan() && a.logit.units() == b.logit.units()
            &&& !a.p.nan() && !b.p.nan() && a.p.units() == b.p.units()
        },
        vstd::std_specs::cmp::PartialEqSpec::eq_spec(&a.logit, &b.logit) <==> !a.logit.nan()
            && !b.logit.nan() && a.logit.units() == b.logit.units(),
{
}

} // verus!
