//! The metadata of a loaded model.

use vstd::prelude::*;
use vstd::string::*;
use vstd::utf8::*;

use crate::cstr::CText;
use crate::model::LlamaModel;
use crate::step::{cut_to, Step};
use crate::text::string_from_utf8;

verus! {

/// Numbers of a model that the engine told.
#[derive(Clone, Copy, Debug, PartialEq, Eq, Structural)]
pub struct ModelFacts {
    /// The number of metadata pairs.
    pub meta_count: i32,
    /// The size of the model in bytes.
    pub size: u64,
    /// The number of parameters.
    pub n_params: u64,
    /// The length of context that the model was trained on.
    pub n_ctx_train: i32,
    /// The length of an embedding.
    pub n_embd: i32,
    /// The number of layers.
    pub n_layer: i32,
    /// The engine's number for the position encoding.
    pub rope_type: i32,
}

/// A text that the engine can be asked for.
#[derive(Debug, PartialEq, Eq)]
pub enum MetaQuery {
    /// The value of a key.
    ValStr(CText),
    /// A key, by its index.
    KeyByIndex(i32),
    /// A value, by its index.
    ValStrByIndex(i32),
    /// The description of the model.
    Desc,
}

/// A call for a text: first for its length, then for the text itself.
#[derive(Clone, Copy, Debug, PartialEq, Eq, Structural)]
pub enum StringCall {
    /// Without a buffer.
    Probe,
    /// With a buffer of `cap` bytes.
    Fill { cap: usize },
}

impl StringCall {
    /// Reads the engine's answer: the length of the text, which the buffer `buf`
    /// holds after the second call; a negative answer says that there is none.
    pub fn resume(self, n: i32, buf: Vec<u8>) -> (step: Step<StringCall, Option<String>>)
        ensures
            match self {
                StringCall::Probe => step == if n < 0 {
                    Step::Done(None::<String>)
                } else {
                    Step::Call(StringCall::Fill { cap: (n + 1) as usize })
                },
                StringCall::Fill { .. } => match step {
                    Step::Done(Some(text)) => {
                        &&& n >= 0
                        &&& valid_utf8(crate::step::cut(buf@, n as int))
                        &&& text@ == decode_utf8(crate::step::cut(buf@, n as int))
                    },
                    Step::Done(None) => n < 0 || !valid_utf8(crate::step::cut(buf@, n as int)),
                    Step::Call(_) => false,
                },
            },
    {
        if n < 0 {
            return Step::Done(None);
        }
        match self {
            StringCall::Probe => Step::Call(StringCall::Fill { cap: n as usize + 1 }),
            StringCall::Fill { .. } => match string_from_utf8(cut_to(buf, n)) {
                Ok(text) => Step::Done(Some(text)),
                Err(_) => Step::Done(None),
            },
        }
    }
}

impl LlamaModel {
    /// What to ask for the value of a key; no key holds a NUL.
    pub fn meta_val_str(&self, key: &str) -> (query: Option<MetaQuery>)
        ensures
            if crate::cstr::nul_free(encode_utf8(key@)) {
                query matches Some(MetaQuery::ValStr(text)) && text@ == encode_utf8(key@)
            } else {
                query is None
            },
    {
        match CText::from_str(key) {
            Ok(text) => Some(MetaQuery::ValStr(text)),
            Err(_) => None,
        }
    }

    /// What to ask for the key with index `index`.
    pub fn meta_key_by_index(&self, index: i32) -> (query: MetaQuery)
        ensures
            query == MetaQuery::KeyByIndex(index),
    {
        MetaQuery::KeyByIndex(index)
    }

    /// What to ask for the value with index `index`.
    pub fn meta_val_str_by_index(&self, index: i32) -> (query: MetaQuery)
        ensures
            query == MetaQuery::ValStrByIndex(index),
    {
        MetaQuery::ValStrByIndex(index)
    }

    /// The description of the model, from what the engine gave for
    /// [`MetaQuery::Desc`]; empty where it gave nothing.
    pub fn desc(&self, given: Option<String>) -> (text: String)
        ensures
            text@ == match given {
                Some(given) => given@,
                None => Seq::empty(),
            },
    {
        match given {
            Some(given) => given,
            None => String::new(),
        }
    }

    pub fn meta_count(&self) -> (n: i32)
        ensures
            n == self.facts.meta_count,
    {
        self.facts.meta_count
    }

    pub fn size(&self) -> (n: u64)
        ensures
            n == self.facts.size,
    {
        self.facts.size
    }

    pub fn n_params(&self) -> (n: u64)
        ensures
            n == self.facts.n_params,
    {
        self.facts.n_params
    }

    pub fn n_ctx_train(&self) -> (n: i32)
        ensures
            n == self.facts.n_ctx_train,
    {
        self.facts.n_ctx_train
    }

    pub fn n_embd(&self) -> (n: i32)
        ensures
            n == self.facts.n_embd,
    {
        self.facts.n_embd
    }

    pub fn n_layer(&self) -> (n: i32)
        ensures
            n == self.facts.n_layer,
    {
        self.facts.n_layer
    }

    pub fn rope_type(&self) -> (n: i32)
        ensures
            n == self.facts.rope_type,
    {
        self.facts.rope_type
    }
}

/// A text of the model comes whole. The engine's bytes for it are `text`, whose number
/// it answers to both calls, and it fills the buffer with them and a NUL behind them.
/// Then the second call has room for all of that, and what comes of it is the text of
/// the bytes, or nothing where they are no text; and nothing comes of a refusal.
pub proof fn lemma_text_comes_whole(
    text: Seq<u8>,
    n: i32,
    step: Step<StringCall, Option<String>>,
    buf: Vec<u8>,
    end: Step<StringCall, Option<String>>,
    refused: i32,
    none: Step<StringCall, Option<String>>,
    probed: Vec<u8>,
)
    requires
        n == text.len(),
        call_ensures(StringCall::resume, (StringCall::Probe, n, probed), step),
        step matches Step::Call(fill) ==> {
            &&& fill matches StringCall::Fill { cap } && buf@.len() == cap
            &&& buf@.len() > text.len() ==> buf@.take(text.len() as int) == text
            &&& call_ensures(StringCall::resume, (fill, n, buf), end)
        },
        refused < 0,
        call_ensures(StringCall::resume, (StringCall::Probe, refused, probed), none),
    ensures
        step is Call,
        step->Call_0 is Fill,
        step->Call_0->cap == text.len() + 1,
        end is Done,
        end->Done_0 is Some <==> valid_utf8(text),
        end->Done_0 is Some ==> encode_utf8(end->Done_0->0@) == text,
        none is Done,
        none->Done_0 is None,
{
    if valid_utf8(text) {
        decode_utf8_encode_utf8(text);
    }
}

} // verus!
