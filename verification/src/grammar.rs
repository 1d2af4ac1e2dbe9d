//! Grammar constraints and the repetition sampler.

use vstd::prelude::*;
use vstd::string::*;
use vstd::utf8::*;

use crate::cstr::{CText, NulError};
use crate::float::F32;
use crate::text::string_from_utf8;

verus! {

/// A grammar could not be made.
#[derive(Debug, PartialEq, Eq)]
pub enum GrammarInitError {
    /// The grammar, its root or a trigger word held a NUL.
    Nul(NulError),
    /// The grammar does not parse.
    Parse,
}

/// The repetition sampler could not be made.
#[derive(Debug, PartialEq, Eq)]
pub enum DryInitError {
    /// A sequence breaker held a NUL.
    Nul(NulError),
    /// The engine could not make the sampler.
    Init,
}

/// A JSON schema could not be turned into a grammar.
#[derive(Debug, PartialEq, Eq)]
pub enum JsonSchemaError {
    /// The schema held a NUL.
    Nul(NulError),
    /// The engine's status.
    Convert(i32),
    /// The grammar is no UTF-8.
    Utf8,
}

/// A grammar as the engine takes it.
#[derive(Debug, PartialEq, Eq)]
pub struct GrammarSource {
    pub grammar: CText,
    pub root: CText,
}

/// What a lazy grammar waits for.
#[derive(Debug, PartialEq, Eq)]
pub struct GrammarTriggers {
    pub words: Vec<CText>,
    pub tokens: Vec<i32>,
}

/// A grammar of the engine; `grammar` tells the engine's grammars apart.
#[derive(Debug, PartialEq, Eq)]
pub struct LlamaGrammar {
    pub grammar: u64,
}

/// The grammar and its root are text for the engine, or the error points at the
/// first NUL of the first of the two that has one.
pub open spec fn is_source(
    grammar: Seq<char>,
    root: Seq<char>,
    r: Result<GrammarSource, NulError>,
) -> bool {
    match r {
        Ok(source) => {
            &&& crate::cstr::nul_free(encode_utf8(grammar))
            &&& crate::cstr::nul_free(encode_utf8(root))
            &&& source.grammar@ == encode_utf8(grammar)
            &&& source.root@ == encode_utf8(root)
        },
        Err(e) => {
            ||| e.found_in(encode_utf8(grammar))
            ||| crate::cstr::nul_free(encode_utf8(grammar)) && e.found_in(encode_utf8(root))
        },
    }
}

impl GrammarSource {
    pub fn new(grammar: &str, root: &str) -> (r: Result<GrammarSource, NulError>)
        ensures
            is_source(grammar@, root@, r),
    {
        let grammar = match CText::from_str(grammar) {
            Ok(text) => text,
            Err(e) => return Err(e),
        };
        let root = match CText::from_str(root) {
            Ok(text) => text,
            Err(e) => return Err(e),
        };
        Ok(GrammarSource { grammar, root })
    }
}

/// Every one of `items` is text for the engine, or the error points at the first
/// NUL of the first that has one.
pub open spec fn are_c_texts(items: Seq<Seq<u8>>, r: Result<Vec<CText>, NulError>) -> bool {
    match r {
        Ok(texts) => {
            &&& texts@.len() == items.len()
            &&& forall|i: int|
                0 <= i < items.len() ==> crate::cstr::nul_free(#[trigger] items[i]) && texts@[i]@
                    == items[i]
        },
        Err(e) => exists|k: int|
            {
                &&& 0 <= k < items.len()
                &&& e.found_in(#[trigger] items[k])
                &&& forall|i: int| 0 <= i < k ==> crate::cstr::nul_free(#[trigger] items[i])
            },
    }
}

/// The bytes of each of `strings`.
pub open spec fn encodings(strings: Seq<String>) -> Seq<Seq<u8>> {
    strings.map_values(|s: String| encode_utf8(s@))
}

/// The contents of each of `items`.
pub open spec fn contents(items: Seq<Vec<u8>>) -> Seq<Seq<u8>> {
    items.map_values(|v: Vec<u8>| v@)
}

pub fn texts_from_bytes(items: Vec<Vec<u8>>) -> (r: Result<Vec<CText>, NulError>)
    ensures
        are_c_texts(contents(items@), r),
{
    let ghost all = contents(items@);
    let mut texts: Vec<CText> = Vec::new();
    let mut i: usize = 0;
    while i < items.len()
        invariant
            i <= items@.len(),
            all == contents(items@),
            texts@.len() == i,
            forall|k: int|
                0 <= k < i ==> crate::cstr::nul_free(#[trigger] all[k]) && texts@[k]@ == all[k],
        decreases items@.len() - i,
    {
        match CText::new(items[i].clone()) {
            Ok(text) => texts.push(text),
            Err(e) => {
                assert(e.found_in(all[i as int]));
                return Err(e);
            },
        }
        i += 1;
    }
    Ok(texts)
}

pub fn texts_from_strings(items: &Vec<String>) -> (r: Result<Vec<CText>, NulError>)
    ensures
        are_c_texts(encodings(items@), r),
{
    let ghost all = encodings(items@);
    let mut texts: Vec<CText> = Vec::new();
    let mut i: usize = 0;
    while i < items.len()
        invariant
            i <= items@.len(),
            all == encodings(items@),
            texts@.len() == i,
            forall|k: int|
                0 <= k < i ==> crate::cstr::nul_free(#[trigger] all[k]) && texts@[k]@ == all[k],
        decreases items@.len() - i,
    {
        match CText::from_str(items[i].as_str()) {
            Ok(text) => texts.push(text),
            Err(e) => {
                assert(e.found_in(all[i as int]));
                return Err(e);
            },
        }
        i += 1;
    }
    Ok(texts)
}

/// As [`is_source`], as the constructors of grammars report it.
pub open spec fn is_grammar_source(
    grammar: Seq<char>,
    root: Seq<char>,
    r: Result<GrammarSource, GrammarInitError>,
) -> bool {
    match r {
        Ok(source) => is_source(grammar, root, Ok(source)),
        Err(GrammarInitError::Nul(e)) => is_source(grammar, root, Err(e)),
        Err(GrammarInitError::Parse) => false,
    }
}

impl LlamaGrammar {
    /// The first half of making a grammar: what the engine is to parse.
    pub fn new(grammar_str: &str, root: &str) -> (r: Result<GrammarSource, GrammarInitError>)
        ensures
            is_grammar_source(grammar_str@, root@, r),
    {
        match GrammarSource::new(grammar_str, root) {
            Ok(source) => Ok(source),
            Err(e) => Err(GrammarInitError::Nul(e)),
        }
    }

    /// The second half: `parsed` is the engine's grammar, or nothing where it
    /// did not parse.
    pub fn parsed(parsed: Option<u64>) -> (r: Result<LlamaGrammar, GrammarInitError>)
        ensures
            r == match parsed {
                Some(grammar) => Ok::<LlamaGrammar, GrammarInitError>(LlamaGrammar { grammar }),
                None => Err(GrammarInitError::Parse),
            },
    {
        match parsed {
            Some(grammar) => Ok(LlamaGrammar { grammar }),
            None => Err(GrammarInitError::Parse),
        }
    }
}

/// Settings of the repetition sampler.
#[derive(Clone, Debug)]
pub struct DryParams {
    /// Strength of the penalty; zero switches the sampler off.
    pub multiplier: F32,
    /// Base of the penalty's growth with the length of the repetition.
    pub base: F32,
    /// The longest repetition without a penalty.
    pub allowed_length: i32,
    /// How many tokens to look back: all of them at -1, none at 0.
    pub penalty_last_n: i32,
    /// What ends a repetition.
    pub seq_breakers: Vec<String>,
}

/// The bits of 1.75.
pub const DRY_BASE: u32 = 0x3fe0_0000;

impl DryParams {
    /// Switched off, with the engine's usual settings.
    pub open spec fn is_default(self) -> bool {
        &&& self.multiplier.bits == 0
        &&& self.base.bits == DRY_BASE
        &&& self.allowed_length == 2
        &&& self.penalty_last_n == -1
        &&& self.seq_breakers@.len() == 4
        &&& self.seq_breakers@[0]@ == seq!['\n']
        &&& self.seq_breakers@[1]@ == seq![':']
        &&& self.seq_breakers@[2]@ == seq!['"']
        &&& self.seq_breakers@[3]@ == seq!['*']
    }
}

impl Default for DryParams {
    fn default() -> (params: DryParams)
        ensures
            params.is_default(),
    {
        proof {
            reveal_strlit("\n");
            reveal_strlit(":");
            reveal_strlit("\"");
            reveal_strlit("*");
        }
        let mut seq_breakers: Vec<String> = Vec::new();
        seq_breakers.push("\n".to_owned());
        seq_breakers.push(":".to_owned());
        seq_breakers.push("\"".to_owned());
        seq_breakers.push("*".to_owned());
        assert(seq_breakers@[0]@ =~= seq!['\n']);
        assert(seq_breakers@[1]@ =~= seq![':']);
        assert(seq_breakers@[2]@ =~= seq!['"']);
        assert(seq_breakers@[3]@ =~= seq!['*']);
        DryParams {
            multiplier: F32::from_bits(0),
            base: F32::from_bits(DRY_BASE),
            allowed_length: 2,
            penalty_last_n: -1,
            seq_breakers,
        }
    }
}

/// The settings of the repetition sampler as the engine takes them.
#[derive(Debug)]
pub struct DrySettings {
    pub multiplier: F32,
    pub base: F32,
    pub allowed_length: i32,
    pub penalty_last_n: i32,
    pub seq_breakers: Vec<CText>,
}

/// The engine's repetition sampler; `dry` tells the engine's samplers apart.
#[derive(Debug, PartialEq, Eq)]
pub struct LlamaDrySampler {
    pub dry: u64,
}

impl LlamaDrySampler {
    /// The first half of making the sampler: what the engine is to be given.
    pub fn new(params: &DryParams) -> (r: Result<DrySettings, DryInitError>)
        ensures
            match r {
                Ok(settings) => {
                    &&& settings.multiplier == params.multiplier
                    &&& settings.base == params.base
                    &&& settings.allowed_length == params.allowed_length
                    &&& settings.penalty_last_n == params.penalty_last_n
                    &&& are_c_texts(encodings(params.seq_breakers@), Ok(settings.seq_breakers))
                },
                Err(DryInitError::Nul(e)) => are_c_texts(
                    encodings(params.seq_breakers@),
                    Err(e),
                ),
                Err(DryInitError::Init) => false,
            },
    {
        match texts_from_strings(&params.seq_breakers) {
            Ok(seq_breakers) => Ok(
                DrySettings {
                    multiplier: params.multiplier,
                    base: params.base,
                    allowed_length: params.allowed_length,
                    penalty_last_n: params.penalty_last_n,
                    seq_breakers,
                },
            ),
            Err(e) => Err(DryInitError::Nul(e)),
        }
    }

    /// The second half: `made` is the engine's sampler, if it made one.
    pub fn made(made: Option<u64>) -> (r: Result<LlamaDrySampler, DryInitError>)
        ensures
            r == match made {
                Some(dry) => Ok::<LlamaDrySampler, DryInitError>(LlamaDrySampler { dry }),
                None => Err(DryInitError::Init),
            },
    {
        match made {
            Some(dry) => Ok(LlamaDrySampler { dry }),
            None => Err(DryInitError::Init),
        }
    }
}

/// A call that turns a JSON schema into a grammar.
#[derive(Debug, PartialEq, Eq)]
pub struct SchemaCall {
    pub schema: CText,
    /// The one switch that the engine's converter has. It is never on.
    pub switch: bool,
}

/// The first half of turning a JSON schema into a grammar: the schema as the
/// engine takes it.
pub fn json_schema_to_grammar(schema_json: &str) -> (r: Result<SchemaCall, JsonSchemaError>)
    ensures
        match r {
            Ok(call) => {
                &&& crate::cstr::is_c_text(encode_utf8(schema_json@), Ok(call.schema))
                &&& !call.switch
            },
            Err(JsonSchemaError::Nul(e)) => crate::cstr::is_c_text(
                encode_utf8(schema_json@),
                Err(e),
            ),
            Err(_) => false,
        },
{
    match CText::from_str(schema_json) {
        Ok(schema) => Ok(SchemaCall { schema, switch: false }),
        Err(e) => Err(JsonSchemaError::Nul(e)),
    }
}

/// The second half: the grammar that the engine wrote, if its status is zero
/// and it wrote one.
pub fn converted_grammar(status: i32, written: Option<Vec<u8>>) -> (r: Result<
    String,
    JsonSchemaError,
>)
    ensures
        match r {
            Ok(grammar) => {
                &&& status == 0
                &&& written is Some
                &&& valid_utf8(written->0@)
                &&& grammar@ == decode_utf8(written->0@)
            },
            Err(JsonSchemaError::Convert(code)) => code == status && (status != 0
                || written is None),
            Err(JsonSchemaError::Utf8) => status == 0 && written is Some && !valid_utf8(
                written->0@,
            ),
            Err(JsonSchemaError::Nul(_)) => false,
        },
{
    match written {
        Some(bytes) if status == 0 => match string_from_utf8(bytes) {
            Ok(grammar) => Ok(grammar),
            Err(_) => Err(JsonSchemaError::Utf8),
        },
        _ => Err(JsonSchemaError::Convert(status)),
    }
}

/// A grammar and its root go to the engine as they are written, each as itself; they
/// are refused just where one holds a NUL, the grammar's before the root's.
pub proof fn lemma_grammar_goes_as_written(
    grammar: &str,
    root: &str,
    r: Result<GrammarSource, GrammarInitError>,
)
    requires
        call_ensures(LlamaGrammar::new, (grammar, root), r),
    ensures
        r is Ok <==> !grammar@.contains('\0') && !root@.contains('\0'),
        r matches Ok(source) ==> {
            &&& source.grammar@ == encode_utf8(grammar@)
            &&& source.root@ == encode_utf8(root@)
        },
        r is Err ==> r->Err_0 is Nul,
        r matches Err(GrammarInitError::Nul(e)) ==> e.bytes@ == if grammar@.contains('\0') {
            encode_utf8(grammar@)
        } else {
            encode_utf8(root@)
        },
{
    lemma_source_is_as_written(grammar@, root@, r);
}

/// As [`lemma_grammar_goes_as_written`], for whatever becomes of a grammar and a root.
pub proof fn lemma_source_is_as_written(
    grammar: Seq<char>,
    root: Seq<char>,
    r: Result<GrammarSource, GrammarInitError>,
)
    requires
        is_grammar_source(grammar, root, r),
    ensures
        r is Ok <==> !grammar.contains('\0') && !root.contains('\0'),
        r matches Ok(source) ==> {
            &&& source.grammar@ == encode_utf8(grammar)
            &&& source.root@ == encode_utf8(root)
        },
        r is Err ==> r->Err_0 is Nul,
        r matches Err(GrammarInitError::Nul(e)) ==> e.bytes@ == if grammar.contains('\0') {
            encode_utf8(grammar)
        } else {
            encode_utf8(root)
        },
{
    crate::cstr::lemma_nul_byte_iff_nul_char(grammar);
    crate::cstr::lemma_nul_byte_iff_nul_char(root);
    if let Err(GrammarInitError::Nul(e)) = r {
        if e.found_in(encode_utf8(grammar)) {
            crate::cstr::lemma_error_points_at_the_first_nul(e, encode_utf8(grammar));
        }
        if e.found_in(encode_utf8(root)) {
            crate::cstr::lemma_error_points_at_the_first_nul(e, encode_utf8(root));
        }
    }
}

/// Words go to the engine one by one and in order, as the bytes that they are; they are
/// refused just where one of them holds a NUL, and then the first of these is named.
pub proof fn lemma_words_go_as_written(items: Vec<Vec<u8>>, r: Result<Vec<CText>, NulError>)
    requires
        call_ensures(texts_from_bytes, (items,), r),
    ensures
        r is Ok <==> forall|i: int, j: int|
            0 <= i < items@.len() && 0 <= j < items@[i]@.len() ==> #[trigger] items@[i]@[j] != 0,
        r matches Ok(texts) ==> {
            &&& texts@.len() == items@.len()
            &&& forall|i: int| 0 <= i < items@.len() ==> (#[trigger] texts@[i])@ == items@[i]@
        },
        r matches Err(e) ==> exists|k: int|
            {
                &&& 0 <= k < items@.len()
                &&& e.bytes@ == (#[trigger] items@[k])@
                &&& forall|i: int, j: int|
                    0 <= i < k && 0 <= j < items@[i]@.len() ==> #[trigger] items@[i]@[j] != 0
            },
{
    let all = contents(items@);
    assert(all.len() == items@.len());
    assert(forall|i: int| 0 <= i < all.len() ==> #[trigger] all[i] == items@[i]@);
    match r {
        Ok(texts) => {
            assert forall|i: int, j: int|
                0 <= i < items@.len() && 0 <= j < items@[i]@.len() implies #[trigger] items@[i]@[j]
                != 0 by {
                assert(crate::cstr::nul_free(all[i]));
            }
            assert forall|i: int| 0 <= i < items@.len() implies (#[trigger] texts@[i])@
                == items@[i]@ by {
                assert(crate::cstr::nul_free(all[i]));
            }
        },
        Err(e) => {
            let k = choose|k: int|
                {
                    &&& 0 <= k < all.len()
                    &&& e.found_in(#[trigger] all[k])
                    &&& forall|i: int| 0 <= i < k ==> crate::cstr::nul_free(#[trigger] all[i])
                };
            crate::cstr::lemma_error_points_at_the_first_nul(e, all[k]);
            assert(items@[k]@[e.position as int] == 0);
            assert forall|i: int, j: int|
                0 <= i < k && 0 <= j < items@[i]@.len() implies #[trigger] items@[i]@[j] != 0 by {
                assert(crate::cstr::nul_free(all[i]));
            }
            assert(e.bytes@ == items@[k]@);
        },
    }
}

/// The settings of the repetition sampler go to the engine as they are, and each
/// breaker as its encoding, in order; they are refused just where a breaker holds a
/// NUL.
pub proof fn lemma_repetition_settings_go_as_they_are(
    params: DryParams,
    r: Result<DrySettings, DryInitError>,
)
    requires
        call_ensures(LlamaDrySampler::new, (&params,), r),
    ensures
        r is Err ==> r->Err_0 is Nul,
        r is Ok <==> forall|i: int|
            0 <= i < params.seq_breakers@.len() ==> !(#[trigger] params.seq_breakers@[i])@.contains(
                '\0',
            ),
        r matches Ok(settings) ==> {
            &&& settings.multiplier == params.multiplier
            &&& settings.base == params.base
            &&& settings.allowed_length == params.allowed_length
            &&& settings.penalty_last_n == params.penalty_last_n
            &&& settings.seq_breakers@.len() == params.seq_breakers@.len()
            &&& forall|i: int|
                0 <= i < params.seq_breakers@.len() ==> (#[trigger] settings.seq_breakers@[i])@
                    == encode_utf8(params.seq_breakers@[i]@)
        },
{
    let all = encodings(params.seq_breakers@);
    assert(all.len() == params.seq_breakers@.len());
    assert forall|i: int| 0 <= i < all.len() implies all[i] == encode_utf8(
        params.seq_breakers@[i]@,
    ) && (crate::cstr::nul_free(#[trigger] all[i]) <==> !params.seq_breakers@[i]@.contains('\0')) by {
        crate::cstr::lemma_nul_byte_iff_nul_char(params.seq_breakers@[i]@);
    }
    match r {
        Ok(settings) => {
            assert forall|i: int| 0 <= i < all.len() implies !(
            #[trigger] params.seq_breakers@[i])@.contains('\0') by {
                assert(crate::cstr::nul_free(all[i]));
            }
            assert forall|i: int| 0 <= i < all.len() implies (
            #[trigger] settings.seq_breakers@[i])@ == encode_utf8(params.seq_breakers@[i]@) by {
                assert(crate::cstr::nul_free(all[i]));
            }
        },
        Err(DryInitError::Nul(e)) => {
            let k = choose|k: int|
                {
                    &&& 0 <= k < all.len()
                    &&& e.found_in(#[trigger] all[k])
                    &&& forall|i: int| 0 <= i < k ==> crate::cstr::nul_free(#[trigger] all[i])
                };
            crate::cstr::lemma_error_points_at_the_first_nul(e, all[k]);
            assert(params.seq_breakers@[k]@.contains('\0'));
        },
        Err(DryInitError::Init) => {},
    }
}

/// By default the repetition sampler is off, penalizes what is longer than two tokens
/// by powers of 1.75 over all that was accepted, and takes a line break, a colon, a
/// quotation mark and an asterisk for the end of a repetition.
pub proof fn lemma_repetition_sampler_is_off_by_default(params: DryParams)
    requires
        params.is_default(),
    ensures
        params.multiplier.units() == 0,
        params.base.bits == 0x3fe0_0000,
        params.allowed_length == 2,
        params.penalty_last_n == -1,
        params.seq_breakers@.len() == 4,
        params.seq_breakers@[0]@ == seq!['\n'],
        params.seq_breakers@[1]@ == seq![':'],
        params.seq_breakers@[2]@ == seq!['"'],
        params.seq_breakers@[3]@ == seq!['*'],
{
}

/// A schema goes to the engine as it is written, with the converter's switch off.
pub proof fn lemma_schema_goes_as_written(
    schema_json: &str,
    r: Result<SchemaCall, JsonSchemaError>,
)
    requires
        call_ensures(json_schema_to_grammar, (schema_json,), r),
    ensures
        r is Ok <==> !schema_json@.contains('\0'),
        r matches Ok(call) ==> call.schema@ == encode_utf8(schema_json@) && !call.switch,
        r is Err ==> r->Err_0 is Nul,
{
    crate::cstr::lemma_nul_byte_iff_nul_char(schema_json@);
}

/// A converted grammar is the text that the engine wrote, just where its status is zero
/// and what it wrote is text; otherwise the error says which of these failed.
pub proof fn lemma_converted_grammar_is_what_was_written(
    status: i32,
    written: Option<Vec<u8>>,
    r: Result<String, JsonSchemaError>,
)
    requires
        call_ensures(converted_grammar, (status, written), r),
    ensures
        r is Ok <==> status == 0 && written is Some && valid_utf8(written->0@),
        r is Ok ==> encode_utf8(r->Ok_0@) == written->0@,
        r is Err ==> (r->Err_0 is Utf8 <==> status == 0 && written is Some),
        r is Err ==> (r->Err_0 is Convert <==> status != 0 || written is None),
        r is Err && r->Err_0 is Convert ==> r->Err_0->Convert_0 == status,
{
    if r is Ok {
        decode_utf8_encode_utf8(written->0@);
    }
}

} // verus!
