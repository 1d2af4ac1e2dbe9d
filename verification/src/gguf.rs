//! The metadata of a model file.
//!
//! A [`GgufContext`] holds what the header of a file says: key-value pairs and
//! the list of tensors. No weights are read.

use vstd::prelude::*;
use vstd::utf8::*;

use crate::cstr::{CText, NulError};
use crate::float::{F32, F64};
use crate::path::{path_text, PathError};
use crate::text::str_from_utf8;

verus! {

/// A file could not be opened.
#[derive(Debug, PartialEq, Eq)]
pub enum GgufError {
    /// The path held a NUL.
    Nul(NulError),
    /// The path is no text.
    InvalidPath,
    /// The file is missing or no model file.
    Init(String),
}

/// The type of a value.
#[derive(Clone, Copy, Debug, PartialEq, Eq, Structural)]
pub enum GgufType {
    U8,
    I8,
    U16,
    I16,
    U32,
    I32,
    F32,
    U64,
    I64,
    F64,
    Bool,
    Str,
    Arr,
    /// Any other, by the engine's number.
    Other(u32),
}

/// An array: its element type and its length, and the elements where these are
/// strings, as far as the engine has them.
#[derive(Debug)]
pub struct GgufArray {
    pub kind: GgufType,
    pub len: i32,
    pub strings: Vec<Option<CText>>,
}

/// A value.
#[derive(Debug)]
pub enum GgufValue {
    U8(u8),
    I8(i8),
    U16(u16),
    I16(i16),
    U32(u32),
    I32(i32),
    F32(F32),
    U64(u64),
    I64(i64),
    F64(F64),
    Bool(bool),
    /// A string, where the engine has one.
    Str(Option<CText>),
    Arr(GgufArray),
    /// A value of another type.
    Other(u32),
}

/// A key, where the engine has one, with its value.
#[derive(Debug)]
pub struct GgufPair {
    pub key: Option<CText>,
    pub value: GgufValue,
}

/// A tensor, as the header describes it.
#[derive(Debug)]
pub struct GgufTensor {
    /// The name, where the engine has one.
    pub name: Option<CText>,
    /// The engine's number for the type of the elements.
    pub kind: i32,
    /// Where the data begins, from the start of all data.
    pub offset: usize,
}

/// The metadata of a file.
#[derive(Debug)]
pub struct GgufContext {
    pub version: i32,
    pub alignment: usize,
    pub pairs: Vec<GgufPair>,
    pub tensors: Vec<GgufTensor>,
}

/// A call that opens a file.
#[derive(Debug, PartialEq, Eq)]
pub struct OpenCall {
    pub path: CText,
    /// Whether the weights stay in the file.
    pub no_alloc: bool,
}

impl GgufValue {
    pub open spec fn spec_kind(self) -> GgufType {
        match self {
            GgufValue::U8(_) => GgufType::U8,
            GgufValue::I8(_) => GgufType::I8,
            GgufValue::U16(_) => GgufType::U16,
            GgufValue::I16(_) => GgufType::I16,
            GgufValue::U32(_) => GgufType::U32,
            GgufValue::I32(_) => GgufType::I32,
            GgufValue::F32(_) => GgufType::F32,
            GgufValue::U64(_) => GgufType::U64,
            GgufValue::I64(_) => GgufType::I64,
            GgufValue::F64(_) => GgufType::F64,
            GgufValue::Bool(_) => GgufType::Bool,
            GgufValue::Str(_) => GgufType::Str,
            GgufValue::Arr(_) => GgufType::Arr,
            GgufValue::Other(raw) => GgufType::Other(raw),
        }
    }

    pub fn kind(&self) -> (kind: GgufType)
        ensures
            kind == self.spec_kind(),
    {
        match self {
            GgufValue::U8(_) => GgufType::U8,
            GgufValue::I8(_) => GgufType::I8,
            GgufValue::U16(_) => GgufType::U16,
            GgufValue::I16(_) => GgufType::I16,
            GgufValue::U32(_) => GgufType::U32,
            GgufValue::I32(_) => GgufType::I32,
            GgufValue::F32(_) => GgufType::F32,
            GgufValue::U64(_) => GgufType::U64,
            GgufValue::I64(_) => GgufType::I64,
            GgufValue::F64(_) => GgufType::F64,
            GgufValue::Bool(_) => GgufType::Bool,
            GgufValue::Str(_) => GgufType::Str,
            GgufValue::Arr(_) => GgufType::Arr,
            GgufValue::Other(raw) => GgufType::Other(*raw),
        }
    }
}

/// `text` is what there is to read of a string: nothing where the engine has none
/// or where it is no UTF-8.
pub open spec fn reads_as(string: Option<CText>, text: Option<&str>) -> bool {
    match string {
        Some(bytes) => match text {
            Some(text) => valid_utf8(bytes@) && text@ == decode_utf8(bytes@),
            None => !valid_utf8(bytes@),
        },
        None => text is None,
    }
}

fn read_text(string: &Option<CText>) -> (text: Option<&str>)
    ensures
        reads_as(*string, text),
{
    match string {
        Some(bytes) => match str_from_utf8(bytes.as_bytes()) {
            Ok(text) => Some(text),
            Err(_) => None,
        },
        None => None,
    }
}

impl GgufPair {
    /// The key has these bytes.
    pub open spec fn has_key(self, bytes: Seq<u8>) -> bool {
        self.key matches Some(key) && key@ == bytes
    }
}

fn same_bytes(a: &[u8], b: &[u8]) -> (same: bool)
    ensures
        same == (a@ == b@),
{
    if a.len() != b.len() {
        return false;
    }
    let mut i: usize = 0;
    while i < a.len()
        invariant
            i <= a@.len(),
            a@.len() == b@.len(),
            forall|k: int| 0 <= k < i ==> a@[k] == b@[k],
        decreases a@.len() - i,
    {
        if a[i] != b[i] {
            return false;
        }
        i += 1;
    }
    assert(a@ =~= b@);
    true
}

impl GgufContext {
    /// The counts fit the engine's indices, and an array of strings has as many
    /// of them as it says.
    pub open spec fn wf(&self) -> bool {
        &&& self.pairs@.len() <= i32::MAX
        &&& self.tensors@.len() <= i32::MAX
        &&& forall|i: int|
            0 <= i < self.pairs@.len() ==> ((#[trigger] self.pairs@[i]).value matches GgufValue::Arr(
                arr,
            ) ==> arr.len >= 0 && (arr.kind == GgufType::Str ==> arr.strings@.len() == arr.len))
    }

    /// `idx` is the index of a pair.
    pub open spec fn has_pair(&self, idx: i32) -> bool {
        0 <= idx < self.pairs@.len()
    }

    /// `idx` is the index of a pair whose value is of type `kind`.
    pub open spec fn holds(&self, idx: i32, kind: GgufType) -> bool {
        self.has_pair(idx) && self.pairs@[idx as int].value.spec_kind() == kind
    }

    /// `i` is the index of a tensor.
    pub open spec fn has_tensor(&self, i: i32) -> bool {
        0 <= i < self.tensors@.len()
    }

    /// The first half of opening a file: its path as the engine takes it. No
    /// weights are to be loaded.
    pub fn from_file(path: Option<&str>) -> (r: Result<OpenCall, GgufError>)
        ensures
            match r {
                Ok(call) => {
                    &&& crate::path::is_path_text(crate::path::path_chars(path), Ok(call.path))
                    &&& call.no_alloc
                },
                Err(GgufError::InvalidPath) => path is None,
                Err(GgufError::Nul(e)) => crate::path::is_path_text(
                    crate::path::path_chars(path),
                    Err(PathError::Nul(e)),
                ),
                Err(GgufError::Init(_)) => false,
            },
    {
        match path_text(path) {
            Ok(path) => Ok(OpenCall { path, no_alloc: true }),
            Err(PathError::NotText) => Err(GgufError::InvalidPath),
            Err(PathError::Nul(e)) => Err(GgufError::Nul(e)),
        }
    }

    /// The second half: what the engine read of the file, if it could. `shown`
    /// is the path for the message.
    pub fn opened(shown: String, read: Option<GgufContext>) -> (r: Result<GgufContext, GgufError>)
        ensures
            r == match read {
                Some(gguf) => Ok::<GgufContext, GgufError>(gguf),
                None => Err(GgufError::Init(shown)),
            },
    {
        match read {
            Some(gguf) => Ok(gguf),
            None => Err(GgufError::Init(shown)),
        }
    }

    pub fn version(&self) -> (version: i32)
        ensures
            version == self.version,
    {
        self.version
    }

    pub fn alignment(&self) -> (alignment: usize)
        ensures
            alignment == self.alignment,
    {
        self.alignment
    }

    /// How many pairs there are.
    pub fn n_kv(&self) -> (n: i32)
        requires
            self.wf(),
        ensures
            n == self.pairs@.len(),
    {
        self.pairs.len() as i32
    }

    /// The index of the first pair with this key, or -1.
    pub fn find_key(&self, key: &str) -> (idx: i32)
        requires
            self.wf(),
        ensures
            if idx == -1 {
                forall|i: int|
                    0 <= i < self.pairs@.len() ==> !(#[trigger] self.pairs@[i]).has_key(
                        encode_utf8(key@),
                    )
            } else {
                &&& self.has_pair(idx)
                &&& self.pairs@[idx as int].has_key(encode_utf8(key@))
                &&& forall|i: int|
                    0 <= i < idx ==> !(#[trigger] self.pairs@[i]).has_key(encode_utf8(key@))
            },
            -1 <= idx < self.pairs@.len(),
            idx >= 0 ==> self.pairs@[idx as int].key is Some && self.pairs@[idx as int].key->0@
                == encode_utf8(key@),
            forall|i: int|
                0 <= i < self.pairs@.len() && (idx < 0 || i < idx) ==> (
                #[trigger] self.pairs@[i]).key is None || self.pairs@[i].key->0@ != encode_utf8(
                    key@,
                ),
    {
        let mut i: usize = 0;
        while i < self.pairs.len()
            invariant
                self.wf(),
                i <= self.pairs@.len(),
                forall|k: int|
                    0 <= k < i ==> !(#[trigger] self.pairs@[k]).has_key(encode_utf8(key@)),
                forall|k: int|
                    0 <= k < i ==> (#[trigger] self.pairs@[k]).key is None
                        || self.pairs@[k].key->0@ != encode_utf8(key@),
            decreases self.pairs@.len() - i,
        {
            if let Some(found) = &self.pairs[i].key {
                if same_bytes(found.as_bytes(), key.as_bytes()) {
                    return i as i32;
                }
            }
            i += 1;
        }
        -1
    }

    /// The key of a pair, where it is UTF-8.
    pub fn key_at(&self, idx: i32) -> (key: Option<&str>)
        requires
            self.has_pair(idx),
        ensures
            reads_as(self.pairs@[idx as int].key, key),
    {
        read_text(&self.pairs[idx as usize].key)
    }

    /// The type of a pair's value.
    pub fn kv_type(&self, idx: i32) -> (kind: GgufType)
        requires
            self.has_pair(idx),
        ensures
            kind == self.pairs@[idx as int].value.spec_kind(),
    {
        self.pairs[idx as usize].value.kind()
    }

    /// The array of a pair.
    pub open spec fn array(&self, idx: i32) -> GgufArray {
        self.pairs@[idx as int].value->Arr_0
    }

    /// The type of the elements of an array.
    pub fn arr_type(&self, idx: i32) -> (kind: GgufType)
        requires
            self.holds(idx, GgufType::Arr),
        ensures
            kind == self.array(idx).kind,
    {
        match &self.pairs[idx as usize].value {
            GgufValue::Arr(arr) => arr.kind,
            other => other.kind(),
        }
    }

    /// A value of type `u8`.
    pub fn val_u8(&self, idx: i32) -> (value: u8)
        requires
            self.holds(idx, GgufType::U8),
        ensures
            self.pairs@[idx as int].value == GgufValue::U8(value),
    {
        match &self.pairs[idx as usize].value {
            GgufValue::U8(value) => *value,
            _ => 0,
        }
    }

    /// A value of type `i8`.
    pub fn val_i8(&self, idx: i32) -> (value: i8)
        requires
            self.holds(idx, GgufType::I8),
        ensures
            self.pairs@[idx as int].value == GgufValue::I8(value),
    {
        match &self.pairs[idx as usize].value {
            GgufValue::I8(value) => *value,
            _ => 0,
        }
    }

    /// A value of type `u16`.
    pub fn val_u16(&self, idx: i32) -> (value: u16)
        requires
            self.holds(idx, GgufType::U16),
        ensures
            self.pairs@[idx as int].value == GgufValue::U16(value),
    {
        match &self.pairs[idx as usize].value {
            GgufValue::U16(value) => *value,
            _ => 0,
        }
    }

    /// A value of type `i16`.
    pub fn val_i16(&self, idx: i32) -> (value: i16)
        requires
            self.holds(idx, GgufType::I16),
        ensures
            self.pairs@[idx as int].value == GgufValue::I16(value),
    {
        match &self.pairs[idx as usize].value {
            GgufValue::I16(value) => *value,
            _ => 0,
        }
    }

    /// A value of type `u32`.
    pub fn val_u32(&self, idx: i32) -> (value: u32)
        requires
            self.holds(idx, GgufType::U32),
        ensures
            self.pairs@[idx as int].value == GgufValue::U32(value),
    {
        match &self.pairs[idx as usize].value {
            GgufValue::U32(value) => *value,
            _ => 0,
        }
    }

    /// A value of type `i32`.
    pub fn val_i32(&self, idx: i32) -> (value: i32)
        requires
            self.holds(idx, GgufType::I32),
        ensures
            self.pairs@[idx as int].value == GgufValue::I32(value),
    {
        match &self.pairs[idx as usize].value {
            GgufValue::I32(value) => *value,
            _ => 0,
        }
    }

    /// A value of type `f32`.
    pub fn val_f32(&self, idx: i32) -> (value: F32)
        requires
            self.holds(idx, GgufType::F32),
        ensures
            self.pairs@[idx as int].value == GgufValue::F32(value),
    {
        match &self.pairs[idx as usize].value {
            GgufValue::F32(value) => *value,
            _ => F32::from_bits(0),
        }
    }

    /// A value of type `u64`.
    pub fn val_u64(&self, idx: i32) -> (value: u64)
        requires
            self.holds(idx, GgufType::U64),
        ensures
            self.pairs@[idx as int].value == GgufValue::U64(value),
    {
        match &self.pairs[idx as usize].value {
            GgufValue::U64(value) => *value,
            _ => 0,
        }
    }

    /// A value of type `i64`.
    pub fn val_i64(&self, idx: i32) -> (value: i64)
        requires
            self.holds(idx, GgufType::I64),
        ensures
            self.pairs@[idx as int].value == GgufValue::I64(value),
    {
        match &self.pairs[idx as usize].value {
            GgufValue::I64(value) => *value,
            _ => 0,
        }
    }

    /// A value of type `f64`.
    pub fn val_f64(&self, idx: i32) -> (value: F64)
        requires
            self.holds(idx, GgufType::F64),
        ensures
            self.pairs@[idx as int].value == GgufValue::F64(value),
    {
        match &self.pairs[idx as usize].value {
            GgufValue::F64(value) => *value,
            _ => F64 { bits: 0 },
        }
    }

    /// A value of type `bool`.
    pub fn val_bool(&self, idx: i32) -> (value: bool)
        requires
            self.holds(idx, GgufType::Bool),
        ensures
            self.pairs@[idx as int].value == GgufValue::Bool(value),
    {
        match &self.pairs[idx as usize].value {
            GgufValue::Bool(value) => *value,
            _ => false,
        }
    }

    /// A string, where it is UTF-8.
    pub fn val_str(&self, idx: i32) -> (value: Option<&str>)
        requires
            self.holds(idx, GgufType::Str),
        ensures
            reads_as(self.pairs@[idx as int].value->Str_0, value),
    {
        match &self.pairs[idx as usize].value {
            GgufValue::Str(text) => read_text(text),
            _ => None,
        }
    }

    /// The length of an array.
    pub fn arr_len(&self, idx: i32) -> (n: i32)
        requires
            self.holds(idx, GgufType::Arr),
        ensures
            n == self.array(idx).len,
    {
        match &self.pairs[idx as usize].value {
            GgufValue::Arr(arr) => arr.len,
            _ => 0,
        }
    }

    /// Element `i` of an array of strings, where there is one and it is UTF-8.
    pub fn arr_str(&self, idx: i32, i: i32) -> (value: Option<&str>)
        requires
            self.wf(),
            self.holds(idx, GgufType::Arr),
            self.array(idx).kind == GgufType::Str,
        ensures
            if 0 <= i < self.array(idx).len {
                reads_as(self.array(idx).strings@[i as int], value)
            } else {
                value is None
            },
    {
        match &self.pairs[idx as usize].value {
            GgufValue::Arr(arr) => if 0 <= i && i < arr.len {
                read_text(&arr.strings[i as usize])
            } else {
                None
            },
            _ => None,
        }
    }

    /// How many tensors there are.
    pub fn n_tensors(&self) -> (n: i32)
        requires
            self.wf(),
        ensures
            n == self.tensors@.len(),
    {
        self.tensors.len() as i32
    }

    /// Where `i` is the index of a tensor, that index.
    fn tensor_index(&self, i: i32) -> (at: Option<usize>)
        requires
            self.wf(),
        ensures
            at == if self.has_tensor(i) {
                Some(i as usize)
            } else {
                None::<usize>
            },
    {
        if 0 <= i && i < self.n_tensors() {
            Some(i as usize)
        } else {
            None
        }
    }

    /// The name of tensor `i`, where there is one and it is UTF-8.
    pub fn tensor_name(&self, i: i32) -> (name: Option<&str>)
        requires
            self.wf(),
        ensures
            if self.has_tensor(i) {
                reads_as(self.tensors@[i as int].name, name)
            } else {
                name is None
            },
    {
        match self.tensor_index(i) {
            Some(at) => read_text(&self.tensors[at].name),
            None => None,
        }
    }

    /// The engine's number for the type of tensor `i`, where there is one.
    pub fn tensor_type(&self, i: i32) -> (kind: Option<i32>)
        requires
            self.wf(),
        ensures
            kind == if self.has_tensor(i) {
                Some(self.tensors@[i as int].kind)
            } else {
                None
            },
    {
        match self.tensor_index(i) {
            Some(at) => Some(self.tensors[at].kind),
            None => None,
        }
    }

    /// Where the data of tensor `i` begins, where there is one.
    pub fn tensor_offset(&self, i: i32) -> (offset: Option<usize>)
        requires
            self.wf(),
        ensures
            offset == if self.has_tensor(i) {
                Some(self.tensors@[i as int].offset)
            } else {
                None
            },
    {
        match self.tensor_index(i) {
            Some(at) => Some(self.tensors[at].offset),
            None => None,
        }
    }
}

/// A key that was found reads back as itself.
pub proof fn lemma_found_key_reads_back(
    gguf: GgufContext,
    key: Seq<char>,
    idx: i32,
    read: Option<&str>,
)
    requires
        gguf.has_pair(idx),
        gguf.pairs@[idx as int].has_key(encode_utf8(key)),
        reads_as(gguf.pairs@[idx as int].key, read),
    ensures
        read is Some,
        read->0@ == key,
{
    encode_utf8_valid_utf8(key);
    encode_utf8_decode_utf8(key);
}

/// The type of a value says just what the value is.
pub proof fn lemma_type_says_what_a_value_is(value: GgufValue, kind: GgufType)
    requires
        call_ensures(GgufValue::kind, (&value,), kind),
    ensures
        kind is U8 <==> value is U8,
        kind is I8 <==> value is I8,
        kind is U16 <==> value is U16,
        kind is I16 <==> value is I16,
        kind is U32 <==> value is U32,
        kind is I32 <==> value is I32,
        kind is F32 <==> value is F32,
        kind is U64 <==> value is U64,
        kind is I64 <==> value is I64,
        kind is F64 <==> value is F64,
        kind is Bool <==> value is Bool,
        kind is Str <==> value is Str,
        kind is Arr <==> value is Arr,
        kind is Other <==> value is Other,
        value is Other ==> kind->Other_0 == value->Other_0,
        kind == value.spec_kind(),
{
}

/// What is read of a key, of a string and of the name of a tensor is the text that its
/// bytes encode, just where there are bytes and they are UTF-8.
pub proof fn lemma_strings_are_read_as_they_are(
    gguf: GgufContext,
    idx: i32,
    key: Option<&str>,
    text_idx: i32,
    value: Option<&str>,
    i: i32,
    name: Option<&str>,
)
    requires
        gguf.wf(),
        0 <= idx < gguf.pairs@.len(),
        call_ensures(GgufContext::key_at, (&gguf, idx), key),
        0 <= text_idx < gguf.pairs@.len(),
        gguf.pairs@[text_idx as int].value is Str,
        call_ensures(GgufContext::val_str, (&gguf, text_idx), value),
        call_ensures(GgufContext::tensor_name, (&gguf, i), name),
    ensures
        ({
            let stored = gguf.pairs@[idx as int].key;
            &&& key is Some <==> stored is Some && valid_utf8(stored->0@)
            &&& key is Some ==> encode_utf8(key->0@) == stored->0@
        }),
        ({
            let stored = gguf.pairs@[text_idx as int].value->Str_0;
            &&& value is Some <==> stored is Some && valid_utf8(stored->0@)
            &&& value is Some ==> encode_utf8(value->0@) == stored->0@
        }),
        ({
            let stored = gguf.tensors@[i as int].name;
            &&& name is Some <==> 0 <= i < gguf.tensors@.len() && stored is Some && valid_utf8(
                stored->0@,
            )
            &&& name is Some ==> encode_utf8(name->0@) == stored->0@
        }),
{
    if let Some(stored) = gguf.pairs@[idx as int].key {
        if valid_utf8(stored@) {
            decode_utf8_encode_utf8(stored@);
        }
    }
    if let Some(stored) = gguf.pairs@[text_idx as int].value->Str_0 {
        if valid_utf8(stored@) {
            decode_utf8_encode_utf8(stored@);
        }
    }
    if let Some(stored) = gguf.tensors@[i as int].name {
        if valid_utf8(stored@) {
            decode_utf8_encode_utf8(stored@);
        }
    }
}

/// A key is looked up by all of its bytes: what is found is the first pair that has
/// just this key, and nothing is found just where no pair has it.
pub proof fn lemma_lookup_finds_the_first_pair(gguf: GgufContext, key: &str, idx: i32)
    requires
        gguf.wf(),
        call_ensures(GgufContext::find_key, (&gguf, key), idx),
    ensures
        -1 <= idx < gguf.pairs@.len(),
        idx >= 0 ==> {
            &&& gguf.pairs@[idx as int].key is Some
            &&& gguf.pairs@[idx as int].key->0@ == encode_utf8(key@)
        },
        forall|i: int|
            0 <= i < gguf.pairs@.len() && (idx < 0 || i < idx) ==> (
            #[trigger] gguf.pairs@[i]).key is None || gguf.pairs@[i].key->0@ != encode_utf8(key@),
{
}

/// What the header says of an array and of a tensor is given as it is, each by its own
/// index; and nothing is given beyond the tensors, or beyond the strings of an array.
pub proof fn lemma_entries_are_given_by_their_index(
    gguf: GgufContext,
    idx: i32,
    kind: GgufType,
    len: i32,
    k: i32,
    element: Option<&str>,
    i: i32,
    tensor_kind: Option<i32>,
    offset: Option<usize>,
    n_kv: i32,
    n_tensors: i32,
)
    requires
        gguf.wf(),
        0 <= idx < gguf.pairs@.len(),
        gguf.pairs@[idx as int].value is Arr,
        gguf.pairs@[idx as int].value->Arr_0.kind is Str,
        call_ensures(GgufContext::arr_type, (&gguf, idx), kind),
        call_ensures(GgufContext::arr_len, (&gguf, idx), len),
        call_ensures(GgufContext::arr_str, (&gguf, idx, k), element),
        call_ensures(GgufContext::tensor_type, (&gguf, i), tensor_kind),
        call_ensures(GgufContext::tensor_offset, (&gguf, i), offset),
        call_ensures(GgufContext::n_kv, (&gguf,), n_kv),
        call_ensures(GgufContext::n_tensors, (&gguf,), n_tensors),
    ensures
        n_kv == gguf.pairs@.len(),
        n_tensors == gguf.tensors@.len(),
        kind is Str,
        len == gguf.pairs@[idx as int].value->Arr_0.len,
        len == gguf.pairs@[idx as int].value->Arr_0.strings@.len(),
        ({
            let stored = gguf.pairs@[idx as int].value->Arr_0.strings@[k as int];
            &&& element is Some <==> 0 <= k < len && stored is Some && valid_utf8(stored->0@)
            &&& element is Some ==> encode_utf8(element->0@) == stored->0@
        }),
        tensor_kind is Some <==> 0 <= i < n_tensors,
        offset is Some <==> 0 <= i < n_tensors,
        tensor_kind is Some ==> tensor_kind->0 == gguf.tensors@[i as int].kind,
        offset is Some ==> offset->0 == gguf.tensors@[i as int].offset,
{
    if let Some(stored) = gguf.pairs@[idx as int].value->Arr_0.strings@[k as int] {
        if valid_utf8(stored@) {
            decode_utf8_encode_utf8(stored@);
        }
    }
}

/// A file is opened by the encoding of its path, with the weights left in it; and it is
/// refused just where the path is no text or holds a NUL.
pub proof fn lemma_file_is_opened_by_its_path(path: Option<&str>, r: Result<OpenCall, GgufError>)
    requires
        call_ensures(GgufContext::from_file, (path,), r),
    ensures
        r is Ok <==> path is Some && !path->0@.contains('\0'),
        r matches Ok(call) ==> call.path@ == encode_utf8(path->0@) && call.no_alloc,
        r is Err ==> (r->Err_0 is InvalidPath <==> path is None),
        r is Err ==> (r->Err_0 is Nul <==> path is Some),
{
    if path is Some {
        crate::cstr::lemma_nul_byte_iff_nul_char(path->0@);
    }
}

} // verus!
