//! Bytes from the engine, as text.

pub mod decoder;

use vstd::prelude::*;
use vstd::string::*;
use vstd::utf8::*;

verus! {

/// The bytes are no UTF-8.
#[derive(Clone, Copy, Debug, PartialEq, Eq, Structural)]
pub struct Utf8Error {
    /// How many bytes from the start are UTF-8.
    pub valid_up_to: usize,
}

/// The bytes, handed back, are no UTF-8.
#[derive(Clone, Debug, PartialEq, Eq)]
pub struct FromUtf8Error {
    pub bytes: Vec<u8>,
    pub valid_up_to: usize,
}

/// The longest prefix of `bytes` that is UTF-8 has `n` bytes.
pub open spec fn is_valid_up_to(bytes: Seq<u8>, n: int) -> bool {
    &&& 0 <= n <= bytes.len()
    &&& valid_utf8(bytes.take(n))
    &&& forall|m: int| n < m <= bytes.len() ==> !valid_utf8(#[trigger] bytes.take(m))
}

/// `r` is what reading `bytes` as UTF-8 gives.
pub open spec fn is_text(bytes: Seq<u8>, r: Result<String, FromUtf8Error>) -> bool {
    match r {
        Ok(text) => valid_utf8(bytes) && text@ == decode_utf8(bytes),
        Err(e) => {
            &&& !valid_utf8(bytes)
            &&& e.bytes@ == bytes
            &&& is_valid_up_to(bytes, e.valid_up_to as int)
        },
    }
}

/// Calls `std::str::from_utf8`.
///
/// Claimed: it succeeds exactly on UTF-8, with the string whose encoding the
/// bytes are; `Utf8Error::valid_up_to` is the greatest number of bytes that
/// are UTF-8 when taken from the start.
#[verifier::external_body]
fn std_from_utf8(bytes: &[u8]) -> (r: Result<&str, usize>)
    ensures
        match r {
            Ok(text) => encode_utf8(text@) == bytes@,
            Err(n) => !valid_utf8(bytes@) && is_valid_up_to(bytes@, n as int),
        },
{
    std::str::from_utf8(bytes).map_err(|e| e.valid_up_to())
}

/// What `String::from_utf8_lossy` makes of `bytes`.
pub uninterp spec fn utf8_lossy(bytes: Seq<u8>) -> Seq<char>;

/// Calls `String::from_utf8_lossy`.
///
/// Claimed: the text depends on the bytes alone, and bytes that are UTF-8 come
/// out as the text that they encode. How many replacement characters stand for
/// what is not UTF-8 is left to the name.
#[verifier::external_body]
fn std_from_utf8_lossy(bytes: &[u8]) -> (text: String)
    ensures
        text@ == utf8_lossy(bytes@),
        valid_utf8(bytes@) ==> text@ == decode_utf8(bytes@),
{
    String::from_utf8_lossy(bytes).into_owned()
}

/// `bytes` as a string slice.
pub fn str_from_utf8(bytes: &[u8]) -> (r: Result<&str, Utf8Error>)
    ensures
        match r {
            Ok(text) => valid_utf8(bytes@) && text@ == decode_utf8(bytes@),
            Err(e) => !valid_utf8(bytes@) && is_valid_up_to(bytes@, e.valid_up_to as int),
        },
{
    match std_from_utf8(bytes) {
        Ok(text) => {
            proof {
                encode_utf8_valid_utf8(text@);
                encode_utf8_decode_utf8(text@);
            }
            Ok(text)
        },
        Err(valid_up_to) => Err(Utf8Error { valid_up_to }),
    }
}

/// `bytes` as a string.
pub fn string_from_utf8(bytes: Vec<u8>) -> (r: Result<String, FromUtf8Error>)
    ensures
        is_text(bytes@, r),
{
    match str_from_utf8(bytes.as_slice()) {
        Ok(text) => Ok(text.to_owned()),
        Err(e) => Err(FromUtf8Error { bytes, valid_up_to: e.valid_up_to }),
    }
}

/// `bytes` as a string, with replacement characters for what is not UTF-8.
pub fn string_from_utf8_lossy(bytes: &[u8]) -> (text: String)
    ensures
        text@ == utf8_lossy(bytes@),
        valid_utf8(bytes@) ==> text@ == decode_utf8(bytes@),
{
    std_from_utf8_lossy(bytes)
}

/// The bytes of a string read back are that string.
pub proof fn lemma_text_round_trip(text: Seq<char>, r: Result<String, FromUtf8Error>)
    requires
        is_text(encode_utf8(text), r),
    ensures
        r is Ok,
        r->Ok_0@ == text,
{
    encode_utf8_valid_utf8(text);
    encode_utf8_decode_utf8(text);
}

/// Bytes become a string just where they are UTF-8, and then the one that they encode;
/// otherwise they are handed back, with the length of the longest part from the start
/// that is UTF-8.
pub proof fn lemma_bytes_become_the_string_they_encode(
    bytes: Vec<u8>,
    r: Result<String, FromUtf8Error>,
)
    requires
        call_ensures(string_from_utf8, (bytes,), r),
    ensures
        r is Ok <==> valid_utf8(bytes@),
        r matches Ok(text) ==> encode_utf8(text@) == bytes@,
        r matches Err(e) ==> {
            &&& e.bytes@ == bytes@
            &&& e.valid_up_to <= bytes@.len()
            &&& valid_utf8(bytes@.take(e.valid_up_to as int))
            &&& forall|m: int|
                e.valid_up_to < m <= bytes@.len() ==> !valid_utf8(#[trigger] bytes@.take(m))
        },
{
    if r is Ok {
        decode_utf8_encode_utf8(bytes@);
    }
}

} // verus!
