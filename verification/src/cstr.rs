//! Text for the engine: bytes that hold no NUL, since a NUL ends them there.

use vstd::prelude::*;
use vstd::utf8::*;

verus! {

/// Bytes without a NUL among them.
#[derive(Debug, PartialEq, Eq, PartialOrd, Ord, Hash)]
pub struct CText {
    bytes: Vec<u8>,
}

/// The bytes held a NUL.
#[derive(Clone, Debug, PartialEq, Eq)]
pub struct NulError {
    /// Where the first one stands.
    pub position: usize,
    pub bytes: Vec<u8>,
}

pub open spec fn nul_free(bytes: Seq<u8>) -> bool {
    forall|i: int| 0 <= i < bytes.len() ==> #[trigger] bytes[i] != 0
}

impl NulError {
    /// `self` is the error for `bytes`.
    pub open spec fn found_in(self, bytes: Seq<u8>) -> bool {
        &&& self.bytes@ == bytes
        &&& self.position < bytes.len()
        &&& bytes[self.position as int] == 0
        &&& nul_free(bytes.take(self.position as int))
    }
}

/// `r` is what becomes of `bytes`: text where no NUL is among them, and
/// otherwise an error that points at the first.
pub open spec fn is_c_text(bytes: Seq<u8>, r: Result<CText, NulError>) -> bool {
    match r {
        Ok(text) => nul_free(bytes) && text@ == bytes,
        Err(e) => e.found_in(bytes),
    }
}

impl View for CText {
    type V = Seq<u8>;

    closed spec fn view(&self) -> Seq<u8> {
        self.bytes@
    }
}

impl Clone for CText {
    fn clone(&self) -> (text: CText)
        ensures
            text@ == self@,
    {
        proof {
            use_type_invariant(self);
        }
        CText { bytes: self.bytes.clone() }
    }
}

impl CText {
    #[verifier::type_invariant]
    spec fn holds_no_nul(self) -> bool {
        nul_free(self.bytes@)
    }

    pub fn new(bytes: Vec<u8>) -> (r: Result<CText, NulError>)
        ensures
            is_c_text(bytes@, r),
    {
        let mut i: usize = 0;
        while i < bytes.len()
            invariant
                i <= bytes@.len(),
                nul_free(bytes@.take(i as int)),
            decreases bytes@.len() - i,
        {
            if bytes[i] == 0 {
                return Err(NulError { position: i, bytes });
            }
            i += 1;
            assert(forall|k: int| 0 <= k < i - 1 ==> bytes@[k] == bytes@.take(i - 1)[k]);
        }
        assert(bytes@.take(i as int) =~= bytes@);
        Ok(CText { bytes })
    }

    pub fn from_str(text: &str) -> (r: Result<CText, NulError>)
        ensures
            is_c_text(encode_utf8(text@), r),
    {
        CText::new(vstd::slice::slice_to_vec(text.as_bytes()))
    }

    /// The bytes, without the NUL that ends them in the engine.
    pub fn as_bytes(&self) -> (bytes: &[u8])
        ensures
            bytes@ == self@,
            nul_free(bytes@),
    {
        proof {
            use_type_invariant(self);
        }
        self.bytes.as_slice()
    }

    pub fn len(&self) -> (n: usize)
        ensures
            n == self@.len(),
    {
        self.bytes.len()
    }
}

/// Text without a NUL is always accepted, and text with one never.
pub proof fn lemma_accepted_iff_nul_free(bytes: Seq<u8>, r: Result<CText, NulError>)
    requires
        is_c_text(bytes, r),
    ensures
        r is Ok <==> nul_free(bytes),
{
}

proof fn lemma_scalar_nul(c: char)
    ensures
        nul_free(encode_scalar(c as u32)) <==> c != '\0',
{
    let v = c as u32;
    char_is_scalar(c);
    assert(has_width_1_encoding(v) ==> (leading_byte_width_1(v) == 0 <==> v == 0)) by (bit_vector);
    assert(leading_byte_width_2(v) != 0) by (bit_vector);
    assert(leading_byte_width_3(v) != 0) by (bit_vector);
    assert(leading_byte_width_4(v) != 0) by (bit_vector);
    assert(last_continuation_byte(v) != 0) by (bit_vector);
    assert(second_last_continuation_byte(v) != 0) by (bit_vector);
    assert(third_last_continuation_byte(v) != 0) by (bit_vector);
    if has_width_1_encoding(v) {
        assert(encode_scalar(v)[0] == leading_byte_width_1(v));
    }
}

/// The bytes of a string hold a NUL exactly where the string holds the NUL
/// character: no other character has a NUL in its encoding.
pub proof fn lemma_nul_byte_iff_nul_char(chars: Seq<char>)
    ensures
        nul_free(encode_utf8(chars)) <==> !chars.contains('\0'),
    decreases chars.len(),
{
    if chars.len() > 0 {
        let first = encode_scalar(chars[0] as u32);
        let rest = encode_utf8(chars.drop_first());
        lemma_scalar_nul(chars[0]);
        lemma_nul_byte_iff_nul_char(chars.drop_first());
        let all = encode_utf8(chars);
        if nul_free(all) {
            assert forall|i: int| 0 <= i < first.len() implies #[trigger] first[i] != 0 by {
                assert(all[i] == first[i]);
            }
            assert forall|i: int| 0 <= i < rest.len() implies #[trigger] rest[i] != 0 by {
                assert(all[first.len() + i] == rest[i]);
            }
            assert forall|i: int| 0 <= i < chars.len() implies chars[i] != '\0' by {
                if i > 0 {
                    assert(chars.drop_first()[i - 1] == chars[i]);
                }
            }
        }
        if !chars.contains('\0') {
            assert(chars.contains(chars[0]));
            assert forall|i: int| 0 <= i < chars.drop_first().len() implies chars.drop_first()[i]
                != '\0' by {
                assert(chars.contains(chars[i + 1]));
            }
        }
    }
}

/// Bytes become text just where no NUL is among them, unchanged; otherwise the error
/// hands them back and points at the first NUL.
pub proof fn lemma_first_nul_is_found(bytes: Vec<u8>, r: Result<CText, NulError>)
    requires
        call_ensures(CText::new, (bytes,), r),
    ensures
        r is Ok <==> !bytes@.contains(0),
        r matches Ok(text) ==> text@ == bytes@,
        r matches Err(e) ==> {
            &&& e.bytes@ == bytes@
            &&& e.position < bytes@.len()
            &&& bytes@[e.position as int] == 0
            &&& forall|i: int| 0 <= i < e.position ==> #[trigger] bytes@[i] != 0
        },
{
    if let Err(e) = r {
        lemma_error_points_at_the_first_nul(e, bytes@);
        assert(bytes@.contains(bytes@[e.position as int]));
    }
}

/// As [`lemma_first_nul_is_found`], for a string: it is refused just where it holds the
/// NUL character, and becomes its own encoding otherwise.
pub proof fn lemma_string_becomes_its_encoding(text: &str, r: Result<CText, NulError>)
    requires
        call_ensures(CText::from_str, (text,), r),
    ensures
        r is Ok <==> !text@.contains('\0'),
        r matches Ok(made) ==> made@ == encode_utf8(text@),
        r matches Err(e) ==> {
            &&& e.bytes@ == encode_utf8(text@)
            &&& e.position < e.bytes@.len()
            &&& e.bytes@[e.position as int] == 0
            &&& forall|i: int| 0 <= i < e.position ==> #[trigger] e.bytes@[i] != 0
        },
{
    lemma_nul_byte_iff_nul_char(text@);
    if let Err(e) = r {
        lemma_error_points_at_the_first_nul(e, encode_utf8(text@));
    }
}

/// Wherever an error for some bytes is reported, it holds these bytes and points at
/// the first NUL among them.
pub proof fn lemma_error_points_at_the_first_nul(e: NulError, bytes: Seq<u8>)
    requires
        e.found_in(bytes),
    ensures
        e.bytes@ == bytes,
        e.position < bytes.len(),
        bytes[e.position as int] == 0,
        forall|i: int| 0 <= i < e.position ==> #[trigger] bytes[i] != 0,
        !nul_free(bytes),
{
    let before = bytes.take(e.position as int);
    assert forall|i: int| 0 <= i < e.position implies #[trigger] bytes[i] != 0 by {
        assert(before[i] == bytes[i]);
    }
}

} // verus!
