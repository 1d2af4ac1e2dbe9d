//! Paths for the engine.

use vstd::prelude::*;
use vstd::utf8::*;

use crate::cstr::{CText, NulError};

verus! {

/// The engine cannot be told of this path.
#[derive(Debug, PartialEq, Eq)]
pub enum PathError {
    /// It is no text.
    NotText,
    /// It holds a NUL.
    Nul(NulError),
}

/// `r` is what becomes of a path: `None` stands for one that is no text.
pub open spec fn is_path_text(path: Option<Seq<char>>, r: Result<CText, PathError>) -> bool {
    match path {
        None => r == Err::<CText, PathError>(PathError::NotText),
        Some(path) => match r {
            Ok(text) => crate::cstr::is_c_text(encode_utf8(path), Ok(text)),
            Err(PathError::Nul(e)) => crate::cstr::is_c_text(encode_utf8(path), Err(e)),
            Err(PathError::NotText) => false,
        },
    }
}

/// The characters of a path that is text.
pub open spec fn path_chars(path: Option<&str>) -> Option<Seq<char>> {
    match path {
        Some(path) => Some(path@),
        None => None,
    }
}

/// The path as the engine takes it.
pub fn path_text(path: Option<&str>) -> (r: Result<CText, PathError>)
    ensures
        is_path_text(path_chars(path), r),
{
    match path {
        None => Err(PathError::NotText),
        Some(path) => match CText::from_str(path) {
            Ok(text) => Ok(text),
            Err(e) => Err(PathError::Nul(e)),
        },
    }
}

/// A path that is text goes to the engine as its encoding, unless it holds a NUL; one
/// that is no text is refused as such.
pub proof fn lemma_path_becomes_its_encoding(path: Option<&str>, r: Result<CText, PathError>)
    requires
        call_ensures(path_text, (path,), r),
    ensures
        r is Ok <==> path is Some && !path->0@.contains('\0'),
        r matches Ok(text) ==> text@ == encode_utf8(path->0@),
        r matches Err(e) ==> (e is NotText <==> path is None),
        r matches Err(PathError::Nul(e)) ==> {
            &&& e.bytes@ == encode_utf8(path->0@)
            &&& e.position < e.bytes@.len()
            &&& e.bytes@[e.position as int] == 0
            &&& forall|i: int| 0 <= i < e.position ==> #[trigger] e.bytes@[i] != 0
        },
{
    if let Some(text) = path {
        crate::cstr::lemma_nul_byte_iff_nul_char(text@);
        if let Err(PathError::Nul(e)) = r {
            crate::cstr::lemma_error_points_at_the_first_nul(e, encode_utf8(text@));
        }
    }
}

} // verus!
