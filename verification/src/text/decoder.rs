//! Text that arrives in pieces.

use vstd::prelude::*;
use vstd::string::*;
use vstd::utf8::*;

verus! {

/// The streaming decoder of `encoding_rs`.
#[verifier::external_type_specification]
#[verifier::external_body]
pub struct ExDecoder(encoding_rs::Decoder);

/// The bytes that a decoder has taken in: `Some` for one that was made for
/// UTF-8 and was never told that its input ends.
pub uninterp spec fn utf8_decoder_fed(decoder: encoding_rs::Decoder) -> Option<Seq<u8>>;

/// All the text that a UTF-8 decoder has given out once it has taken in `fed`,
/// while more input may come. An unfinished character at the end is held back.
pub uninterp spec fn utf8_stream_text(fed: Seq<u8>) -> Seq<char>;

/// `bytes` without the byte order mark that a decoder drops at the start.
pub open spec fn without_bom(bytes: Seq<u8>) -> Seq<u8> {
    if bytes.len() >= 3 && bytes[0] == 0xEF && bytes[1] == 0xBB && bytes[2] == 0xBF {
        bytes.skip(3)
    } else {
        bytes
    }
}

/// Calls `Encoding::new_decoder` on `encoding_rs::UTF_8`.
///
/// Claimed: a new UTF-8 decoder has taken in nothing and given out nothing.
#[verifier::external_body]
fn new_utf8_decoder() -> (decoder: encoding_rs::Decoder)
    ensures
        utf8_decoder_fed(decoder) == Some(Seq::<u8>::empty()),
        utf8_stream_text(utf8_decoder_fed(decoder)->0).len() == 0,
{
    encoding_rs::UTF_8.new_decoder()
}

/// Calls `Decoder::decode_to_string` with `last` false on a string of
/// `capacity` bytes.
///
/// The capacity asked for is no less than `Decoder::max_utf8_buffer_length`
/// gives in any state of a UTF-8 decoder. Claimed: there the call takes in all
/// of `bytes`, and what it gives out follows what the decoder gave out before,
/// so that the whole depends on the bytes taken in and not on where they were
/// cut; and where all that was taken in is UTF-8, the whole is the text that it
/// encodes, but for a byte order mark at the start. What is given out for other
/// input is left to the name.
#[verifier::external_body]
fn decode_to_string(
    decoder: &mut encoding_rs::Decoder,
    bytes: &[u8],
    capacity: usize,
) -> (text: String)
    requires
        utf8_decoder_fed(*old(decoder)) is Some,
        3 * bytes@.len() + 32 <= capacity <= isize::MAX,
    ensures
        utf8_decoder_fed(*final(decoder)) == Some(utf8_decoder_fed(*old(decoder))->0 + bytes@),
        utf8_stream_text(utf8_decoder_fed(*old(decoder))->0 + bytes@) == utf8_stream_text(
            utf8_decoder_fed(*old(decoder))->0,
        ) + text@,
        valid_utf8(utf8_decoder_fed(*final(decoder))->0) ==> utf8_stream_text(
            utf8_decoder_fed(*final(decoder))->0,
        ) == decode_utf8(without_bom(utf8_decoder_fed(*final(decoder))->0)),
{
    let mut text = String::with_capacity(capacity);
    let _ = decoder.decode_to_string(bytes, &mut text, false);
    text
}

/// A decoder for one stream of pieces. A character that is split between two
/// pieces comes out with the later one.
pub struct PieceDecoder {
    decoder: encoding_rs::Decoder,
}

impl PieceDecoder {
    /// The decoder reads UTF-8 and is not at its end; where it has taken in
    /// nothing but UTF-8, it has given out just that.
    pub closed spec fn wf(&self) -> bool {
        &&& utf8_decoder_fed(self.decoder) is Some
        &&& valid_utf8(self.fed()) ==> utf8_stream_text(self.fed()) == decode_utf8(
            without_bom(self.fed()),
        )
    }

    /// The bytes taken in so far.
    pub closed spec fn fed(&self) -> Seq<u8> {
        utf8_decoder_fed(self.decoder)->0
    }

    pub fn new() -> (decoder: PieceDecoder)
        ensures
            decoder.wf(),
            decoder.fed().len() == 0,
            utf8_stream_text(decoder.fed()).len() == 0,
    {
        let decoder = PieceDecoder { decoder: new_utf8_decoder() };
        assert(utf8_stream_text(decoder.fed()) =~= decode_utf8(without_bom(decoder.fed())));
        decoder
    }

    /// A decoder that has taken in nothing but UTF-8 has given out just that,
    /// however the bytes were cut into pieces.
    pub proof fn lemma_gives_out_what_it_took(&self)
        requires
            self.wf(),
        ensures
            valid_utf8(self.fed()) ==> utf8_stream_text(self.fed()) == decode_utf8(
                without_bom(self.fed()),
            ),
    {
    }

    /// Takes in `bytes` and gives out the text that they complete.
    pub fn decode(&mut self, bytes: &[u8]) -> (text: String)
        requires
            old(self).wf(),
        ensures
            final(self).wf(),
            final(self).fed() == old(self).fed() + bytes@,
            utf8_stream_text(final(self).fed()) == utf8_stream_text(old(self).fed()) + text@,
            valid_utf8(final(self).fed()) ==> utf8_stream_text(final(self).fed()) == decode_utf8(
                without_bom(final(self).fed()),
            ),
    {
        let mut text = String::new();
        let mut done: usize = 0;
        assert(bytes@.take(0) =~= Seq::empty());
        while done < bytes.len()
            invariant
                self.wf(),
                done <= bytes@.len(),
                self.fed() == old(self).fed() + bytes@.take(done as int),
                utf8_stream_text(self.fed()) == utf8_stream_text(old(self).fed()) + text@,
            decreases bytes@.len() - done,
        {
            let end: usize = if bytes.len() - done > 4096 {
                done + 4096
            } else {
                bytes.len()
            };
            let part = vstd::slice::slice_subrange(bytes, done, end);
            let given = decode_to_string(&mut self.decoder, part, 3 * part.len() + 32);
            text.append(given.as_str());
            proof {
                assert(bytes@.take(done as int) + part@ =~= bytes@.take(end as int));
                assert(old(self).fed() + bytes@.take(done as int) + part@ =~= old(self).fed()
                    + bytes@.take(end as int));
            }
            done = end;
        }
        assert(bytes@.take(done as int) =~= bytes@);
        text
    }
}

} // verus!
