//! What holds of every way from text to tokens and back.

use vstd::prelude::*;
use vstd::utf8::*;

use crate::cstr::CText;
use crate::error::LlamaError;
use crate::model::lora::LlamaLoraAdapterInitError;
use crate::model::{AddBos, Detokenize, LlamaModel, LossyCall, PieceCall, TextCall, TokenizeCall};
use crate::step::Step;
use crate::text::decoder::PieceDecoder;
use crate::token::LlamaToken;

verus! {

/// No token of a text is lost. The engine's tokens are `ids`, and it answers a call
/// of capacity `cap` with their number and the tokens themselves where these fit,
/// and otherwise with the number of tokens that it wants room for, negated. Then the
/// text is handed over again, in the same way, just where they do not fit, with just
/// the room that is wanted; and what comes of it in the end is all of the tokens, in
/// order.
pub proof fn lemma_tokens_come_whole(
    call: TokenizeCall,
    ids: Seq<i32>,
    n: i32,
    buf: Vec<i32>,
    step: Step<TokenizeCall, Result<Vec<LlamaToken>, LlamaError>>,
    again_n: i32,
    again_buf: Vec<i32>,
    again_step: Step<TokenizeCall, Result<Vec<LlamaToken>, LlamaError>>,
)
    requires
        ids.len() <= i32::MAX,
        call.cap >= 0,
        !call.retried,
        buf@.len() == call.cap,
        ids.len() <= call.cap ==> n == ids.len() && buf@.take(n as int) == ids,
        ids.len() > call.cap ==> n == -ids.len(),
        call_ensures(TokenizeCall::resume, (call, n, buf), step),
        step matches Step::Call(again) ==> {
            &&& again_buf@.len() == again.cap
            &&& ids.len() <= again.cap ==> again_n == ids.len() && again_buf@.take(again_n as int)
                == ids
            &&& ids.len() > again.cap ==> again_n == -ids.len()
            &&& call_ensures(TokenizeCall::resume, (again, again_n, again_buf), again_step)
        },
    ensures
        step is Call <==> ids.len() > call.cap,
        step matches Step::Call(again) ==> {
            &&& again.text == call.text
            &&& again.add_bos == call.add_bos
            &&& again.parse_special == call.parse_special
            &&& again.cap == ids.len()
        },
        ({
            let last = if step is Call {
                again_step
            } else {
                step
            };
            &&& last is Done
            &&& last->Done_0 is Ok
            &&& last->Done_0->Ok_0@.len() == ids.len()
            &&& forall|i: int|
                0 <= i < ids.len() ==> (#[trigger] last->Done_0->Ok_0@[i]).0 == ids[i]
        }),
{
    assert(buf@.take(buf@.len() as int) =~= buf@);
    assert(again_buf@.take(again_buf@.len() as int) =~= again_buf@);
}

/// A text is handed to the engine as it is, with room for a token to each of its
/// bytes and sixteen more; whether a token begins it is as the caller says, and
/// special tokens in it count as such. It is refused just where it holds a NUL, and
/// the error points at the first.
pub proof fn lemma_text_is_handed_over_as_it_is(
    model: LlamaModel,
    text: &str,
    add_bos: bool,
    r: Result<TokenizeCall, LlamaError>,
)
    requires
        call_ensures(LlamaModel::tokenize, (&model, text, add_bos), r),
    ensures
        r is Ok <==> !text@.contains('\0'),
        r matches Ok(call) ==> {
            &&& call.text@ == encode_utf8(text@)
            &&& call.cap == encode_utf8(text@).len() + 16
            &&& call.add_bos == add_bos
            &&& call.parse_special
            &&& !call.retried
        },
        r matches Err(e) ==> {
            &&& e is Nul
            &&& e->Nul_0.position < encode_utf8(text@).len()
            &&& encode_utf8(text@)[e->Nul_0.position as int] == 0
            &&& forall|i: int|
                0 <= i < e->Nul_0.position ==> #[trigger] encode_utf8(text@)[i] != 0
        },
{
    crate::cstr::lemma_nul_byte_iff_nul_char(text@);
    if r is Err {
        let bytes = encode_utf8(text@);
        let position = r->Err_0->Nul_0.position as int;
        assert forall|i: int| 0 <= i < position implies #[trigger] bytes[i] != 0 by {
            assert(bytes.take(position)[i] == bytes[i]);
        }
    }
}

/// How a token is asked for within a stream: with the flag and the spaces to strip
/// that the caller gave. Two requests that differ in the flag make calls that differ
/// in it, and a token is refused just where it is none of the vocabulary.
pub proof fn lemma_stream_piece_is_asked_for_as_given(
    model: LlamaModel,
    token: LlamaToken,
    special: bool,
    lstrip: Option<u16>,
    r: Result<TextCall, LlamaError>,
    other: Result<TextCall, LlamaError>,
)
    requires
        call_ensures(LlamaModel::token_to_piece, (&model, token, special, lstrip), r),
        call_ensures(LlamaModel::token_to_piece, (&model, token, !special, lstrip), other),
    ensures
        r is Ok <==> 0 <= token.0 < model.n_vocab,
        r is Ok <==> other is Ok,
        r matches Ok(call) ==> {
            &&& call.piece.token == token
            &&& call.piece.special == special
            &&& lstrip matches Some(n) ==> call.piece.lstrip == n
            &&& lstrip is None ==> call.piece.lstrip == 0
            &&& call.piece.buf_size == 8
            &&& !call.piece.retried
        },
        r is Ok ==> r->Ok_0.piece.special != other->Ok_0.piece.special,
        r matches Err(e) ==> e is TokenOutOfRange && e->token == token.0 && e->n_vocab
            == model.n_vocab,
{
}

/// How the bytes of a token are asked for: as the caller says, with the room that
/// the caller guesses, and room for one byte where that is none.
pub proof fn lemma_bytes_are_asked_for_as_given(
    model: LlamaModel,
    token: LlamaToken,
    buf_size: usize,
    special: bool,
    lstrip: Option<u16>,
    r: Result<PieceCall, LlamaError>,
)
    requires
        call_ensures(
            LlamaModel::token_to_piece_bytes,
            (&model, token, buf_size, special, lstrip),
            r,
        ),
    ensures
        r is Ok <==> 0 <= token.0 < model.n_vocab,
        r matches Ok(call) ==> {
            &&& call.token == token
            &&& call.special == special
            &&& lstrip matches Some(n) ==> call.lstrip == n
            &&& lstrip is None ==> call.lstrip == 0
            &&& buf_size > 0 ==> call.buf_size == buf_size
            &&& buf_size == 0 ==> call.buf_size == 1
            &&& !call.retried
        },
        r matches Err(e) ==> e is TokenOutOfRange && e->token == token.0 && e->n_vocab
            == model.n_vocab,
{
}

/// By itself a token is asked for without special tokens, and no space is stripped.
pub proof fn lemma_lone_piece_is_asked_for_plainly(
    model: LlamaModel,
    token: LlamaToken,
    r: Result<LossyCall, LlamaError>,
)
    requires
        call_ensures(LlamaModel::token_to_piece_lossy, (&model, token), r),
    ensures
        r is Ok <==> 0 <= token.0 < model.n_vocab,
        r matches Ok(call) ==> {
            &&& call.piece.token == token
            &&& !call.piece.special
            &&& call.piece.lstrip == 0
            &&& call.piece.buf_size == 8
            &&& !call.piece.retried
        },
        r matches Err(e) ==> e is TokenOutOfRange && e->token == token.0 && e->n_vocab
            == model.n_vocab,
{
}

/// No byte of a token is lost. The engine's bytes for it are `piece`, and it answers
/// a call with their number and the bytes themselves where they fit the size that it
/// is told, and otherwise with the size that it wants, negated. It is never told of
/// more room than there is. Then it is asked again just where they do not fit, for the
/// same token in the same way; and what comes of it in the end is `piece`.
pub proof fn lemma_piece_comes_whole(
    call: PieceCall,
    piece: Seq<u8>,
    told: i32,
    n: i32,
    buf: Vec<u8>,
    step: Step<PieceCall, Result<Vec<u8>, LlamaError>>,
    again_told: i32,
    again_n: i32,
    again_buf: Vec<u8>,
    again_step: Step<PieceCall, Result<Vec<u8>, LlamaError>>,
)
    requires
        piece.len() <= i32::MAX,
        !call.retried,
        buf@.len() == call.buf_size,
        call_ensures(PieceCall::buf_len, (&call,), told),
        piece.len() <= told ==> n == piece.len() && buf@.take(n as int) == piece,
        piece.len() > told ==> n == -piece.len(),
        call_ensures(PieceCall::resume, (call, n, buf), step),
        step matches Step::Call(again) ==> {
            &&& again_buf@.len() == again.buf_size
            &&& call_ensures(PieceCall::buf_len, (&again,), again_told)
            &&& piece.len() <= again_told ==> again_n == piece.len() && again_buf@.take(
                again_n as int,
            ) == piece
            &&& piece.len() > again_told ==> again_n == -piece.len()
            &&& call_ensures(PieceCall::resume, (again, again_n, again_buf), again_step)
        },
    ensures
        told <= call.buf_size,
        call.buf_size <= i32::MAX ==> told == call.buf_size,
        call.buf_size > i32::MAX ==> told == i32::MAX,
        step is Call <==> piece.len() > told,
        step matches Step::Call(again) ==> {
            &&& again.token == call.token
            &&& again.special == call.special
            &&& again.lstrip == call.lstrip
            &&& again.buf_size == piece.len()
        },
        ({
            let last = if step is Call {
                again_step
            } else {
                step
            };
            &&& last is Done
            &&& last->Done_0 is Ok
            &&& last->Done_0->Ok_0@ == piece
        }),
{
    assert(buf@.take(buf@.len() as int) =~= buf@);
    assert(again_buf@.take(again_buf@.len() as int) =~= again_buf@);
}

/// The text of a token by itself is that of the bytes that the engine gives, where
/// these are text. Too small a buffer is enlarged to what is wanted, once, and
/// nothing else of the request changes.
pub proof fn lemma_lone_piece_is_the_text_of_its_bytes(
    call: LossyCall,
    n: i32,
    buf: Vec<u8>,
    step: Step<LossyCall, Result<String, LlamaError>>,
)
    requires
        call_ensures(LossyCall::resume, (call, n, buf), step),
    ensures
        0 <= n <= buf@.len() && valid_utf8(buf@.take(n as int)) ==> {
            &&& step is Done
            &&& step->Done_0 is Ok
            &&& step->Done_0->Ok_0@ == decode_utf8(buf@.take(n as int))
        },
        n < 0 && n > i32::MIN && !call.piece.retried ==> {
            &&& step is Call
            &&& step->Call_0.piece.buf_size == -n
            &&& step->Call_0.piece.token == call.piece.token
            &&& step->Call_0.piece.special == call.piece.special
            &&& step->Call_0.piece.lstrip == call.piece.lstrip
            &&& step->Call_0.piece.retried
        },
        n < 0 && (n == i32::MIN || call.piece.retried) ==> {
            &&& step is Done
            &&& step->Done_0 == Err::<String, LlamaError>(LlamaError::TokenToPiece)
        },
{
    assert(buf@.take(buf@.len() as int) =~= buf@);
}

/// Within a stream the decoder takes in the bytes that the engine gives, all of them
/// and once, and what is given out is what the stream gains by them. Otherwise the
/// decoder is left alone.
pub proof fn lemma_stream_takes_in_every_byte_once(
    call: TextCall,
    n: i32,
    buf: Vec<u8>,
    decoder: &mut PieceDecoder,
    step: Step<TextCall, Result<String, LlamaError>>,
)
    requires
        call_ensures(TextCall::resume, (call, n, buf, decoder), step),
    ensures
        n >= 0 <==> step is Done && step->Done_0 is Ok,
        0 <= n <= buf@.len() ==> {
            &&& final(decoder).fed() == old(decoder).fed() + buf@.take(n as int)
            &&& crate::text::decoder::utf8_stream_text(final(decoder).fed())
                == crate::text::decoder::utf8_stream_text(old(decoder).fed())
                + step->Done_0->Ok_0@
        },
        n < 0 ==> *final(decoder) == *old(decoder),
        n < 0 && n > i32::MIN && !call.piece.retried ==> {
            &&& step is Call
            &&& step->Call_0.piece.buf_size == -n
            &&& step->Call_0.piece.token == call.piece.token
            &&& step->Call_0.piece.special == call.piece.special
            &&& step->Call_0.piece.lstrip == call.piece.lstrip
            &&& step->Call_0.piece.retried
        },
        n < 0 && (n == i32::MIN || call.piece.retried) ==> step->Done_0 == Err::<
            String,
            LlamaError,
        >(LlamaError::TokenToPiece),
{
    assert(buf@.take(buf@.len() as int) =~= buf@);
}

/// The bytes that the first `k` answers give, one after the other.
pub open spec fn bytes_up_to(ns: Seq<i32>, bufs: Seq<Vec<u8>>, k: int) -> Seq<u8>
    decreases k,
{
    if k <= 0 {
        Seq::empty()
    } else {
        bytes_up_to(ns, bufs, k - 1) + bufs[k - 1]@.take(ns[k - 1] as int)
    }
}

/// All the bytes are those of the answers: each answer stands behind the ones before
/// it, and nothing else is among them.
pub proof fn lemma_bytes_are_those_of_the_answers(
    ns: Seq<i32>,
    bufs: Seq<Vec<u8>>,
    k: int,
    i: int,
)
    requires
        0 <= i < k,
    ensures
        bytes_up_to(ns, bufs, 0).len() == 0,
        bytes_up_to(ns, bufs, i + 1) == bytes_up_to(ns, bufs, i) + bufs[i]@.take(ns[i] as int),
        bytes_up_to(ns, bufs, k).len() >= bytes_up_to(ns, bufs, i + 1).len(),
        bytes_up_to(ns, bufs, k).take(bytes_up_to(ns, bufs, i + 1).len() as int) == bytes_up_to(
            ns,
            bufs,
            i + 1,
        ),
    decreases k,
{
    let shorter = bytes_up_to(ns, bufs, i + 1);
    if i + 1 < k {
        lemma_bytes_are_those_of_the_answers(ns, bufs, k - 1, i);
        assert(bytes_up_to(ns, bufs, k).take(shorter.len() as int) =~= bytes_up_to(
            ns,
            bufs,
            k - 1,
        ).take(shorter.len() as int));
    } else {
        assert(shorter.take(shorter.len() as int) =~= shorter);
    }
}

/// A text is put together from the pieces of all its tokens, in order. Where every
/// token is of the vocabulary and the engine answers each call with as many bytes as
/// it says, the tokens are asked for one after the other, plainly, each once; and in
/// the end there is the text of all the bytes.
pub proof fn lemma_text_is_put_together_in_order(
    model: LlamaModel,
    tokens: &[LlamaToken],
    ns: Seq<i32>,
    bufs: Seq<Vec<u8>>,
    steps: Seq<Step<Detokenize, Result<String, LlamaError>>>,
)
    requires
        steps.len() == tokens@.len() + 1,
        call_ensures(LlamaModel::detokenize, (&model, tokens), steps[0]),
        forall|i: int| 0 <= i < tokens@.len() ==> 0 <= (#[trigger] tokens@[i]).0 < model.n_vocab,
        forall|i: int| 0 <= i < tokens@.len() ==> 0 <= #[trigger] ns[i] <= bufs[i]@.len(),
        forall|i: int|
            0 <= i < tokens@.len() && steps[i] is Call ==> #[trigger] call_ensures(
                Detokenize::resume,
                (steps[i]->Call_0, ns[i], bufs[i]),
                steps[i + 1],
            ),
    ensures
        forall|i: int|
            0 <= i < tokens@.len() ==> {
                &&& (#[trigger] steps[i]) is Call
                &&& steps[i]->Call_0.spec_piece().token == tokens@[i]
                &&& !steps[i]->Call_0.spec_piece().special
                &&& steps[i]->Call_0.spec_piece().lstrip == 0
                &&& steps[i]->Call_0.spec_piece().buf_size == 8
                &&& !steps[i]->Call_0.spec_piece().retried
            },
        steps.last() is Done,
        steps.last()->Done_0 is Ok,
        steps.last()->Done_0->Ok_0@ == crate::text::decoder::utf8_stream_text(
            bytes_up_to(ns, bufs, tokens@.len() as int),
        ),
        valid_utf8(bytes_up_to(ns, bufs, tokens@.len() as int))
            ==> steps.last()->Done_0->Ok_0@ == decode_utf8(
            crate::text::decoder::without_bom(bytes_up_to(ns, bufs, tokens@.len() as int)),
        ),
{
    assert forall|i: int| 0 <= i < tokens@.len() implies {
        &&& (#[trigger] steps[i]) is Call
        &&& steps[i]->Call_0.spec_piece() == crate::model::first_piece_call(
            tokens@[i],
            false,
            None,
        )
    } by {
        lemma_text_so_far(model, tokens, ns, bufs, steps, i);
    }
    lemma_text_so_far(model, tokens, ns, bufs, steps, tokens@.len() as int);
}

proof fn lemma_text_so_far(
    model: LlamaModel,
    tokens: &[LlamaToken],
    ns: Seq<i32>,
    bufs: Seq<Vec<u8>>,
    steps: Seq<Step<Detokenize, Result<String, LlamaError>>>,
    k: int,
)
    requires
        0 <= k <= tokens@.len(),
        steps.len() == tokens@.len() + 1,
        call_ensures(LlamaModel::detokenize, (&model, tokens), steps[0]),
        forall|i: int| 0 <= i < tokens@.len() ==> 0 <= (#[trigger] tokens@[i]).0 < model.n_vocab,
        forall|i: int| 0 <= i < tokens@.len() ==> 0 <= #[trigger] ns[i] <= bufs[i]@.len(),
        forall|i: int|
            0 <= i < tokens@.len() && steps[i] is Call ==> #[trigger] call_ensures(
                Detokenize::resume,
                (steps[i]->Call_0, ns[i], bufs[i]),
                steps[i + 1],
            ),
    ensures
        Detokenize::goes_on(model, bytes_up_to(ns, bufs, k), tokens@.skip(k), steps[k]),
    decreases k,
{
    if k == 0 {
        assert(tokens@.skip(0) =~= tokens@);
    } else {
        lemma_text_so_far(model, tokens, ns, bufs, steps, k - 1);
        assert(tokens@.skip(k - 1)[0] == tokens@[k - 1]);
        assert(tokens@.skip(k - 1).skip(1) =~= tokens@.skip(k));
        let state = steps[k - 1]->Call_0;
        assert(call_ensures(
            Detokenize::resume,
            (state, ns[k - 1], bufs[k - 1]),
            steps[k - 1 + 1],
        ));
        let buf = bufs[k - 1]@;
        assert(buf.take(buf.len() as int) =~= buf);
        assert(ns[k - 1] <= buf.len());
        assert(crate::model::piece_of(ns[k - 1], buf) == buf.take(ns[k - 1] as int));
    }
}

/// A token that is none of the vocabulary ends a text with an error that names it,
/// whether it comes first or later; and no tokens make an empty text.
pub proof fn lemma_unknown_token_ends_a_text(
    model: LlamaModel,
    tokens: &[LlamaToken],
    first: Step<Detokenize, Result<String, LlamaError>>,
    state: Detokenize,
    n: i32,
    buf: Vec<u8>,
    later: Step<Detokenize, Result<String, LlamaError>>,
)
    requires
        call_ensures(LlamaModel::detokenize, (&model, tokens), first),
        call_ensures(Detokenize::resume, (state, n, buf), later),
        n >= 0,
    ensures
        tokens@.len() > 0 && !(0 <= tokens@[0].0 < model.n_vocab) ==> {
            &&& first is Done
            &&& first->Done_0 is Err
            &&& first->Done_0->Err_0 == (LlamaError::TokenOutOfRange {
                token: tokens@[0].0,
                n_vocab: model.n_vocab,
            })
        },
        state.rest().len() > 0 && !(0 <= state.rest()[0].0 < state.spec_model().n_vocab) ==> {
            &&& later is Done
            &&& later->Done_0 is Err
            &&& later->Done_0->Err_0 == (LlamaError::TokenOutOfRange {
                token: state.rest()[0].0,
                n_vocab: state.spec_model().n_vocab,
            })
        },
        tokens@.len() == 0 ==> {
            &&& first is Done
            &&& first->Done_0 is Ok
            &&& first->Done_0->Ok_0@.len() == 0
        },
{
    let none = Seq::<u8>::empty();
    encode_utf8_valid_utf8(Seq::empty());
    encode_utf8_decode_utf8(Seq::empty());
    assert(encode_utf8(Seq::empty()) =~= none);
}

/// Too small a buffer is enlarged to what is wanted, once, in the middle of a text
/// too: the same token, and nothing of the text is lost or read twice.
pub proof fn lemma_text_waits_for_a_larger_buffer(
    state: Detokenize,
    n: i32,
    buf: Vec<u8>,
    step: Step<Detokenize, Result<String, LlamaError>>,
)
    requires
        n < 0,
        call_ensures(Detokenize::resume, (state, n, buf), step),
    ensures
        n > i32::MIN && !state.spec_piece().retried ==> {
            &&& step is Call
            &&& step->Call_0.spec_piece().token == state.spec_piece().token
            &&& step->Call_0.spec_piece().special == state.spec_piece().special
            &&& step->Call_0.spec_piece().lstrip == state.spec_piece().lstrip
            &&& step->Call_0.spec_piece().buf_size == -n
            &&& step->Call_0.spec_piece().retried
            &&& step->Call_0.fed() == state.fed()
            &&& step->Call_0.rest() == state.rest()
        },
        n == i32::MIN || state.spec_piece().retried ==> step->Done_0 == Err::<String, LlamaError>(
            LlamaError::TokenToPiece,
        ),
{
}

/// A model is loaded by the encoding of its path, and so is an adapter; each is refused
/// just where the path is no text or holds a NUL.
pub proof fn lemma_files_are_loaded_by_their_paths(
    model: LlamaModel,
    path: Option<&str>,
    shown: String,
    r: Result<CText, LlamaError>,
    lora: Result<CText, LlamaLoraAdapterInitError>,
)
    requires
        call_ensures(LlamaModel::load_from_file, (path,), r),
        call_ensures(LlamaModel::lora_adapter_init, (&model, path, shown), lora),
    ensures
        r is Ok <==> path is Some && !path->0@.contains('\0'),
        r is Ok ==> r->Ok_0@ == encode_utf8(path->0@),
        r is Err ==> (r->Err_0 is InvalidPath <==> path is None),
        r is Err ==> (r->Err_0 is Nul <==> path is Some),
        lora is Ok <==> r is Ok,
        lora is Ok ==> lora->Ok_0@ == encode_utf8(path->0@),
        lora is Err ==> (lora->Err_0 is PathToStrError <==> path is None),
        lora is Err ==> (lora->Err_0 is NullError <==> path is Some),
{
    if path is Some {
        crate::cstr::lemma_nul_byte_iff_nul_char(path->0@);
    }
}

/// Both ways to ask for the tokens of a text ask alike, the one with a flag and the one
/// with a choice; and the engine is told how long the text is.
pub proof fn lemma_both_ways_to_tokenize_ask_alike(
    model: LlamaModel,
    text: &str,
    add_bos: AddBos,
    flagged: Result<TokenizeCall, LlamaError>,
    chosen: Result<TokenizeCall, LlamaError>,
    len: i32,
)
    requires
        call_ensures(LlamaModel::tokenize, (&model, text, add_bos is Always), flagged),
        call_ensures(LlamaModel::str_to_token, (&model, text, add_bos), chosen),
        chosen is Ok ==> call_ensures(TokenizeCall::text_len, (&chosen->Ok_0,), len),
    ensures
        flagged is Ok <==> chosen is Ok,
        flagged is Ok ==> {
            let a = flagged->Ok_0;
            let b = chosen->Ok_0;
            &&& a.text@ == b.text@
            &&& a.cap == b.cap
            &&& a.add_bos == b.add_bos
            &&& a.parse_special == b.parse_special
            &&& a.retried == b.retried
            &&& len == encode_utf8(text@).len()
        },
        flagged is Err ==> flagged->Err_0 is Nul && chosen->Err_0 is Nul,
{
    let bytes = encode_utf8(text@);
    if let Err(LlamaError::Nul(e)) = flagged {
        crate::cstr::lemma_error_points_at_the_first_nul(e, bytes);
    }
    if let Err(LlamaError::Nul(e)) = chosen {
        crate::cstr::lemma_error_points_at_the_first_nul(e, bytes);
    }
}

} // verus!
