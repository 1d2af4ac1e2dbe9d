//! Models: loading, cutting text into tokens, and the text of tokens.

pub mod chat;
pub mod laws;
pub mod lora;
pub mod meta;
pub mod params;

use vstd::prelude::*;
use vstd::string::*;
use vstd::utf8::*;

use crate::context::params::ContextSettings;
use crate::context::{EngineContext, LlamaContext};
use crate::cstr::CText;
use crate::error::LlamaError;
use crate::model::meta::ModelFacts;
use crate::path::{path_text, PathError};
use crate::step::{cut_to, Step};
use crate::text::decoder::PieceDecoder;
use crate::text::string_from_utf8_lossy;
use crate::token::{from_raw_ids, LlamaToken};

verus! {

/// Whether text starts with the token that begins a sequence.
#[derive(Clone, Copy, Debug, PartialEq, Eq, Structural)]
pub enum AddBos {
    Always,
    Never,
}

/// What the engine told of a loaded model.
#[derive(Clone, Copy, Debug, PartialEq, Eq, Structural)]
pub struct LlamaModel {
    /// The number of tokens in the vocabulary.
    pub n_vocab: i32,
    /// The number of layers for multi-token prediction.
    pub n_nextn_layer: i32,
    /// The token that begins a sequence.
    pub bos: LlamaToken,
    /// The token that ends a sequence.
    pub eos: LlamaToken,
    pub facts: ModelFacts,
}

/// A call that cuts `text` into tokens.
#[derive(Debug)]
pub struct TokenizeCall {
    pub text: CText,
    /// The number of tokens that the buffer for the answer holds.
    pub cap: i32,
    pub add_bos: bool,
    /// Whether special tokens in the text count as such.
    pub parse_special: bool,
    /// Whether the engine has been asked before, with too small a buffer.
    pub retried: bool,
}

impl TokenizeCall {
    pub open spec fn wf(self) -> bool {
        self.cap >= 0 && self.text@.len() <= i32::MAX
    }

    /// The engine asks for a larger buffer, and it is to be asked again.
    pub open spec fn asks_again(self, n: i32) -> bool {
        n < 0 && n != i32::MIN && !self.retried
    }

    /// The length of the text, as the engine takes it.
    pub fn text_len(&self) -> (n: i32)
        requires
            self.wf(),
        ensures
            n == self.text@.len(),
    {
        self.text.len() as i32
    }

    /// Reads the engine's answer: the number of tokens in `buf`, or, negated, the
    /// number that the buffer should have held. The second answer counts.
    pub fn resume(self, n: i32, buf: Vec<i32>) -> (step: Step<
        TokenizeCall,
        Result<Vec<LlamaToken>, LlamaError>,
    >)
        requires
            self.wf(),
        ensures
            match step {
                Step::Done(Ok(tokens)) => n >= 0 && tokens@ == crate::token::tokens_of(
                    crate::step::cut(buf@, n as int),
                ),
                Step::Done(Err(e)) => {
                    &&& n < 0 && !self.asks_again(n)
                    &&& e == LlamaError::Tokenize
                },
                Step::Call(again) => {
                    &&& self.asks_again(n)
                    &&& again.wf()
                    &&& again.text == self.text
                    &&& again.add_bos == self.add_bos
                    &&& again.parse_special == self.parse_special
                    &&& again.cap == -n
                    &&& again.retried
                },
            },
    {
        if n >= 0 {
            let filled = cut_to(buf, n);
            return Step::Done(Ok(from_raw_ids(filled.as_slice())));
        }
        if self.retried || n == i32::MIN {
            return Step::Done(Err(LlamaError::Tokenize));
        }
        Step::Call(
            TokenizeCall {
                text: self.text,
                cap: -n,
                add_bos: self.add_bos,
                parse_special: self.parse_special,
                retried: true,
            },
        )
    }
}

/// The engine is asked for the tokens of a text at most twice.
pub proof fn lemma_tokens_are_asked_for_at_most_twice(call: TokenizeCall, n: i32)
    requires
        call.retried,
    ensures
        !call.asks_again(n),
{
}

/// A call for the bytes of a token.
#[derive(Clone, Copy, Debug)]
pub struct PieceCall {
    pub token: LlamaToken,
    /// The size of the buffer for the answer.
    pub buf_size: usize,
    pub special: bool,
    /// How many leading spaces to strip.
    pub lstrip: i32,
    /// Whether the engine has been asked before, with too small a buffer.
    pub retried: bool,
}

/// The bytes of a token that the engine's answer gives, where it gives them.
pub open spec fn piece_of(n: i32, buf: Seq<u8>) -> Seq<u8> {
    crate::step::cut(buf, n as int)
}

impl PieceCall {
    /// The engine asks for a larger buffer, and it is to be asked again.
    pub open spec fn asks_again(self, n: i32) -> bool {
        n < 0 && n != i32::MIN && !self.retried
    }

    /// The same call with a buffer of `-n` bytes.
    pub open spec fn enlarged(self, n: i32) -> PieceCall {
        PieceCall { buf_size: (-n) as usize, retried: true, ..self }
    }

    /// The size of the buffer, as the engine takes it.
    pub open spec fn told_size(self) -> int {
        if self.buf_size <= i32::MAX {
            self.buf_size as int
        } else {
            i32::MAX as int
        }
    }

    /// `n` and `buf` are how an engine answers for which the bytes of the token are
    /// `piece`: where these fit, with their number and the bytes themselves, and
    /// otherwise with the number that it wants room for, negated.
    pub open spec fn is_answered(self, piece: Seq<u8>, n: i32, buf: Seq<u8>) -> bool {
        if piece.len() <= self.told_size() {
            &&& n == piece.len()
            &&& buf.len() >= piece.len()
            &&& buf.take(n as int) == piece
        } else {
            n == -piece.len()
        }
    }

    /// `step` is what [`Self::resume`] makes of the answer `n` and `buf`.
    pub open spec fn goes_on(
        self,
        n: i32,
        buf: Seq<u8>,
        step: Step<PieceCall, Result<Vec<u8>, LlamaError>>,
    ) -> bool {
        match step {
            Step::Done(Ok(bytes)) => n >= 0 && bytes@ == piece_of(n, buf),
            Step::Done(Err(e)) => n < 0 && !self.asks_again(n) && e == LlamaError::TokenToPiece,
            Step::Call(again) => self.asks_again(n) && again == self.enlarged(n),
        }
    }

    /// The size of the buffer, as the engine takes it.
    pub fn buf_len(&self) -> (n: i32)
        ensures
            n == self.told_size(),
            n <= self.buf_size,
            n == self.buf_size || n == i32::MAX,
    {
        if self.buf_size <= i32::MAX as usize {
            self.buf_size as i32
        } else {
            i32::MAX
        }
    }

    /// Reads the engine's answer: the number of bytes in `buf`, or, negated, the
    /// size that the buffer should have had. The second answer counts.
    pub fn resume(self, n: i32, buf: Vec<u8>) -> (step: Step<PieceCall, Result<Vec<u8>, LlamaError>>)
        ensures
            self.goes_on(n, buf@, step),
    {
        if n >= 0 {
            return Step::Done(Ok(cut_to(buf, n)));
        }
        if self.retried || n == i32::MIN {
            return Step::Done(Err(LlamaError::TokenToPiece));
        }
        Step::Call(PieceCall { buf_size: (-n) as usize, retried: true, ..self })
    }
}

impl LlamaModel {
    /// The context for this model that the engine made with `settings`, if it
    /// made one.
    pub fn new_context(&self, settings: ContextSettings, made: Option<EngineContext>) -> (r: Result<
        LlamaContext,
        LlamaError,
    >)
        ensures
            match r {
                Ok(ctx) => {
                    &&& made matches Some(told)
                    &&& ctx.n_vocab == self.n_vocab
                    &&& ctx.n_ctx == told.n_ctx
                    &&& ctx.n_embd == told.n_embd
                    &&& ctx.settings == settings
                },
                Err(e) => made is None && e == LlamaError::ContextCreation,
            },
    {
        LlamaContext::new(self, settings, made)
    }

    /// `token` is one of the vocabulary.
    pub open spec fn knows(self, token: LlamaToken) -> bool {
        0 <= token.0 < self.n_vocab
    }

    /// The error for a token that is none of the vocabulary.
    pub open spec fn unknown(self, token: LlamaToken) -> LlamaError {
        LlamaError::TokenOutOfRange { token: token.0, n_vocab: self.n_vocab }
    }

    /// The first half of loading a model: the path, where it is text, as the
    /// engine takes it.
    pub fn load_from_file(path: Option<&str>) -> (r: Result<CText, LlamaError>)
        ensures
            match r {
                Ok(text) => crate::path::is_path_text(crate::path::path_chars(path), Ok(text)),
                Err(LlamaError::InvalidPath) => path is None,
                Err(LlamaError::Nul(e)) => crate::path::is_path_text(
                    crate::path::path_chars(path),
                    Err(PathError::Nul(e)),
                ),
                Err(_) => false,
            },
    {
        match path_text(path) {
            Ok(text) => Ok(text),
            Err(PathError::NotText) => Err(LlamaError::InvalidPath),
            Err(PathError::Nul(e)) => Err(LlamaError::Nul(e)),
        }
    }

    /// The second half: what the engine told of the model, or nothing where it
    /// could not load it. `shown` is the path for the message.
    pub fn loaded(shown: String, model: Option<LlamaModel>) -> (r: Result<LlamaModel, LlamaError>)
        ensures
            r == match model {
                Some(model) => Ok::<LlamaModel, LlamaError>(model),
                None => Err(LlamaError::ModelLoad(shown)),
            },
    {
        match model {
            Some(model) => Ok(model),
            None => Err(LlamaError::ModelLoad(shown)),
        }
    }

    pub fn n_vocab(&self) -> (n: i32)
        ensures
            n == self.n_vocab,
    {
        self.n_vocab
    }

    pub fn n_nextn_layer(&self) -> (n: i32)
        ensures
            n == self.n_nextn_layer,
    {
        self.n_nextn_layer
    }

    pub fn token_bos(&self) -> (token: LlamaToken)
        ensures
            token == self.bos,
    {
        self.bos
    }

    pub fn token_eos(&self) -> (token: LlamaToken)
        ensures
            token == self.eos,
    {
        self.eos
    }

    fn check_token(&self, token: LlamaToken) -> (r: Result<(), LlamaError>)
        ensures
            r == if self.knows(token) {
                Ok::<(), LlamaError>(())
            } else {
                Err(self.unknown(token))
            },
    {
        if token.0 < 0 || token.0 >= self.n_vocab {
            return Err(LlamaError::TokenOutOfRange { token: token.0, n_vocab: self.n_vocab });
        }
        Ok(())
    }

    /// Starts cutting `text` into tokens. Special tokens in the text count as
    /// such.
    pub fn tokenize(&self, text: &str, add_bos: bool) -> (r: Result<TokenizeCall, LlamaError>)
        requires
            encode_utf8(text@).len() + 16 <= i32::MAX,
        ensures
            match r {
                Ok(call) => {
                    &&& crate::cstr::nul_free(encode_utf8(text@))
                    &&& call.wf()
                    &&& call.text@ == encode_utf8(text@)
                    &&& call.cap == encode_utf8(text@).len() + 16
                    &&& call.add_bos == add_bos
                    &&& call.parse_special
                    &&& !call.retried
                },
                Err(LlamaError::Nul(e)) => e.found_in(encode_utf8(text@)),
                Err(_) => false,
            },
    {
        let c_text = match CText::from_str(text) {
            Ok(c_text) => c_text,
            Err(e) => return Err(LlamaError::Nul(e)),
        };
        let cap: i32 = c_text.len() as i32 + 16;
        Ok(TokenizeCall { text: c_text, cap, add_bos, parse_special: true, retried: false })
    }

    /// As [`Self::tokenize`].
    pub fn str_to_token(&self, text: &str, add_bos: AddBos) -> (r: Result<TokenizeCall, LlamaError>)
        requires
            encode_utf8(text@).len() + 16 <= i32::MAX,
        ensures
            match r {
                Ok(call) => {
                    &&& crate::cstr::nul_free(encode_utf8(text@))
                    &&& call.wf()
                    &&& call.text@ == encode_utf8(text@)
                    &&& call.cap == encode_utf8(text@).len() + 16
                    &&& call.add_bos == (add_bos == AddBos::Always)
                    &&& call.parse_special
                    &&& !call.retried
                },
                Err(LlamaError::Nul(e)) => e.found_in(encode_utf8(text@)),
                Err(_) => false,
            },
    {
        self.tokenize(text, matches!(add_bos, AddBos::Always))
    }

    /// Starts asking for the bytes of `token`. A buffer of `buf_size` bytes, one
    /// at least, is tried first.
    pub fn token_to_piece_bytes(
        &self,
        token: LlamaToken,
        buf_size: usize,
        special: bool,
        lstrip: Option<u16>,
    ) -> (r: Result<PieceCall, LlamaError>)
        requires
            buf_size <= isize::MAX,
        ensures
            r == if self.knows(token) {
                Ok::<PieceCall, LlamaError>(first_bytes_call(token, buf_size, special, lstrip))
            } else {
                Err(self.unknown(token))
            },
            r is Ok <==> 0 <= token.0 < self.n_vocab,
            r matches Ok(call) ==> {
                &&& call.token == token
                &&& call.buf_size == (if buf_size > 0 {
                    buf_size as int
                } else {
                    1
                })
                &&& call.special == special
                &&& call.lstrip == (if lstrip is Some {
                    lstrip->0 as int
                } else {
                    0
                })
                &&& !call.retried
            },
            r matches Err(e) ==> e == (LlamaError::TokenOutOfRange {
                token: token.0,
                n_vocab: self.n_vocab,
            }),
    {
        match self.check_token(token) {
            Ok(()) => {},
            Err(e) => return Err(e),
        }
        Ok(
            PieceCall {
                token,
                buf_size: if buf_size == 0 {
                    1
                } else {
                    buf_size
                },
                special,
                lstrip: match lstrip {
                    Some(n) => n as i32,
                    None => 0,
                },
                retried: false,
            },
        )
    }
}

/// The engine is asked for the bytes of a token at most twice, for the same
/// token and in the same way, and the second time with just the room that it
/// wanted.
pub proof fn lemma_piece_is_asked_for_at_most_twice(call: PieceCall, n: i32, m: i32)
    requires
        call.asks_again(n),
    ensures
        !call.enlarged(n).asks_again(m),
        call.enlarged(n).buf_size == -n,
        call.enlarged(n).token == call.token,
        call.enlarged(n).special == call.special,
        call.enlarged(n).lstrip == call.lstrip,
{
}

/// The first call for the bytes of a token: a buffer of `buf_size` bytes, or of one
/// where that is none.
pub open spec fn first_bytes_call(
    token: LlamaToken,
    buf_size: usize,
    special: bool,
    lstrip: Option<u16>,
) -> PieceCall {
    PieceCall {
        token,
        buf_size: if buf_size == 0 {
            1
        } else {
            buf_size
        },
        special,
        lstrip: match lstrip {
            Some(n) => n as i32,
            None => 0,
        },
        retried: false,
    }
}

/// One way through asking for the bytes of a token: the first answer and the step
/// that it leads to, and the second ones, which count where there is a second call.
pub struct PieceRun {
    pub n: i32,
    pub buf: Seq<u8>,
    pub step: Step<PieceCall, Result<Vec<u8>, LlamaError>>,
    pub again_n: i32,
    pub again_buf: Seq<u8>,
    pub again_step: Step<PieceCall, Result<Vec<u8>, LlamaError>>,
}

impl PieceRun {
    /// Asking starts with `call`, goes the way that [`PieceCall::resume`] takes it,
    /// and is answered by an engine for which the bytes of the token are `piece`.
    pub open spec fn asks_for(self, call: PieceCall, piece: Seq<u8>) -> bool {
        &&& call.is_answered(piece, self.n, self.buf)
        &&& call.goes_on(self.n, self.buf, self.step)
        &&& match self.step {
            Step::Call(again) => {
                &&& again.is_answered(piece, self.again_n, self.again_buf)
                &&& again.goes_on(self.again_n, self.again_buf, self.again_step)
            },
            Step::Done(_) => true,
        }
    }

    /// The step that is left when there is nothing more to ask.
    pub open spec fn last(self) -> Step<PieceCall, Result<Vec<u8>, LlamaError>> {
        match self.step {
            Step::Call(_) => self.again_step,
            Step::Done(_) => self.step,
        }
    }

    /// Asking has ended well, with the bytes `piece`.
    pub open spec fn ends_with(self, piece: Seq<u8>) -> bool {
        match self.last() {
            Step::Done(Ok(bytes)) => bytes@ == piece,
            _ => false,
        }
    }
}

/// The size that is tried first is a guess and no more: whatever the two sizes,
/// none included, asking ends well with the same bytes, which are the whole piece.
pub proof fn lemma_piece_does_not_depend_on_first_size(
    token: LlamaToken,
    special: bool,
    lstrip: Option<u16>,
    piece: Seq<u8>,
    size_a: usize,
    size_b: usize,
    a: PieceRun,
    b: PieceRun,
)
    requires
        piece.len() <= i32::MAX,
        a.asks_for(first_bytes_call(token, size_a, special, lstrip), piece),
        b.asks_for(first_bytes_call(token, size_b, special, lstrip), piece),
    ensures
        a.ends_with(piece),
        b.ends_with(piece),
{
    lemma_asking_gives_the_whole_piece(
        first_bytes_call(token, size_a, special, lstrip),
        piece,
        a,
    );
    lemma_asking_gives_the_whole_piece(
        first_bytes_call(token, size_b, special, lstrip),
        piece,
        b,
    );
}

proof fn lemma_asking_gives_the_whole_piece(call: PieceCall, piece: Seq<u8>, run: PieceRun)
    requires
        piece.len() <= i32::MAX,
        !call.retried,
        run.asks_for(call, piece),
    ensures
        run.ends_with(piece),
{
    if run.n >= 0 {
        assert(piece_of(run.n, run.buf) =~= run.buf.take(run.n as int));
    } else {
        assert(call.enlarged(run.n).told_size() == piece.len());
        assert(piece_of(run.again_n, run.again_buf) =~= run.again_buf.take(run.again_n as int));
    }
}

/// The first call for the text of a token: a buffer of eight bytes.
pub open spec fn first_piece_call(token: LlamaToken, special: bool, lstrip: Option<u16>) -> PieceCall {
    first_bytes_call(token, 8, special, lstrip)
}

/// A call for the text of a token within a stream.
#[derive(Clone, Copy, Debug)]
pub struct TextCall {
    pub piece: PieceCall,
}

impl TextCall {
    /// Reads the engine's answer, as [`PieceCall::resume`], and decodes the bytes
    /// through `decoder`.
    pub fn resume(self, n: i32, buf: Vec<u8>, decoder: &mut PieceDecoder) -> (step: Step<
        TextCall,
        Result<String, LlamaError>,
    >)
        requires
            old(decoder).wf(),
        ensures
            final(decoder).wf(),
            match step {
                Step::Done(Ok(text)) => {
                    &&& n >= 0
                    &&& final(decoder).fed() == old(decoder).fed() + piece_of(n, buf@)
                    &&& crate::text::decoder::utf8_stream_text(final(decoder).fed())
                        == crate::text::decoder::utf8_stream_text(old(decoder).fed()) + text@
                },
                Step::Done(Err(e)) => {
                    &&& n < 0 && !self.piece.asks_again(n)
                    &&& e == LlamaError::TokenToPiece
                    &&& *final(decoder) == *old(decoder)
                },
                Step::Call(again) => {
                    &&& self.piece.asks_again(n)
                    &&& again.piece == self.piece.enlarged(n)
                    &&& *final(decoder) == *old(decoder)
                },
            },
    {
        match self.piece.resume(n, buf) {
            Step::Done(Ok(bytes)) => Step::Done(Ok(decoder.decode(bytes.as_slice()))),
            Step::Done(Err(e)) => Step::Done(Err(e)),
            Step::Call(piece) => Step::Call(TextCall { piece }),
        }
    }
}

/// A call for the text of a token by itself.
#[derive(Clone, Copy, Debug)]
pub struct LossyCall {
    pub piece: PieceCall,
}

impl LossyCall {
    /// Reads the engine's answer, as [`PieceCall::resume`]. What is not UTF-8 is
    /// replaced.
    pub fn resume(self, n: i32, buf: Vec<u8>) -> (step: Step<LossyCall, Result<String, LlamaError>>)
        ensures
            match step {
                Step::Done(Ok(text)) => {
                    &&& n >= 0
                    &&& text@ == crate::text::utf8_lossy(piece_of(n, buf@))
                    &&& valid_utf8(piece_of(n, buf@)) ==> text@ == decode_utf8(piece_of(n, buf@))
                },
                Step::Done(Err(e)) => {
                    &&& n < 0 && !self.piece.asks_again(n)
                    &&& e == LlamaError::TokenToPiece
                },
                Step::Call(again) => {
                    &&& self.piece.asks_again(n)
                    &&& again.piece == self.piece.enlarged(n)
                },
            },
    {
        match self.piece.resume(n, buf) {
            Step::Done(Ok(bytes)) => Step::Done(Ok(string_from_utf8_lossy(bytes.as_slice()))),
            Step::Done(Err(e)) => Step::Done(Err(e)),
            Step::Call(piece) => Step::Call(LossyCall { piece }),
        }
    }
}

/// Text being put together from the pieces of several tokens.
pub struct Detokenize {
    model: LlamaModel,
    tokens: Vec<LlamaToken>,
    /// How many tokens have been asked for, with the pending one.
    asked: usize,
    piece: PieceCall,
    decoder: PieceDecoder,
    text: String,
}

impl Detokenize {
    /// The text is what the decoder has given out, and the pending call is for
    /// a token of the vocabulary.
    pub closed spec fn wf(&self) -> bool {
        &&& self.decoder.wf()
        &&& self.text@ == crate::text::decoder::utf8_stream_text(self.decoder.fed())
        &&& 0 < self.asked <= self.tokens@.len()
        &&& self.piece.token == self.tokens@[self.asked - 1]
        &&& self.model.knows(self.piece.token)
        &&& !self.piece.special
        &&& self.piece.lstrip == 0
    }

    pub closed spec fn spec_model(&self) -> LlamaModel {
        self.model
    }

    /// The bytes of the tokens before the pending one.
    pub closed spec fn fed(&self) -> Seq<u8> {
        self.decoder.fed()
    }

    /// The tokens that come after the pending one.
    pub closed spec fn rest(&self) -> Seq<LlamaToken> {
        self.tokens@.skip(self.asked as int)
    }

    pub closed spec fn spec_piece(&self) -> PieceCall {
        self.piece
    }

    /// The call that the engine is to make.
    pub fn piece(&self) -> (piece: PieceCall)
        ensures
            piece == self.spec_piece(),
    {
        self.piece
    }

    /// `step` is how the text goes on once the tokens before `rest` have given
    /// the bytes `fed`.
    pub open spec fn goes_on(
        model: LlamaModel,
        fed: Seq<u8>,
        rest: Seq<LlamaToken>,
        step: Step<Detokenize, Result<String, LlamaError>>,
    ) -> bool {
        if rest.len() == 0 {
            &&& step matches Step::Done(Ok(text))
            &&& text@ == crate::text::decoder::utf8_stream_text(fed)
            &&& valid_utf8(fed) ==> text@ == decode_utf8(crate::text::decoder::without_bom(fed))
        } else if !model.knows(rest[0]) {
            step == Step::<Detokenize, Result<String, LlamaError>>::Done(
                Err(model.unknown(rest[0])),
            )
        } else {
            &&& step matches Step::Call(next)
            &&& next.wf()
            &&& next.spec_model() == model
            &&& next.fed() == fed
            &&& next.rest() == rest.skip(1)
            &&& next.spec_piece() == first_piece_call(rest[0], false, None)
        }
    }

    /// Asks for token `asked`, or ends the text where there is none.
    fn next(
        model: LlamaModel,
        tokens: Vec<LlamaToken>,
        asked: usize,
        decoder: PieceDecoder,
        text: String,
    ) -> (step: Step<Detokenize, Result<String, LlamaError>>)
        requires
            decoder.wf(),
            text@ == crate::text::decoder::utf8_stream_text(decoder.fed()),
            asked <= tokens@.len(),
        ensures
            Detokenize::goes_on(model, decoder.fed(), tokens@.skip(asked as int), step),
    {
        if asked == tokens.len() {
            proof {
                decoder.lemma_gives_out_what_it_took();
            }
            return Step::Done(Ok(text));
        }
        match model.token_to_piece_bytes(tokens[asked], 8, false, None) {
            Ok(piece) => {
                assert(tokens@.skip(asked + 1) =~= tokens@.skip(asked as int).skip(1));
                Step::Call(Detokenize { model, tokens, asked: asked + 1, piece, decoder, text })
            },
            Err(e) => Step::Done(Err(e)),
        }
    }

    /// Reads the engine's answer, as [`PieceCall::resume`], and goes on with the
    /// next token.
    pub fn resume(self, n: i32, buf: Vec<u8>) -> (step: Step<Detokenize, Result<String, LlamaError>>)
        requires
            self.wf(),
        ensures
            if n >= 0 {
                Detokenize::goes_on(
                    self.spec_model(),
                    self.fed() + piece_of(n, buf@),
                    self.rest(),
                    step,
                )
            } else if self.spec_piece().asks_again(n) {
                &&& step matches Step::Call(again)
                &&& again.wf()
                &&& again.spec_model() == self.spec_model()
                &&& again.fed() == self.fed()
                &&& again.rest() == self.rest()
                &&& again.spec_piece() == self.spec_piece().enlarged(n)
            } else {
                step == Step::<Detokenize, Result<String, LlamaError>>::Done(
                    Err(LlamaError::TokenToPiece),
                )
            },
    {
        let Detokenize { model, tokens, asked, piece, decoder, text } = self;
        let mut decoder = decoder;
        let mut text = text;
        match piece.resume(n, buf) {
            Step::Done(Ok(bytes)) => {
                let given = decoder.decode(bytes.as_slice());
                text.append(given.as_str());
                Detokenize::next(model, tokens, asked, decoder, text)
            },
            Step::Done(Err(e)) => Step::Done(Err(e)),
            Step::Call(piece) => Step::Call(
                Detokenize { model, tokens, asked, piece, decoder, text },
            ),
        }
    }
}

impl LlamaModel {
    /// Starts asking for the text of `token` within a stream.
    pub fn token_to_piece(&self, token: LlamaToken, special: bool, lstrip: Option<u16>) -> (r:
        Result<TextCall, LlamaError>)
        ensures
            r == if self.knows(token) {
                Ok::<TextCall, LlamaError>(
                    TextCall { piece: first_piece_call(token, special, lstrip) },
                )
            } else {
                Err(self.unknown(token))
            },
            r is Ok <==> 0 <= token.0 < self.n_vocab,
            r matches Ok(call) ==> {
                &&& call.piece.token == token
                &&& call.piece.buf_size == 8
                &&& call.piece.special == special
                &&& call.piece.lstrip == (if lstrip is Some {
                    lstrip->0 as int
                } else {
                    0
                })
                &&& !call.piece.retried
            },
            r matches Err(e) ==> e == (LlamaError::TokenOutOfRange {
                token: token.0,
                n_vocab: self.n_vocab,
            }),
    {
        match self.token_to_piece_bytes(token, 8, special, lstrip) {
            Ok(piece) => Ok(TextCall { piece }),
            Err(e) => Err(e),
        }
    }

    /// Starts asking for the text of `token` by itself. A special token has no
    /// text.
    pub fn token_to_piece_lossy(&self, token: LlamaToken) -> (r: Result<LossyCall, LlamaError>)
        ensures
            r == if self.knows(token) {
                Ok::<LossyCall, LlamaError>(
                    LossyCall { piece: first_piece_call(token, false, None) },
                )
            } else {
                Err(self.unknown(token))
            },
            r is Ok <==> 0 <= token.0 < self.n_vocab,
            r matches Ok(call) ==> {
                &&& call.piece.token == token
                &&& call.piece.buf_size == 8
                &&& call.piece.special == false
                &&& call.piece.lstrip == 0
                &&& !call.piece.retried
            },
            r matches Err(e) ==> e == (LlamaError::TokenOutOfRange {
                token: token.0,
                n_vocab: self.n_vocab,
            }),
    {
        match self.token_to_piece_bytes(token, 8, false, None) {
            Ok(piece) => Ok(LossyCall { piece }),
            Err(e) => Err(e),
        }
    }

    /// Starts putting together the text of `tokens`. Special tokens are dropped.
    pub fn detokenize(&self, tokens: &[LlamaToken]) -> (step: Step<
        Detokenize,
        Result<String, LlamaError>,
    >)
        ensures
            Detokenize::goes_on(*self, Seq::empty(), tokens@, step),
    {
        let decoder = PieceDecoder::new();
        let text = String::new();
        assert(decoder.fed() =~= Seq::empty());
        assert(text@ =~= crate::text::decoder::utf8_stream_text(decoder.fed()));
        assert(tokens@.skip(0) =~= tokens@);
        Detokenize::next(*self, vstd::slice::slice_to_vec(tokens), 0, decoder, text)
    }
}

} // verus!
