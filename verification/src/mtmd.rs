//! Images and sound beside text.

use vstd::prelude::*;
use vstd::string::*;
use vstd::utf8::*;

use crate::cstr::{CText, NulError};
use crate::text::{str_from_utf8, string_from_utf8_lossy};
use crate::token::LlamaToken;

verus! {

/// What a chunk of input is.
#[derive(Clone, Copy, Debug, PartialEq, Eq, Structural)]
pub enum MtmdInputChunkType {
    Text,
    Image,
    Audio,
}

/// Settings of a multimodal context.
#[derive(Debug)]
pub struct MtmdContextParams {
    pub use_gpu: bool,
    pub print_timings: bool,
    pub n_threads: i32,
    /// What marks the place of an image or a sound in a text.
    pub media_marker: CText,
    /// The fewest tokens for an image; -1 leaves it to the model.
    pub image_min_tokens: i32,
    /// The most tokens for an image; -1 leaves it to the model.
    pub image_max_tokens: i32,
}

impl Clone for MtmdContextParams {
    fn clone(&self) -> (params: MtmdContextParams)
        ensures
            params.use_gpu == self.use_gpu,
            params.print_timings == self.print_timings,
            params.n_threads == self.n_threads,
            params.media_marker@ == self.media_marker@,
            params.image_min_tokens == self.image_min_tokens,
            params.image_max_tokens == self.image_max_tokens,
    {
        MtmdContextParams {
            use_gpu: self.use_gpu,
            print_timings: self.print_timings,
            n_threads: self.n_threads,
            media_marker: self.media_marker.clone(),
            image_min_tokens: self.image_min_tokens,
            image_max_tokens: self.image_max_tokens,
        }
    }
}

/// A text with markers in it.
#[derive(Clone, Debug)]
pub struct MtmdInputText {
    pub text: String,
    /// Whether to add special tokens.
    pub add_special: bool,
    /// Whether special tokens in the text count as such.
    pub parse_special: bool,
}

/// A context could not be made.
#[derive(Debug, PartialEq, Eq)]
pub enum MtmdInitError {
    /// The path held a NUL.
    CStringError(NulError),
    /// The engine could not make it.
    NullResult,
}

/// A bitmap could not be made.
#[derive(Debug, PartialEq, Eq)]
pub enum MtmdBitmapError {
    /// The path held a NUL.
    CStringError(NulError),
    /// The data is not three bytes for each pixel.
    InvalidDataSize,
    /// The engine could not make it.
    NullResult,
}

/// A list of chunks could not be made.
#[derive(Clone, Copy, Debug, PartialEq, Eq, Structural)]
pub enum MtmdInputChunksError {
    NullResult,
}

/// A chunk could not be made.
#[derive(Clone, Copy, Debug, PartialEq, Eq, Structural)]
pub enum MtmdInputChunkError {
    NullResult,
}

/// Input could not be cut into chunks.
#[derive(Debug, PartialEq, Eq)]
pub enum MtmdTokenizeError {
    /// There are more or fewer bitmaps than markers.
    BitmapCountMismatch,
    /// An image could not be prepared.
    ImagePreprocessingError,
    /// The text held a NUL.
    CStringError(NulError),
    /// Any other status of the engine.
    UnknownError(i32),
}

/// A chunk could not be encoded.
#[derive(Clone, Copy, Debug, PartialEq, Eq, Structural)]
pub enum MtmdEncodeError {
    /// The engine's status.
    EncodeFailure(i32),
}

/// Chunks could not be evaluated.
#[derive(Clone, Copy, Debug, PartialEq, Eq, Structural)]
pub enum MtmdEvalError {
    /// The engine's status.
    EvalFailure(i32),
}

/// What the engine told of a multimodal context.
#[derive(Clone, Copy, Debug, PartialEq, Eq, Structural)]
pub struct MtmdContext {
    pub use_non_causal: bool,
    pub use_mrope: bool,
    pub vision: bool,
    pub audio: bool,
    /// The rate of sound; not above zero where there is none.
    pub audio_bitrate: i32,
}

/// A text and the bitmaps for it, as the engine takes them.
#[derive(Debug, PartialEq, Eq)]
pub struct InputText {
    pub text: CText,
    pub add_special: bool,
    pub parse_special: bool,
    /// The bitmaps for the markers, in order.
    pub bitmaps: Vec<u64>,
}

/// An image of `nx` times `ny` pixels, three bytes each.
#[derive(Clone, Copy, Debug)]
pub struct ImageData<'a> {
    pub nx: u32,
    pub ny: u32,
    pub data: &'a [u8],
}

/// What the engine told of an image or a sound.
#[derive(Debug)]
pub struct MtmdBitmap {
    /// What tells the engine's bitmaps apart.
    pub bitmap: u64,
    pub nx: u32,
    pub ny: u32,
    pub data: Vec<u8>,
    pub audio: bool,
    pub id: Option<CText>,
}

/// What the engine told of a chunk.
#[derive(Debug)]
pub struct MtmdInputChunk {
    pub kind: MtmdInputChunkType,
    /// The tokens of a text.
    pub tokens: Vec<LlamaToken>,
    pub n_tokens: usize,
    pub n_positions: i32,
    pub id: Option<CText>,
}

/// Chunks in order.
#[derive(Debug)]
pub struct MtmdInputChunks {
    pub chunks: Vec<MtmdInputChunk>,
}

/// `text` is the name `id`, with replacement characters for what is not UTF-8.
pub open spec fn names(id: Option<CText>, text: Option<String>) -> bool {
    match id {
        None => text is None,
        Some(id) => {
            &&& text is Some
            &&& text->0@ == crate::text::utf8_lossy(id@)
            &&& valid_utf8(id@) ==> text->0@ == decode_utf8(id@)
        },
    }
}

fn name_of(id: &Option<CText>) -> (text: Option<String>)
    ensures
        names(*id, text),
{
    match id {
        None => None,
        Some(id) => Some(string_from_utf8_lossy(id.as_bytes())),
    }
}

/// The engine's bitmaps for `bitmaps`, in order.
pub open spec fn bitmap_handles(bitmaps: Seq<&MtmdBitmap>) -> Seq<u64> {
    bitmaps.map_values(|b: &MtmdBitmap| b.bitmap)
}

fn handles_of(bitmaps: &[&MtmdBitmap]) -> (handles: Vec<u64>)
    ensures
        handles@ == bitmap_handles(bitmaps@),
{
    let mut handles: Vec<u64> = Vec::new();
    let mut i: usize = 0;
    while i < bitmaps.len()
        invariant
            i <= bitmaps@.len(),
            handles@ == bitmap_handles(bitmaps@.take(i as int)),
        decreases bitmaps@.len() - i,
    {
        handles.push(bitmaps[i].bitmap);
        i += 1;
        assert(handles@ =~= bitmap_handles(bitmaps@.take(i as int)));
    }
    assert(bitmaps@.take(i as int) =~= bitmaps@);
    handles
}

impl MtmdContext {
    /// The first half of making a context: the path of the projection file as
    /// the engine takes it.
    pub fn init_from_file(mmproj_path: &str) -> (r: Result<CText, MtmdInitError>)
        ensures
            match r {
                Ok(path) => crate::cstr::is_c_text(encode_utf8(mmproj_path@), Ok(path)),
                Err(MtmdInitError::CStringError(e)) => crate::cstr::is_c_text(
                    encode_utf8(mmproj_path@),
                    Err(e),
                ),
                Err(MtmdInitError::NullResult) => false,
            },
    {
        match CText::from_str(mmproj_path) {
            Ok(path) => Ok(path),
            Err(e) => Err(MtmdInitError::CStringError(e)),
        }
    }

    /// The second half: what the engine told of the context, if it made one.
    pub fn made(made: Option<MtmdContext>) -> (r: Result<MtmdContext, MtmdInitError>)
        ensures
            r == match made {
                Some(ctx) => Ok::<MtmdContext, MtmdInitError>(ctx),
                None => Err(MtmdInitError::NullResult),
            },
    {
        match made {
            Some(ctx) => Ok(ctx),
            None => Err(MtmdInitError::NullResult),
        }
    }

    /// Whether decoding needs to look ahead.
    pub fn decode_use_non_causal(&self) -> (r: bool)
        ensures
            r == self.use_non_causal,
    {
        self.use_non_causal
    }

    /// Whether positions have several dimensions.
    pub fn decode_use_mrope(&self) -> (r: bool)
        ensures
            r == self.use_mrope,
    {
        self.use_mrope
    }

    pub fn support_vision(&self) -> (r: bool)
        ensures
            r == self.vision,
    {
        self.vision
    }

    pub fn support_audio(&self) -> (r: bool)
        ensures
            r == self.audio,
    {
        self.audio
    }

    /// The rate of sound in hertz, where there is sound.
    pub fn get_audio_bitrate(&self) -> (rate: Option<u32>)
        ensures
            rate == if self.audio_bitrate > 0 {
                Some(self.audio_bitrate as u32)
            } else {
                None::<u32>
            },
    {
        if self.audio_bitrate > 0 {
            Some(self.audio_bitrate as u32)
        } else {
            None
        }
    }

    /// As [`Self::get_audio_bitrate`].
    pub fn get_audio_sample_rate(&self) -> (rate: Option<u32>)
        ensures
            rate == if self.audio_bitrate > 0 {
                Some(self.audio_bitrate as u32)
            } else {
                None::<u32>
            },
    {
        self.get_audio_bitrate()
    }

    /// The first half of cutting input into chunks: the text and the bitmaps as the
    /// engine takes them.
    pub fn tokenize(&self, text: MtmdInputText, bitmaps: &[&MtmdBitmap]) -> (r: Result<
        InputText,
        MtmdTokenizeError,
    >)
        ensures
            match r {
                Ok(input) => {
                    &&& crate::cstr::is_c_text(encode_utf8(text.text@), Ok(input.text))
                    &&& input.add_special == text.add_special
                    &&& input.parse_special == text.parse_special
                    &&& input.bitmaps@ == bitmap_handles(bitmaps@)
                },
                Err(MtmdTokenizeError::CStringError(e)) => crate::cstr::is_c_text(
                    encode_utf8(text.text@),
                    Err(e),
                ),
                Err(_) => false,
            },
    {
        match CText::from_str(text.text.as_str()) {
            Ok(c_text) => Ok(
                InputText {
                    text: c_text,
                    add_special: text.add_special,
                    parse_special: text.parse_special,
                    bitmaps: handles_of(bitmaps),
                },
            ),
            Err(e) => Err(MtmdTokenizeError::CStringError(e)),
        }
    }

    /// The second half: reads the engine's status. `chunks` is what it filled in.
    pub fn tokenized(&self, status: i32, chunks: MtmdInputChunks) -> (r: Result<
        MtmdInputChunks,
        MtmdTokenizeError,
    >)
        ensures
            r == if status == 0 {
                Ok::<MtmdInputChunks, MtmdTokenizeError>(chunks)
            } else if status == 1 {
                Err(MtmdTokenizeError::BitmapCountMismatch)
            } else if status == 2 {
                Err(MtmdTokenizeError::ImagePreprocessingError)
            } else {
                Err(MtmdTokenizeError::UnknownError(status))
            },
    {
        match status {
            0 => Ok(chunks),
            1 => Err(MtmdTokenizeError::BitmapCountMismatch),
            2 => Err(MtmdTokenizeError::ImagePreprocessingError),
            _ => Err(MtmdTokenizeError::UnknownError(status)),
        }
    }

    /// Reads the engine's status for a chunk.
    pub fn encode_chunk(&self, status: i32) -> (r: Result<(), MtmdEncodeError>)
        ensures
            r == if status == 0 {
                Ok::<(), MtmdEncodeError>(())
            } else {
                Err(MtmdEncodeError::EncodeFailure(status))
            },
    {
        if status == 0 {
            Ok(())
        } else {
            Err(MtmdEncodeError::EncodeFailure(status))
        }
    }
}

impl MtmdBitmap {
    /// The first half of making a bitmap of an image: there have to be three
    /// bytes for each pixel.
    pub fn from_image_data<'a>(nx: u32, ny: u32, data: &'a [u8]) -> (r: Result<
        ImageData<'a>,
        MtmdBitmapError,
    >)
        ensures
            r == if data@.len() == nx * ny * 3 {
                Ok::<ImageData<'a>, MtmdBitmapError>(ImageData { nx, ny, data })
            } else {
                Err(MtmdBitmapError::InvalidDataSize)
            },
    {
        assert(nx * ny <= 0xffff_ffff * 0xffff_ffff) by (nonlinear_arith)
            requires
                nx <= 0xffff_ffff,
                ny <= 0xffff_ffff,
        ;
        assert(nx * ny >= 0) by (nonlinear_arith);
        let wanted: u128 = nx as u128 * ny as u128 * 3;
        if data.len() as u128 != wanted {
            return Err(MtmdBitmapError::InvalidDataSize);
        }
        Ok(ImageData { nx, ny, data })
    }

    /// The first half of making a bitmap of a file: its path as the engine takes
    /// it.
    pub fn from_file(path: &str) -> (r: Result<CText, MtmdBitmapError>)
        ensures
            match r {
                Ok(text) => crate::cstr::is_c_text(encode_utf8(path@), Ok(text)),
                Err(MtmdBitmapError::CStringError(e)) => crate::cstr::is_c_text(
                    encode_utf8(path@),
                    Err(e),
                ),
                Err(_) => false,
            },
    {
        match CText::from_str(path) {
            Ok(text) => Ok(text),
            Err(e) => Err(MtmdBitmapError::CStringError(e)),
        }
    }

    /// The second half: what the engine told of the bitmap, if it made one.
    pub fn made(made: Option<MtmdBitmap>) -> (r: Result<MtmdBitmap, MtmdBitmapError>)
        ensures
            r == match made {
                Some(bitmap) => Ok::<MtmdBitmap, MtmdBitmapError>(bitmap),
                None => Err(MtmdBitmapError::NullResult),
            },
    {
        match made {
            Some(bitmap) => Ok(bitmap),
            None => Err(MtmdBitmapError::NullResult),
        }
    }

    pub fn nx(&self) -> (n: u32)
        ensures
            n == self.nx,
    {
        self.nx
    }

    pub fn ny(&self) -> (n: u32)
        ensures
            n == self.ny,
    {
        self.ny
    }

    pub fn data(&self) -> (data: &[u8])
        ensures
            data@ == self.data@,
    {
        self.data.as_slice()
    }

    pub fn is_audio(&self) -> (r: bool)
        ensures
            r == self.audio,
    {
        self.audio
    }

    /// The name of the bitmap, where it has one.
    pub fn id(&self) -> (text: Option<String>)
        ensures
            names(self.id, text),
    {
        name_of(&self.id)
    }

    /// Names the bitmap. A name with a NUL changes nothing.
    pub fn set_id(&mut self, id: &str) -> (r: Result<(), NulError>)
        ensures
            final(self).bitmap == old(self).bitmap,
            final(self).nx == old(self).nx,
            final(self).ny == old(self).ny,
            final(self).data == old(self).data,
            final(self).audio == old(self).audio,
            match r {
                Ok(()) => {
                    &&& crate::cstr::nul_free(encode_utf8(id@))
                    &&& final(self).id matches Some(name)
                    &&& name@ == encode_utf8(id@)
                },
                Err(e) => e.found_in(encode_utf8(id@)) && final(self).id == old(self).id,
            },
    {
        match CText::from_str(id) {
            Ok(text) => {
                self.id = Some(text);
                Ok(())
            },
            Err(e) => Err(e),
        }
    }
}

/// The name that a bitmap was given reads back as it was written.
pub proof fn lemma_id_round_trip(id: Seq<char>, bitmap: MtmdBitmap, read: Option<String>)
    requires
        bitmap.id matches Some(name) && name@ == encode_utf8(id),
        names(bitmap.id, read),
    ensures
        read is Some,
        read->0@ == id,
{
    encode_utf8_valid_utf8(id);
    encode_utf8_decode_utf8(id);
}

impl MtmdInputChunk {
    pub fn chunk_type(&self) -> (kind: MtmdInputChunkType)
        ensures
            kind == self.kind,
    {
        self.kind
    }

    /// The tokens of a text that has any.
    pub fn text_tokens(&self) -> (tokens: Option<&[LlamaToken]>)
        ensures
            match tokens {
                Some(tokens) => {
                    &&& self.kind == MtmdInputChunkType::Text
                    &&& self.tokens@.len() > 0
                    &&& tokens@ == self.tokens@
                },
                None => self.kind != MtmdInputChunkType::Text || self.tokens@.len() == 0,
            },
    {
        if self.chunk_type() != MtmdInputChunkType::Text || self.tokens.len() == 0 {
            return None;
        }
        Some(self.tokens.as_slice())
    }

    pub fn n_tokens(&self) -> (n: usize)
        ensures
            n == self.n_tokens,
    {
        self.n_tokens
    }

    pub fn n_positions(&self) -> (n: i32)
        ensures
            n == self.n_positions,
    {
        self.n_positions
    }

    /// The name of the chunk, where it has one.
    pub fn id(&self) -> (text: Option<String>)
        ensures
            names(self.id, text),
    {
        name_of(&self.id)
    }

    /// A copy of a chunk, if the engine could make it.
    pub fn copy(copied: Option<MtmdInputChunk>) -> (r: Result<MtmdInputChunk, MtmdInputChunkError>)
        ensures
            r == match copied {
                Some(chunk) => Ok::<MtmdInputChunk, MtmdInputChunkError>(chunk),
                None => Err(MtmdInputChunkError::NullResult),
            },
    {
        match copied {
            Some(chunk) => Ok(chunk),
            None => Err(MtmdInputChunkError::NullResult),
        }
    }
}

/// The tokens of all chunks together.
pub open spec fn sum_tokens(chunks: Seq<MtmdInputChunk>) -> nat
    decreases chunks.len(),
{
    if chunks.len() == 0 {
        0
    } else {
        sum_tokens(chunks.drop_last()) + chunks.last().n_tokens as nat
    }
}

/// The positions of all chunks together.
pub open spec fn sum_positions(chunks: Seq<MtmdInputChunk>) -> int
    decreases chunks.len(),
{
    if chunks.len() == 0 {
        0
    } else {
        sum_positions(chunks.drop_last()) + chunks.last().n_positions
    }
}

proof fn lemma_sum_tokens_grows(chunks: Seq<MtmdInputChunk>, n: int)
    requires
        0 <= n <= chunks.len(),
    ensures
        sum_tokens(chunks.take(n)) <= sum_tokens(chunks),
    decreases chunks.len() - n,
{
    if n < chunks.len() {
        lemma_sum_tokens_grows(chunks, n + 1);
        assert(chunks.take(n + 1).drop_last() =~= chunks.take(n));
    } else {
        assert(chunks.take(n) =~= chunks);
    }
}

impl Default for MtmdInputChunks {
    fn default() -> (chunks: MtmdInputChunks)
        ensures
            chunks.chunks@.len() == 0,
    {
        MtmdInputChunks::new()
    }
}

impl MtmdInputChunks {
    pub fn new() -> (chunks: MtmdInputChunks)
        ensures
            chunks.chunks@.len() == 0,
    {
        MtmdInputChunks { chunks: Vec::new() }
    }

    pub fn len(&self) -> (n: usize)
        ensures
            n == self.chunks@.len(),
    {
        self.chunks.len()
    }

    pub fn is_empty(&self) -> (r: bool)
        ensures
            r == (self.chunks@.len() == 0),
    {
        self.len() == 0
    }

    /// The chunk with this index, where there is one.
    pub fn get(&self, index: usize) -> (chunk: Option<&MtmdInputChunk>)
        ensures
            chunk == if index < self.chunks@.len() {
                Some(&self.chunks@[index as int])
            } else {
                None
            },
    {
        if index >= self.len() {
            return None;
        }
        Some(&self.chunks[index])
    }

    /// How many tokens the chunks take.
    pub fn total_tokens(&self) -> (n: usize)
        requires
            sum_tokens(self.chunks@) <= usize::MAX,
        ensures
            n == sum_tokens(self.chunks@),
    {
        let mut total: usize = 0;
        let mut i: usize = 0;
        assert(self.chunks@.take(0) =~= Seq::empty());
        while i < self.chunks.len()
            invariant
                i <= self.chunks@.len(),
                total == sum_tokens(self.chunks@.take(i as int)),
                sum_tokens(self.chunks@) <= usize::MAX,
            decreases self.chunks@.len() - i,
        {
            proof {
                let upto = self.chunks@.take(i + 1);
                assert(upto.drop_last() =~= self.chunks@.take(i as int));
                assert(upto.last() == self.chunks@[i as int]);
                lemma_sum_tokens_grows(self.chunks@, i + 1);
            }
            total += self.chunks[i].n_tokens;
            i += 1;
        }
        assert(self.chunks@.take(i as int) =~= self.chunks@);
        total
    }

    /// How many positions the chunks take.
    pub fn total_positions(&self) -> (n: i32)
        requires
            i32::MIN <= sum_positions(self.chunks@) <= i32::MAX,
        ensures
            n == sum_positions(self.chunks@),
    {
        let mut total: i128 = 0;
        let mut i: usize = 0;
        assert(self.chunks@.take(0) =~= Seq::empty());
        while i < self.chunks.len()
            invariant
                i <= self.chunks@.len(),
                total == sum_positions(self.chunks@.take(i as int)),
                -0x8000_0000 * i <= total <= 0x8000_0000 * i,
            decreases self.chunks@.len() - i,
        {
            proof {
                let upto = self.chunks@.take(i + 1);
                assert(upto.drop_last() =~= self.chunks@.take(i as int));
                assert(upto.last() == self.chunks@[i as int]);
            }
            total += self.chunks[i].n_positions as i128;
            i += 1;
        }
        assert(self.chunks@.take(i as int) =~= self.chunks@);
        total as i32
    }

    /// Reads the engine's answer for an evaluation: its status, and the position
    /// that comes next.
    pub fn eval_chunks(&self, status: i32, new_n_past: i32) -> (r: Result<i32, MtmdEvalError>)
        ensures
            r == if status == 0 {
                Ok::<i32, MtmdEvalError>(new_n_past)
            } else {
                Err(MtmdEvalError::EvalFailure(status))
            },
    {
        if status == 0 {
            Ok(new_n_past)
        } else {
            Err(MtmdEvalError::EvalFailure(status))
        }
    }
}

/// The marker that the engine uses by default, from the bytes that it tells;
/// where these are no text, the usual one.
pub fn mtmd_default_marker(told: &[u8]) -> (marker: &str)
    ensures
        marker@ == if valid_utf8(told@) {
            decode_utf8(told@)
        } else {
            "<__media__>"@
        },
{
    match str_from_utf8(told) {
        Ok(marker) => marker,
        Err(_) => "<__media__>",
    }
}

/// Input goes to the engine as it was given: the text as its encoding, both flags, and
/// a bitmap for each that was given, in order. It is refused just where the text holds
/// a NUL.
pub proof fn lemma_input_goes_to_the_engine(
    ctx: MtmdContext,
    text: MtmdInputText,
    bitmaps: &[&MtmdBitmap],
    r: Result<InputText, MtmdTokenizeError>,
)
    requires
        call_ensures(MtmdContext::tokenize, (&ctx, text, bitmaps), r),
    ensures
        r is Ok <==> !text.text@.contains('\0'),
        r is Err ==> r->Err_0 is CStringError,
        r matches Ok(input) ==> {
            &&& input.text@ == encode_utf8(text.text@)
            &&& input.add_special == text.add_special
            &&& input.parse_special == text.parse_special
            &&& input.bitmaps@.len() == bitmaps@.len()
            &&& forall|i: int|
                0 <= i < bitmaps@.len() ==> #[trigger] input.bitmaps@[i] == bitmaps@[i].bitmap
        },
{
    crate::cstr::lemma_nul_byte_iff_nul_char(text.text@);
}

/// An image is taken just where there are three bytes for each of its pixels, with its
/// width, its height and its bytes as they were given.
pub proof fn lemma_image_has_three_bytes_a_pixel<'a>(
    nx: u32,
    ny: u32,
    data: &'a [u8],
    r: Result<ImageData<'a>, MtmdBitmapError>,
)
    requires
        call_ensures(MtmdBitmap::from_image_data, (nx, ny, data), r),
    ensures
        r is Ok <==> data@.len() == 3 * (nx * ny),
        r is Err ==> r->Err_0 is InvalidDataSize,
        r matches Ok(image) ==> image.nx == nx && image.ny == ny && image.data@ == data@,
{
}

/// A name reads back as the text of its bytes where these are UTF-8, and there is one
/// just where one was given; a name that was set reads back as it was written.
pub proof fn lemma_name_is_read_as_it_is(
    bitmap: MtmdBitmap,
    read: Option<String>,
    chunk: MtmdInputChunk,
    chunk_read: Option<String>,
)
    requires
        call_ensures(MtmdBitmap::id, (&bitmap,), read),
        call_ensures(MtmdInputChunk::id, (&chunk,), chunk_read),
    ensures
        read is Some <==> bitmap.id is Some,
        bitmap.id is Some && valid_utf8(bitmap.id->0@) ==> encode_utf8(read->0@) == bitmap.id->0@,
        chunk_read is Some <==> chunk.id is Some,
        chunk.id is Some && valid_utf8(chunk.id->0@) ==> encode_utf8(chunk_read->0@)
            == chunk.id->0@,
{
    if bitmap.id is Some && valid_utf8(bitmap.id->0@) {
        decode_utf8_encode_utf8(bitmap.id->0@);
    }
    if chunk.id is Some && valid_utf8(chunk.id->0@) {
        decode_utf8_encode_utf8(chunk.id->0@);
    }
}

/// The totals grow by each chunk: a list with one chunk more has that chunk's tokens
/// and positions more, and an empty one has none.
pub proof fn lemma_each_chunk_adds_to_the_totals(
    chunks: MtmdInputChunks,
    longer: MtmdInputChunks,
    last: MtmdInputChunk,
    tokens: (usize, usize),
    positions: (i32, i32),
)
    requires
        longer.chunks@ == chunks.chunks@.push(last),
        call_ensures(MtmdInputChunks::total_tokens, (&chunks,), tokens.0),
        call_ensures(MtmdInputChunks::total_tokens, (&longer,), tokens.1),
        call_ensures(MtmdInputChunks::total_positions, (&chunks,), positions.0),
        call_ensures(MtmdInputChunks::total_positions, (&longer,), positions.1),
    ensures
        tokens.1 == tokens.0 + last.n_tokens,
        positions.1 == positions.0 + last.n_positions,
        chunks.chunks@.len() == 0 ==> tokens.0 == 0 && positions.0 == 0,
{
    assert(longer.chunks@.drop_last() =~= chunks.chunks@);
}

/// The projection file and the file of a bitmap are named to the engine by the
/// encodings of their paths, unless these hold a NUL.
pub proof fn lemma_media_files_go_by_their_paths(
    path: &str,
    projection: Result<CText, MtmdInitError>,
    bitmap: Result<CText, MtmdBitmapError>,
)
    requires
        call_ensures(MtmdContext::init_from_file, (path,), projection),
        call_ensures(MtmdBitmap::from_file, (path,), bitmap),
    ensures
        projection is Ok <==> !path@.contains('\0'),
        projection is Ok ==> projection->Ok_0@ == encode_utf8(path@),
        bitmap is Ok <==> projection is Ok,
        bitmap is Ok ==> bitmap->Ok_0@ == encode_utf8(path@),
{
    crate::cstr::lemma_nul_byte_iff_nul_char(path@);
}

/// The engine's statuses are told apart: zero is success, with what the engine filled in;
/// one and two have errors of their own where input is cut into chunks; and every other
/// error holds its status.
pub proof fn lemma_media_statuses_are_told_apart(
    ctx: MtmdContext,
    chunks: MtmdInputChunks,
    status: i32,
    new_n_past: i32,
    cut: Result<MtmdInputChunks, MtmdTokenizeError>,
    encoded: Result<(), MtmdEncodeError>,
    evaluated: Result<i32, MtmdEvalError>,
)
    requires
        call_ensures(MtmdContext::tokenized, (&ctx, status, chunks), cut),
        call_ensures(MtmdContext::encode_chunk, (&ctx, status), encoded),
        call_ensures(MtmdInputChunks::eval_chunks, (&chunks, status, new_n_past), evaluated),
    ensures
        cut is Ok <==> status == 0,
        encoded is Ok <==> status == 0,
        evaluated is Ok <==> status == 0,
        cut is Ok ==> cut->Ok_0 == chunks,
        evaluated is Ok ==> evaluated->Ok_0 == new_n_past,
        cut is Err ==> {
            &&& cut->Err_0 is BitmapCountMismatch <==> status == 1
            &&& cut->Err_0 is ImagePreprocessingError <==> status == 2
            &&& cut->Err_0 is UnknownError <==> status != 1 && status != 2
            &&& cut->Err_0 is UnknownError ==> cut->Err_0->UnknownError_0 == status
        },
        encoded is Err ==> encoded->Err_0->EncodeFailure_0 == status,
        evaluated is Err ==> evaluated->Err_0->EvalFailure_0 == status,
{
}

/// A chunk of text gives its tokens just where it has any, and no other chunk does; the
/// chunk with an index is given just where there is one.
pub proof fn lemma_chunks_are_given_as_they_are(
    chunks: MtmdInputChunks,
    index: usize,
    chunk: Option<&MtmdInputChunk>,
    n: usize,
    other: MtmdInputChunk,
    tokens: Option<&[LlamaToken]>,
)
    requires
        call_ensures(MtmdInputChunks::get, (&chunks, index), chunk),
        call_ensures(MtmdInputChunks::len, (&chunks,), n),
        call_ensures(MtmdInputChunk::text_tokens, (&other,), tokens),
    ensures
        n == chunks.chunks@.len(),
        chunk is Some <==> index < n,
        chunk is Some ==> *chunk->0 == chunks.chunks@[index as int],
        tokens is Some <==> other.kind is Text && other.tokens@.len() > 0,
        tokens is Some ==> tokens->0@ == other.tokens@,
{
}

} // verus!
