use ik_llama_cpp_2::cstr::CText;
use ik_llama_cpp_2::{
    mtmd_default_marker, LlamaToken, MtmdBitmap, MtmdBitmapError, MtmdContext, MtmdContextParams,
    MtmdEncodeError, MtmdEvalError, MtmdInitError, MtmdInputChunk, MtmdInputChunkError,
    MtmdInputChunkType, MtmdInputChunks, MtmdInputText, MtmdTokenizeError,
};

fn text(s: &str) -> CText {
    CText::from_str(s).unwrap()
}

#[test]
fn default_marker_is_non_empty() {
    let marker = mtmd_default_marker(b"<__media__>");
    assert!(!marker.is_empty(), "default media marker should be non-empty");
    assert_eq!(mtmd_default_marker(b"<image>"), "<image>");
    assert_eq!(mtmd_default_marker(b"\xff"), "<__media__>");
}

#[test]
fn bitmap_from_image_data_valid_size_is_ok() {
    // 2x2 RGB image = 2 * 2 * 3 = 12 bytes.
    let bitmap = MtmdBitmap::from_image_data(2, 2, &[0u8; 12]);
    assert!(bitmap.is_ok(), "expected Ok for correctly-sized image data");
    let image = bitmap.unwrap();
    assert_eq!((image.nx, image.ny, image.data.len()), (2, 2, 12));
}

#[test]
fn bitmap_from_image_data_wrong_size_errors() {
    // 5 bytes != 2 * 2 * 3 = 12 -> InvalidDataSize.
    let bitmap = MtmdBitmap::from_image_data(2, 2, &[0u8; 5]);
    assert!(matches!(bitmap, Err(MtmdBitmapError::InvalidDataSize)));
}

#[test]
fn image_sizes_do_not_wrap() {
    // 65536 * 65536 * 3 is zero in 32 bits.
    assert!(matches!(
        MtmdBitmap::from_image_data(65536, 65536, &[]),
        Err(MtmdBitmapError::InvalidDataSize)
    ));
    assert!(matches!(
        MtmdBitmap::from_image_data(u32::MAX, u32::MAX, &[0; 3]),
        Err(MtmdBitmapError::InvalidDataSize)
    ));
    assert!(MtmdBitmap::from_image_data(0, 7, &[]).is_ok());
}

fn bitmap() -> MtmdBitmap {
    MtmdBitmap { bitmap: 7, nx: 1, ny: 2, data: vec![1, 2, 3, 4, 5, 6], audio: false, id: None }
}

#[test]
fn a_name_reads_back() {
    let mut b = MtmdBitmap::made(Some(bitmap())).unwrap();
    assert_eq!(b.id(), None);
    b.set_id("image_001").unwrap();
    assert_eq!(b.id(), Some("image_001".to_string()));
    b.set_id("é").unwrap();
    assert_eq!(b.id(), Some("é".to_string()));
    // A name that cannot be given leaves the old one.
    assert_eq!(b.set_id("a\0").unwrap_err().position, 1);
    assert_eq!(b.id(), Some("é".to_string()));
    assert_eq!((b.nx(), b.ny(), b.data(), b.is_audio()), (1, 2, &[1u8, 2, 3, 4, 5, 6][..], false));
    b.id = Some(CText::new(b"a\xffb".to_vec()).unwrap());
    assert_eq!(b.id(), Some("a\u{FFFD}b".to_string()));
}

#[test]
fn bitmaps_that_cannot_be_made_are_errors() {
    assert_eq!(MtmdBitmap::made(None).unwrap_err(), MtmdBitmapError::NullResult);
    assert_eq!(MtmdBitmap::from_file("a.png").unwrap().as_bytes(), b"a.png");
    match MtmdBitmap::from_file("\0") {
        Err(MtmdBitmapError::CStringError(e)) => assert_eq!(e.position, 0),
        other => panic!("unexpected {other:?}"),
    }
}

fn context(audio_bitrate: i32) -> MtmdContext {
    MtmdContext::made(Some(MtmdContext {
        use_non_causal: true,
        use_mrope: false,
        vision: true,
        audio: audio_bitrate > 0,
        audio_bitrate,
    }))
    .unwrap()
}

#[test]
fn a_context_tells_what_it_can_do() {
    let c = context(16000);
    assert!(c.decode_use_non_causal() && !c.decode_use_mrope());
    assert!(c.support_vision() && c.support_audio());
    assert_eq!(c.get_audio_bitrate(), Some(16000));
    assert_eq!(c.get_audio_sample_rate(), Some(16000));
    assert_eq!(context(0).get_audio_bitrate(), None);
    assert_eq!(context(-1).get_audio_sample_rate(), None);
    assert_eq!(MtmdContext::made(None), Err(MtmdInitError::NullResult));
    assert_eq!(MtmdContext::init_from_file("p.gguf").unwrap().as_bytes(), b"p.gguf");
    assert!(matches!(
        MtmdContext::init_from_file("p\0"),
        Err(MtmdInitError::CStringError(e)) if e.position == 1
    ));
    let params = MtmdContextParams {
        use_gpu: false,
        print_timings: true,
        n_threads: 4,
        media_marker: text("<__media__>"),
        image_min_tokens: -1,
        image_max_tokens: -1,
    };
    assert_eq!(params.media_marker.as_bytes(), b"<__media__>");
    let copy = params.clone();
    assert_eq!(copy.media_marker.as_bytes(), b"<__media__>");
    assert_eq!((copy.use_gpu, copy.print_timings, copy.n_threads), (false, true, 4));
    assert_eq!((copy.image_min_tokens, copy.image_max_tokens), (-1, -1));
}

fn chunk(kind: MtmdInputChunkType, ids: &[i32], n_tokens: usize, n_positions: i32) -> MtmdInputChunk {
    MtmdInputChunk {
        kind,
        tokens: ids.iter().map(|&id| LlamaToken(id)).collect(),
        n_tokens,
        n_positions,
        id: None,
    }
}

#[test]
fn input_is_cut_into_chunks() {
    let c = context(0);
    let input = |s: &str| MtmdInputText {
        text: s.to_string(),
        add_special: true,
        parse_special: false,
    };
    let one = bitmap();
    let two = MtmdBitmap { bitmap: 3, ..bitmap() };
    let text = c.tokenize(input("Here: <__media__>"), &[&one, &two, &one]).unwrap();
    assert_eq!(text.bitmaps, vec![7, 3, 7]);
    assert_eq!(text.text.as_bytes(), b"Here: <__media__>");
    assert!(text.add_special && !text.parse_special);
    assert!(c.tokenize(input("none"), &[]).unwrap().bitmaps.is_empty());
    assert!(matches!(
        c.tokenize(input("a\0"), &[]),
        Err(MtmdTokenizeError::CStringError(e)) if e.position == 1
    ));
    let chunks = || MtmdInputChunks {
        chunks: vec![chunk(MtmdInputChunkType::Text, &[1, 2], 2, 2)],
    };
    assert_eq!(c.tokenized(0, chunks()).unwrap().len(), 1);
    assert_eq!(
        c.tokenized(1, chunks()).unwrap_err(),
        MtmdTokenizeError::BitmapCountMismatch
    );
    assert_eq!(
        c.tokenized(2, chunks()).unwrap_err(),
        MtmdTokenizeError::ImagePreprocessingError
    );
    assert_eq!(c.tokenized(3, chunks()).unwrap_err(), MtmdTokenizeError::UnknownError(3));
    assert_eq!(c.tokenized(-1, chunks()).unwrap_err(), MtmdTokenizeError::UnknownError(-1));
    assert_eq!(c.encode_chunk(0), Ok(()));
    assert_eq!(c.encode_chunk(4), Err(MtmdEncodeError::EncodeFailure(4)));
}

#[test]
fn chunks_are_counted_and_summed() {
    let empty = MtmdInputChunks::new();
    assert_eq!(empty.len(), 0);
    assert!(empty.is_empty() && empty.get(0).is_none());
    assert!(MtmdInputChunks::default().is_empty());
    let chunks = MtmdInputChunks {
        chunks: vec![
            chunk(MtmdInputChunkType::Text, &[1, 2], 2, 2),
            chunk(MtmdInputChunkType::Image, &[], 256, 1),
            chunk(MtmdInputChunkType::Text, &[], 0, 0),
        ],
    };
    assert_eq!((chunks.len(), chunks.is_empty()), (3, false));
    assert_eq!((chunks.total_tokens(), chunks.total_positions()), (258, 3));
    let mixed = MtmdInputChunks {
        chunks: vec![
            chunk(MtmdInputChunkType::Image, &[], 1, i32::MAX),
            chunk(MtmdInputChunkType::Image, &[], 1, 5),
            chunk(MtmdInputChunkType::Image, &[], 1, -6),
        ],
    };
    assert_eq!(mixed.total_positions(), i32::MAX - 1);
    assert_eq!(empty.total_positions(), 0);
    let first = chunks.get(0).unwrap();
    assert_eq!(first.chunk_type(), MtmdInputChunkType::Text);
    assert_eq!(first.text_tokens(), Some(&[LlamaToken(1), LlamaToken(2)][..]));
    assert_eq!((first.n_tokens(), first.n_positions(), first.id()), (2, 2, None));
    assert_eq!(chunks.get(1).unwrap().text_tokens(), None);
    assert_eq!(chunks.get(2).unwrap().text_tokens(), None);
    assert!(chunks.get(3).is_none());
    assert_eq!(chunks.eval_chunks(0, 258), Ok(258));
    assert_eq!(chunks.eval_chunks(-1, 5), Err(MtmdEvalError::EvalFailure(-1)));
    assert_eq!(MtmdInputChunk::copy(None).unwrap_err(), MtmdInputChunkError::NullResult);
    let copied = MtmdInputChunk::copy(Some(chunk(MtmdInputChunkType::Audio, &[], 9, 9))).unwrap();
    assert_eq!(copied.n_tokens(), 9);
}
