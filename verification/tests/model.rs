use ik_llama_cpp_2::context::params::ContextSettings;
use ik_llama_cpp_2::context::EngineContext;
use ik_llama_cpp_2::llama_backend::BackendSlot;
use ik_llama_cpp_2::model::lora::{
    LlamaLoraAdapter, LlamaLoraAdapterInitError, LlamaLoraAdapterRemoveError,
    LlamaLoraAdapterSetError,
};
use ik_llama_cpp_2::model::meta::{MetaQuery, ModelFacts, StringCall};
use ik_llama_cpp_2::model::params::ModelSettings;
use ik_llama_cpp_2::model::{PieceCall, TokenizeCall};
use ik_llama_cpp_2::step::Step;
use ik_llama_cpp_2::text::decoder::PieceDecoder;
use ik_llama_cpp_2::{
    AddBos, LlamaBackend, LlamaBatch, LlamaContextParams, LlamaError, LlamaModel, LlamaModelParams,
    LlamaToken,
};

const BOS: i32 = 256;

fn model() -> LlamaModel {
    LlamaModel {
        n_vocab: 257,
        n_nextn_layer: 1,
        bos: LlamaToken(BOS),
        eos: LlamaToken(0),
        facts: ModelFacts {
            meta_count: 3,
            size: 1 << 33,
            n_params: 7_000_000_000,
            n_ctx_train: 4096,
            n_embd: 8,
            n_layer: 2,
            rope_type: -1,
        },
    }
}

/// A toy engine whose tokens are bytes, and one more that begins a sequence.
fn engine_tokenize(call: &TokenizeCall) -> (i32, Vec<i32>) {
    let mut all: Vec<i32> = Vec::new();
    if call.add_bos {
        all.push(BOS);
    }
    all.extend(call.text.as_bytes().iter().map(|&b| i32::from(b)));
    assert_eq!(call.text_len() as usize, call.text.as_bytes().len());
    if all.len() > call.cap as usize {
        return (-(all.len() as i32), vec![0; call.cap as usize]);
    }
    let n = all.len() as i32;
    all.resize(call.cap as usize, 0);
    (n, all)
}

fn engine_piece(call: &PieceCall) -> (i32, Vec<u8>) {
    let mut buf = vec![0u8; call.buf_size];
    assert_eq!(call.buf_len() as usize, call.buf_size);
    if call.token.0 == BOS {
        let shown: &[u8] = if call.special { b"<a long special token>" } else { b"" };
        if shown.len() > buf.len() {
            return (-(shown.len() as i32), buf);
        }
        buf[..shown.len()].copy_from_slice(shown);
        return (shown.len() as i32, buf);
    }
    buf[0] = call.token.0 as u8;
    (1, buf)
}

fn tokenize(text: &str, add_bos: bool) -> Result<Vec<LlamaToken>, LlamaError> {
    let mut call = model().tokenize(text, add_bos)?;
    loop {
        let (n, buf) = engine_tokenize(&call);
        match call.resume(n, buf) {
            Step::Done(r) => return r,
            Step::Call(again) => call = again,
        }
    }
}

fn detokenize(tokens: &[LlamaToken]) -> Result<String, LlamaError> {
    let mut step = model().detokenize(tokens);
    loop {
        match step {
            Step::Done(r) => return r,
            Step::Call(run) => {
                let (n, buf) = engine_piece(&run.piece());
                step = run.resume(n, buf);
            }
        }
    }
}

#[test]
fn tokenize_roundtrip_domain_strings() {
    let cases: &[(&str, &str)] = &[
        ("Hello, world!", "Hello"),
        ("Привет, мир — как дела?", "мир"),
        ("Unicode: “quotes” — dash… café", "café"),
        (r#"{"tool":"disk_check","args":{"drive":"C:","deep":true}}"#, "disk_check"),
        (
            "<tool_call>{\"name\":\"restart_service\",\"arguments\":{\"svc\":\"spooler\"}}</tool_call>",
            "restart_service",
        ),
        ("Run `chkdsk C:\\ /f /r` then reboot; exit code 0x80070057.", "chkdsk"),
        ("/var/log/syslog:1234: error E_FAIL at --path=/etc/foo.conf", "syslog"),
    ];
    for (input, needle) in cases {
        let toks = tokenize(input, true).expect("tokenize");
        assert!(!toks.is_empty(), "no tokens for {input:?}");
        let out = detokenize(&toks).expect("detokenize");
        assert!(
            out.contains(needle),
            "roundtrip of {input:?} lost {needle:?}: got {out:?}"
        );
        // With tokens that are bytes, nothing at all is lost.
        assert_eq!(&out, input);
    }

    // BOS is prepended when requested, not when not.
    let with_bos = tokenize("test", true).unwrap();
    let without_bos = tokenize("test", false).unwrap();
    assert!(
        with_bos.len() >= without_bos.len(),
        "add_bos should not shrink the token count"
    );
    assert_eq!(with_bos[0], LlamaToken(BOS));
}

#[test]
fn tokenize_asks_again_once_with_the_room_wanted() {
    let model = model();
    let call = model.str_to_token("hello", AddBos::Always).unwrap();
    assert_eq!((call.cap, call.add_bos, call.retried), (21, true, false));
    assert!(!model.str_to_token("hello", AddBos::Never).unwrap().add_bos);
    assert!(call.parse_special && model.tokenize("hello", false).unwrap().parse_special);
    let Step::Call(again) = call.resume(-40, vec![0; 21]) else {
        panic!("too small a buffer is tried again");
    };
    assert_eq!((again.cap, again.add_bos, again.retried), (40, true, true));
    assert!(again.parse_special);
    assert_eq!(again.text.as_bytes(), b"hello");
    let Step::Done(failed) = again.resume(-41, vec![0; 40]) else {
        panic!("the second answer counts");
    };
    assert_eq!(failed, Err(LlamaError::Tokenize));

    let call = model.tokenize("x", false).unwrap();
    let Step::Done(tokens) = call.resume(2, vec![5, 6, 7, 8]) else {
        panic!("an answer ends it");
    };
    assert_eq!(tokens, Ok(vec![LlamaToken(5), LlamaToken(6)]));

    // The one length that has no positive counterpart.
    let call = model.tokenize("x", false).unwrap();
    assert!(matches!(
        call.resume(i32::MIN, vec![]),
        Step::Done(Err(LlamaError::Tokenize))
    ));

    match model.tokenize("a\0b", true) {
        Err(LlamaError::Nul(e)) => assert_eq!((e.position, e.bytes), (1, b"a\0b".to_vec())),
        other => panic!("unexpected {other:?}"),
    }
}

#[test]
fn out_of_range_token_is_error_not_abort() {
    let model = model();
    let n_vocab = model.n_vocab();
    assert!(n_vocab > 0);

    for bad in [n_vocab, i32::MAX, -1] {
        let err = model
            .token_to_piece_lossy(LlamaToken(bad))
            .expect_err("out-of-range token must error");
        assert!(
            matches!(err, LlamaError::TokenOutOfRange { token, n_vocab: nv } if token == bad && nv == n_vocab),
            "expected TokenOutOfRange for {bad}, got {err:?}"
        );
    }

    // detokenize funnels through the same guard.
    assert!(
        matches!(
            detokenize(&[LlamaToken(999_999_999)]),
            Err(LlamaError::TokenOutOfRange { .. })
        ),
        "detokenize with an out-of-range id must error"
    );
    assert!(matches!(
        detokenize(&[LlamaToken(65), LlamaToken(-7)]),
        Err(LlamaError::TokenOutOfRange { token: -7, n_vocab: 257 })
    ));
    assert!(model.token_to_piece(LlamaToken(257), true, None).is_err());
    assert!(model.token_to_piece_bytes(LlamaToken(257), 8, true, None).is_err());

    // A valid token still converts.
    let tok = tokenize("hi", true)
        .expect("tokenize")
        .first()
        .copied()
        .expect("at least one token");
    assert!(
        model.token_to_piece_lossy(tok).is_ok(),
        "a valid token must still convert"
    );
}

#[test]
fn pieces_are_asked_for_again_once() {
    let model = model();
    let call = model.token_to_piece_bytes(LlamaToken(5), 0, true, Some(3)).unwrap();
    assert_eq!((call.buf_size, call.special, call.lstrip), (1, true, 3));
    let call = model.token_to_piece_bytes(LlamaToken(BOS), 8, true, None).unwrap();
    let (n, buf) = engine_piece(&call);
    assert_eq!(n, -22);
    let Step::Call(again) = call.resume(n, buf) else {
        panic!("too small a buffer is tried again");
    };
    assert_eq!((again.buf_size, again.retried), (22, true));
    let (n, buf) = engine_piece(&again);
    match again.resume(n, buf) {
        Step::Done(Ok(bytes)) => assert_eq!(bytes, b"<a long special token>"),
        other => panic!("unexpected {other:?}"),
    }
    assert!(matches!(
        again.resume(-1, vec![]),
        Step::Done(Err(LlamaError::TokenToPiece))
    ));
    assert!(matches!(
        call.resume(i32::MIN, vec![]),
        Step::Done(Err(LlamaError::TokenToPiece))
    ));
    let huge = PieceCall { buf_size: i32::MAX as usize + 1, ..call };
    assert_eq!(huge.buf_len(), i32::MAX);
}

#[test]
fn a_split_character_comes_out_whole() {
    let model = model();
    let mut decoder = PieceDecoder::new();
    let mut text = String::new();
    for &b in "é — ok".as_bytes() {
        let call = model.token_to_piece(LlamaToken(i32::from(b)), false, None).unwrap();
        let (n, buf) = engine_piece(&call.piece);
        match call.resume(n, buf, &mut decoder) {
            Step::Done(Ok(piece)) => text.push_str(&piece),
            other => panic!("unexpected {other:?}"),
        }
    }
    assert_eq!(text, "é — ok");
    // By itself, half a character is replaced.
    let call = model.token_to_piece_lossy(LlamaToken(0xC3)).unwrap();
    match call.resume(1, vec![0xC3]) {
        Step::Done(Ok(piece)) => assert_eq!(piece, "\u{FFFD}"),
        other => panic!("unexpected {other:?}"),
    }
    assert!(matches!(
        call.resume(-9, vec![0; 8]),
        Step::Call(again) if again.piece.buf_size == 9
    ));
    // What stays open at the end of a stream is held back.
    assert_eq!(detokenize(&[LlamaToken(65), LlamaToken(0xC3)]), Ok("A".to_string()));
    assert_eq!(detokenize(&[]), Ok(String::new()));
}

#[test]
fn a_failed_piece_ends_the_text() {
    let Step::Call(run) = model().detokenize(&[LlamaToken(65)]) else {
        panic!("the engine is asked");
    };
    let Step::Call(again) = run.resume(-20, vec![0; 8]) else {
        panic!("and asked again");
    };
    assert_eq!((again.piece().buf_size, again.piece().retried), (20, true));
    assert!(matches!(
        again.resume(-20, vec![0; 20]),
        Step::Done(Err(LlamaError::TokenToPiece))
    ));
}

#[test]
fn a_piece_does_not_depend_on_the_first_size() {
    let model = model();
    for size in [0, 1, 8, 21, 22, 23, 100] {
        let mut call = model.token_to_piece_bytes(LlamaToken(BOS), size, true, None).unwrap();
        let bytes = loop {
            let (n, buf) = engine_piece(&call);
            match call.resume(n, buf) {
                Step::Call(again) => call = again,
                Step::Done(bytes) => break bytes.unwrap(),
            }
        };
        assert_eq!(bytes, b"<a long special token>", "first size {size}");
    }
}

#[test]
fn invalid_loads_return_typed_errors() {
    // happy path still works
    let path = LlamaModel::load_from_file(Some("model.gguf")).unwrap();
    assert_eq!(path.as_bytes(), b"model.gguf");
    let ok = LlamaModel::loaded("model.gguf".to_string(), Some(model()));
    assert!(ok.is_ok(), "valid model should load");

    // missing file -> ModelLoad error (no panic)
    let missing = "/nonexistent/definitely-not-a-model.gguf";
    assert!(LlamaModel::load_from_file(Some(missing)).is_ok());
    let missing = LlamaModel::loaded(missing.to_string(), None);
    assert_eq!(
        missing,
        Err(LlamaError::ModelLoad("/nonexistent/definitely-not-a-model.gguf".to_string()))
    );

    // a real file that is not a GGUF -> ModelLoad error (no panic)
    assert!(LlamaModel::load_from_file(Some("Cargo.toml")).is_ok());
    let not_gguf = LlamaModel::loaded("Cargo.toml".to_string(), None);
    assert!(
        matches!(not_gguf, Err(LlamaError::ModelLoad(_))),
        "non-gguf should be ModelLoad error, got {not_gguf:?}"
    );

    // interior NUL in a path -> Nul error
    let nul = LlamaModel::load_from_file(Some("bad\0path.gguf"));
    assert!(
        matches!(nul, Err(LlamaError::Nul(_))),
        "NUL path should be Nul error, got {nul:?}"
    );

    // a path that is no text
    assert!(matches!(LlamaModel::load_from_file(None), Err(LlamaError::InvalidPath)));
}

fn engine_settings() -> ContextSettings {
    ContextSettings {
        n_ctx: 512,
        n_batch: 2048,
        n_ubatch: 512,
        n_seq_max: 1,
        seed: u32::MAX,
        n_threads: 4,
        n_threads_batch: 4,
        flash_attn: true,
        mtp: false,
        embeddings: false,
        pooling_type: -1,
    }
}

#[test]
fn load_context_decode_teardown_repeat() {
    let mut slot = BackendSlot::new();
    for _cycle in 0..2 {
        let backend = LlamaBackend::init(&mut slot).expect("backend init");
        assert_eq!(
            LlamaBackend::init(&mut slot).err(),
            Some(LlamaError::BackendAlreadyInitialized)
        );
        let model = LlamaModel::loaded("m".to_string(), Some(model())).expect("load model");
        let settings = LlamaContextParams::default()
            .with_n_ctx(Some(512))
            .as_raw(engine_settings());
        let ctx = model
            .new_context(settings, Some(EngineContext { n_ctx: 512, n_embd: 8 }))
            .expect("context");
        let toks = tokenize("hello", true).expect("tokenize");
        let mut batch = LlamaBatch::new(toks.len().max(8), 1);
        batch.add_sequence(&toks, 0, false).expect("add");
        ctx.decode(0).expect("decode");
        backend.release(&mut slot);
    }
    // A second `init` after the first was dropped must succeed.
    let backend = LlamaBackend::init(&mut slot).expect("re-init after drop");
    backend.release(&mut slot);
    assert!(!slot.live);
}

#[test]
fn told_numbers_are_kept() {
    let m = model();
    assert_eq!(m.n_nextn_layer(), 1);
    assert_eq!(m.token_bos(), LlamaToken(BOS));
    assert_eq!(m.token_eos(), LlamaToken(0));
    assert_eq!(m.meta_count(), 3);
    assert_eq!(m.size(), 1 << 33);
    assert_eq!(m.n_params(), 7_000_000_000);
    assert_eq!(m.n_ctx_train(), 4096);
    assert_eq!(m.n_embd(), 8);
    assert_eq!(m.n_layer(), 2);
    assert_eq!(m.rope_type(), -1);
}

/// A toy engine that has one text to give.
fn read(text: Option<&[u8]>) -> Option<String> {
    let mut call = StringCall::Probe;
    loop {
        let (n, buf) = match (text, call) {
            (None, _) => (-1, vec![]),
            (Some(t), StringCall::Probe) => (t.len() as i32, vec![]),
            (Some(t), StringCall::Fill { cap }) => {
                assert_eq!(cap, t.len() + 1);
                let mut buf = t.to_vec();
                buf.push(0);
                (t.len() as i32, buf)
            }
        };
        match call.resume(n, buf) {
            Step::Done(r) => return r,
            Step::Call(next) => call = next,
        }
    }
}

#[test]
fn metadata_is_read_in_two_calls() {
    let m = model();
    match m.meta_val_str("general.architecture") {
        Some(MetaQuery::ValStr(key)) => assert_eq!(key.as_bytes(), b"general.architecture"),
        other => panic!("unexpected {other:?}"),
    }
    assert_eq!(m.meta_val_str("a\0"), None);
    assert_eq!(m.meta_key_by_index(2), MetaQuery::KeyByIndex(2));
    assert_eq!(m.meta_val_str_by_index(-1), MetaQuery::ValStrByIndex(-1));
    assert_eq!(read(Some(b"qwen35")), Some("qwen35".to_string()));
    assert_eq!(read(Some(b"")), Some(String::new()));
    assert_eq!(read(None), None);
    assert_eq!(read(Some(b"\xff")), None);
    assert_eq!(m.desc(read(Some(b"a model"))), "a model");
    assert_eq!(m.desc(read(None)), "");
    assert!(matches!(
        StringCall::Fill { cap: 4 }.resume(-1, vec![0; 4]),
        Step::Done(None)
    ));
    assert!(matches!(
        StringCall::Probe.resume(i32::MAX, vec![]),
        Step::Call(StringCall::Fill { cap: 2_147_483_648 })
    ));
}

#[test]
fn adapters_report_what_went_wrong() {
    let m = model();
    let path = m.lora_adapter_init(Some("a.gguf"), "a.gguf".to_string()).unwrap();
    assert_eq!(path.as_bytes(), b"a.gguf");
    assert_eq!(
        m.lora_adapter_init(None, "bad path".to_string()),
        Err(LlamaLoraAdapterInitError::PathToStrError("bad path".to_string()))
    );
    assert!(matches!(
        m.lora_adapter_init(Some("\0"), "x".to_string()),
        Err(LlamaLoraAdapterInitError::NullError(e)) if e.position == 0
    ));
    assert_eq!(m.loaded_lora_adapter(None), Err(LlamaLoraAdapterInitError::NullResult));
    assert_eq!(
        m.loaded_lora_adapter(Some(5)),
        Ok(LlamaLoraAdapter { lora_adapter: 5 })
    );
    let ctx = m
        .new_context(engine_settings(), Some(EngineContext { n_ctx: 512, n_embd: 8 }))
        .unwrap();
    assert_eq!(ctx.lora_adapter_set(0), Ok(()));
    assert_eq!(ctx.lora_adapter_set(-3), Err(LlamaLoraAdapterSetError::ErrorResult(-3)));
    assert_eq!(ctx.lora_adapter_remove(0), Ok(()));
    assert_eq!(
        ctx.lora_adapter_remove(2),
        Err(LlamaLoraAdapterRemoveError::ErrorResult(2))
    );
}

#[test]
fn model_settings_go_over_the_engines_own() {
    let engine = ModelSettings {
        n_gpu_layers: 999,
        use_mmap: true,
        use_mlock: false,
        vocab_only: false,
        mtp: false,
    };
    assert_eq!(LlamaModelParams::default().as_raw(engine), engine);
    let set = LlamaModelParams::default()
        .with_n_gpu_layers(33)
        .with_use_mmap(false)
        .with_use_mlock(true)
        .with_vocab_only(true)
        .with_mtp(true)
        .as_raw(engine);
    assert_eq!(
        set,
        ModelSettings {
            n_gpu_layers: 33,
            use_mmap: false,
            use_mlock: true,
            vocab_only: true,
            mtp: true,
        }
    );
    let clamped = LlamaModelParams::default().with_n_gpu_layers(u32::MAX).as_raw(engine);
    assert_eq!(clamped.n_gpu_layers, i32::MAX);
    assert!(clamped.use_mmap);
}
