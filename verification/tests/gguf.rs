use ik_llama_cpp_2::cstr::CText;
use ik_llama_cpp_2::float::{F32, F64};
use ik_llama_cpp_2::gguf::{
    GgufArray, GgufContext, GgufError, GgufPair, GgufTensor, GgufType, GgufValue,
};

fn text(bytes: &[u8]) -> CText {
    CText::new(bytes.to_vec()).unwrap()
}

fn pair(key: &str, value: GgufValue) -> GgufPair {
    GgufPair { key: Some(text(key.as_bytes())), value }
}

fn gguf() -> GgufContext {
    GgufContext {
        version: 3,
        alignment: 32,
        pairs: vec![
            pair("general.architecture", GgufValue::Str(Some(text(b"qwen35")))),
            pair("u8", GgufValue::U8(1)),
            pair("i8", GgufValue::I8(-1)),
            pair("u16", GgufValue::U16(2)),
            pair("i16", GgufValue::I16(-2)),
            pair("u32", GgufValue::U32(4)),
            pair("i32", GgufValue::I32(-4)),
            pair("f32", GgufValue::F32(F32::from_bits(1.5_f32.to_bits()))),
            pair("u64", GgufValue::U64(8)),
            pair("i64", GgufValue::I64(-8)),
            pair("f64", GgufValue::F64(F64 { bits: 2.5_f64.to_bits() })),
            pair("bool", GgufValue::Bool(true)),
            pair(
                "tokens",
                GgufValue::Arr(GgufArray {
                    kind: GgufType::Str,
                    len: 4,
                    strings: vec![
                        Some(text(b"a")),
                        Some(text(b"\xff")),
                        Some(text("é".as_bytes())),
                        None,
                    ],
                }),
            ),
            pair("u32", GgufValue::U32(5)),
            GgufPair {
                key: Some(text(b"\xfe")),
                value: GgufValue::Str(Some(text(b"\xfe"))),
            },
            pair(
                "scores",
                GgufValue::Arr(GgufArray { kind: GgufType::F32, len: 2, strings: vec![] }),
            ),
            GgufPair { key: None, value: GgufValue::Str(None) },
            pair("strange", GgufValue::Other(77)),
        ],
        tensors: vec![
            GgufTensor { name: Some(text(b"token_embd.weight")), kind: 12, offset: 0 },
            GgufTensor { name: Some(text(b"\xff")), kind: 0, offset: 4096 },
            GgufTensor { name: None, kind: 1, offset: 8192 },
        ],
    }
}

#[test]
fn reads_architecture() {
    let ctx = gguf();
    assert!(ctx.n_kv() > 0, "expected at least one KV pair");

    let idx = ctx.find_key("general.architecture");
    assert!(idx >= 0, "general.architecture key missing");
    assert_eq!(ctx.val_str(idx), Some("qwen35"));
}

#[test]
fn gguf_out_of_range_index_is_none_not_oob() {
    let gguf = gguf();

    let n = gguf.n_tensors();
    assert!(n > 0, "model should describe at least one tensor");

    // Valid index works.
    assert!(gguf.tensor_name(0).is_some(), "tensor 0 should have a name");
    assert!(gguf.tensor_type(0).is_some());
    assert!(gguf.tensor_offset(0).is_some());

    // Out-of-range indices are rejected, not read out of bounds.
    for bad in [n, n + 1, i32::MAX, -1] {
        assert!(gguf.tensor_name(bad).is_none(), "tensor_name({bad})");
        assert!(gguf.tensor_type(bad).is_none(), "tensor_type({bad})");
        assert!(gguf.tensor_offset(bad).is_none(), "tensor_offset({bad})");
    }

    // So are those of elements.
    let tokens = gguf.find_key("tokens");
    for bad in [4, i32::MAX, -1] {
        assert!(gguf.arr_str(tokens, bad).is_none(), "arr_str({bad})");
    }
}

#[test]
fn values_read_back_by_type() {
    let g = gguf();
    assert_eq!((g.version(), g.alignment(), g.n_kv()), (3, 32, 18));
    let at = |key: &str| g.find_key(key);
    assert_eq!(g.val_u8(at("u8")), 1);
    assert_eq!(g.val_i8(at("i8")), -1);
    assert_eq!(g.val_u16(at("u16")), 2);
    assert_eq!(g.val_i16(at("i16")), -2);
    assert_eq!(g.val_u32(at("u32")), 4);
    assert_eq!(g.val_i32(at("i32")), -4);
    assert_eq!(g.val_f32(at("f32")).to_bits(), 1.5_f32.to_bits());
    assert_eq!(g.val_u64(at("u64")), 8);
    assert_eq!(g.val_i64(at("i64")), -8);
    assert_eq!(g.val_f64(at("f64")).bits, 2.5_f64.to_bits());
    assert!(g.val_bool(at("bool")));
    for (key, kind) in [
        ("u8", GgufType::U8),
        ("bool", GgufType::Bool),
        ("general.architecture", GgufType::Str),
        ("tokens", GgufType::Arr),
    ] {
        assert_eq!(g.kv_type(at(key)), kind);
    }
}

#[test]
fn keys_are_found_first_match_first() {
    let g = gguf();
    assert_eq!(g.find_key("u32"), 5);
    assert_eq!(g.find_key("absent"), -1);
    assert_eq!(g.find_key(""), -1);
    assert_eq!(g.find_key("u32\0"), -1);
    assert_eq!(g.key_at(5), Some("u32"));
    assert_eq!(g.key_at(14), None);
    assert_eq!(g.val_str(14), None);
    // What the engine has no string for reads as nothing, not as an empty one.
    assert_eq!(g.key_at(16), None);
    assert_eq!(g.val_str(16), None);
    assert_eq!(g.kv_type(g.find_key("strange")), GgufType::Other(77));
}

#[test]
fn arrays_and_tensors_read_back() {
    let g = gguf();
    let tokens = g.find_key("tokens");
    assert_eq!((g.arr_type(tokens), g.arr_len(tokens)), (GgufType::Str, 4));
    assert_eq!(g.arr_str(tokens, 0), Some("a"));
    assert_eq!(g.arr_str(tokens, 1), None);
    assert_eq!(g.arr_str(tokens, 2), Some("é"));
    assert_eq!(g.arr_str(tokens, 3), None);
    let scores = g.find_key("scores");
    assert_eq!((g.arr_type(scores), g.arr_len(scores)), (GgufType::F32, 2));
    assert_eq!(g.tensor_name(0), Some("token_embd.weight"));
    assert_eq!(g.tensor_name(1), None);
    assert_eq!(g.tensor_name(2), None);
    assert_eq!(g.tensor_type(1), Some(0));
    assert_eq!(g.tensor_offset(1), Some(4096));
}

#[test]
fn files_that_cannot_be_opened_are_errors() {
    let call = GgufContext::from_file(Some("m.gguf")).unwrap();
    assert_eq!(call.path.as_bytes(), b"m.gguf");
    assert!(call.no_alloc, "the weights stay in the file");
    assert_eq!(GgufContext::from_file(None).unwrap_err(), GgufError::InvalidPath);
    match GgufContext::from_file(Some("m\0")) {
        Err(GgufError::Nul(e)) => assert_eq!(e.position, 1),
        other => panic!("unexpected {other:?}"),
    }
    assert_eq!(
        GgufContext::opened("m.gguf".to_string(), None).unwrap_err(),
        GgufError::Init("m.gguf".to_string())
    );
    assert_eq!(GgufContext::opened(String::new(), Some(gguf())).unwrap().n_tensors(), 3);
}
