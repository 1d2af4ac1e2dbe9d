use ik_llama_cpp_2::quantize::ftype::llama_ftype;
use ik_llama_cpp_2::quantize::{
    quantize, quantized, LlamaQuantizeParams, QuantizeError, QuantizeSettings,
};

fn engine_settings() -> QuantizeSettings {
    QuantizeSettings {
        ftype: llama_ftype::Other(7),
        nthread: 0,
        allow_requantize: false,
        quantize_output_tensor: false,
    }
}

#[test]
fn params_default_and_builders_round_trip() {
    let default = LlamaQuantizeParams::default();
    // Default builds and exposes its raw view.
    assert_eq!(default.as_raw(engine_settings()), engine_settings());

    let params = LlamaQuantizeParams::default()
        .with_ftype(llama_ftype::LLAMA_FTYPE_MOSTLY_Q4_K_M)
        .with_n_threads(4)
        .with_allow_requantize(true)
        .with_quantize_output_tensor(true);

    assert_eq!(params.as_raw(engine_settings()).nthread, 4);
    assert_eq!(
        params.as_raw(engine_settings()).ftype,
        llama_ftype::LLAMA_FTYPE_MOSTLY_Q4_K_M
    );
    assert!(params.as_raw(engine_settings()).allow_requantize);
    assert!(params.as_raw(engine_settings()).quantize_output_tensor);
}

#[test]
fn ik_sota_ftype_is_exposed() {
    let params = LlamaQuantizeParams::default().with_ftype(llama_ftype::LLAMA_FTYPE_MOSTLY_IQ4_K);
    assert_eq!(
        params.as_raw(engine_settings()).ftype,
        llama_ftype::LLAMA_FTYPE_MOSTLY_IQ4_K
    );
}

#[test]
fn paths_are_checked_input_first() {
    let files = quantize(Some("a.gguf"), Some("b.gguf")).unwrap();
    assert_eq!((files.input.as_bytes(), files.output.as_bytes()), (&b"a.gguf"[..], &b"b.gguf"[..]));
    assert_eq!(quantize(None, Some("\0")).err(), Some(QuantizeError::InvalidPath));
    assert_eq!(quantize(Some("a"), None).err(), Some(QuantizeError::InvalidPath));
    let position = |r: Result<_, QuantizeError>| match r {
        Err(QuantizeError::Nul(e)) => e.position,
        Err(other) => panic!("unexpected {other:?}"),
        Ok(_) => panic!("no error"),
    };
    assert_eq!(position(quantize(Some("a\0"), None).map(|_| ())), 1);
    assert_eq!(position(quantize(Some("a"), Some("bcd\0")).map(|_| ())), 3);
}

#[test]
fn a_status_is_an_error_unless_zero() {
    assert_eq!(quantized(0), Ok(()));
    assert_eq!(quantized(1), Err(QuantizeError::Quantize(1)));
    assert_eq!(quantized(u32::MAX), Err(QuantizeError::Quantize(u32::MAX)));
}
