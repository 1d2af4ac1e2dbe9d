use ik_llama_cpp_2::grammar::converted_grammar;
use ik_llama_cpp_2::{
    json_schema_to_grammar, DryInitError, DryParams, GrammarInitError, JsonSchemaError,
    LlamaDrySampler, LlamaGrammar,
};

#[test]
fn dry_params_default_is_disabled() {
    let p = DryParams::default();
    assert_eq!(f32::from_bits(p.multiplier.to_bits()), 0.0, "DRY is disabled by default");
    assert_eq!(p.seq_breakers.len(), 4);
    assert!(p.seq_breakers.iter().any(|b| b == "\n"));
    assert_eq!(f32::from_bits(p.base.to_bits()), 1.75);
    assert_eq!((p.allowed_length, p.penalty_last_n), (2, -1));
    assert_eq!(p.seq_breakers, vec!["\n", ":", "\"", "*"]);
}

#[test]
fn breakers_are_checked_in_order() {
    let settings = LlamaDrySampler::new(&DryParams::default()).unwrap();
    assert_eq!(settings.seq_breakers[2].as_bytes(), b"\"");
    assert_eq!(settings.seq_breakers.len(), 4);
    assert_eq!((settings.allowed_length, settings.penalty_last_n), (2, -1));
    let params = DryParams {
        seq_breakers: vec!["ok".to_string(), "n\0".to_string(), "\0".to_string()],
        ..DryParams::default()
    };
    match LlamaDrySampler::new(&params) {
        Err(DryInitError::Nul(e)) => assert_eq!((e.position, e.bytes), (1, b"n\0".to_vec())),
        other => panic!("unexpected {other:?}"),
    }
    assert_eq!(LlamaDrySampler::made(None), Err(DryInitError::Init));
    assert_eq!(LlamaDrySampler::made(Some(4)), Ok(LlamaDrySampler { dry: 4 }));
}

#[test]
fn grammars_check_text_and_parse() {
    let source = LlamaGrammar::new("root ::= [0-9]+", "root").unwrap();
    assert_eq!(source.grammar.as_bytes(), b"root ::= [0-9]+");
    assert_eq!(source.root.as_bytes(), b"root");
    match LlamaGrammar::new("x", "ro\0ot") {
        Err(GrammarInitError::Nul(e)) => assert_eq!(e.position, 2),
        other => panic!("unexpected {other:?}"),
    }
    assert_eq!(LlamaGrammar::parsed(None), Err(GrammarInitError::Parse));
    assert_eq!(LlamaGrammar::parsed(Some(6)), Ok(LlamaGrammar { grammar: 6 }));
}

#[test]
fn a_schema_becomes_a_grammar_or_an_error() {
    let call = json_schema_to_grammar("{}").unwrap();
    assert_eq!(call.schema.as_bytes(), b"{}");
    assert!(!call.switch);
    match json_schema_to_grammar("{\0}") {
        Err(JsonSchemaError::Nul(e)) => assert_eq!(e.position, 1),
        other => panic!("unexpected {other:?}"),
    }
    assert_eq!(
        converted_grammar(0, Some(b"root ::= \"x\"".to_vec())),
        Ok("root ::= \"x\"".to_string())
    );
    assert_eq!(converted_grammar(0, None), Err(JsonSchemaError::Convert(0)));
    assert_eq!(converted_grammar(-2, None), Err(JsonSchemaError::Convert(-2)));
    assert_eq!(
        converted_grammar(3, Some(b"late".to_vec())),
        Err(JsonSchemaError::Convert(3))
    );
    assert_eq!(converted_grammar(0, Some(b"\xff".to_vec())), Err(JsonSchemaError::Utf8));
}
