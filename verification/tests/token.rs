use ik_llama_cpp_2::float::F32;
use ik_llama_cpp_2::sampling::StageCall;
use ik_llama_cpp_2::token::{from_raw_ids, raw_ids};
use ik_llama_cpp_2::{LlamaToken, LlamaTokenData, LlamaTokenDataArray};

fn f(x: f32) -> F32 {
    F32::from_bits(x.to_bits())
}

#[test]
fn ids_go_to_the_engine_and_back() {
    let tokens = vec![LlamaToken::new(3), LlamaToken(-1), LlamaToken(i32::MAX)];
    assert_eq!(raw_ids(&tokens), vec![3, -1, i32::MAX]);
    assert_eq!(from_raw_ids(&[3, -1, i32::MAX]), tokens);
    assert_eq!(tokens[0].raw(), 3);
}

#[test]
fn token_data_keeps_what_is_set() {
    let mut d = LlamaTokenData::new(LlamaToken(1), f(2.0), f(0.5));
    assert_eq!((d.id(), d.logit(), d.p()), (LlamaToken(1), f(2.0), f(0.5)));
    d.set_id(LlamaToken(9));
    d.set_logit(f(-1.0));
    d.set_p(f(0.25));
    assert_eq!(d, LlamaTokenData::new(LlamaToken(9), f(-1.0), f(0.25)));
    let nan = LlamaTokenData::new(LlamaToken(9), f(f32::NAN), f(0.25));
    assert!(nan != nan);
}

#[test]
fn logits_become_candidates() {
    let arr = LlamaTokenDataArray::from_logits(&[f(0.5), f(-2.0)]);
    assert_eq!(
        arr.data,
        vec![
            LlamaTokenData::new(LlamaToken(0), f(0.5), f(0.0)),
            LlamaTokenData::new(LlamaToken(1), f(-2.0), f(0.0)),
        ]
    );
    assert_eq!(arr.selected, None);
    assert!(!arr.sorted);
    let again = LlamaTokenDataArray::from_iter(arr.data.clone(), true);
    assert!(again.sorted);
    assert_eq!(again.data, arr.data);
}

#[test]
fn selection_is_an_index_of_a_candidate_or_none() {
    let mut arr = LlamaTokenDataArray::from_logits(&[f(0.5), f(-2.0)]);
    assert_eq!(arr.as_c(), -1);
    arr.selected = Some(1);
    assert_eq!(arr.as_c(), 1);
    assert_eq!(arr.selected_token(), Some(LlamaToken(1)));
    arr.selected = Some(2);
    assert_eq!(arr.as_c(), 2);
    assert_eq!(arr.selected_token(), None);
    for (raw, selected) in [(-1, None), (0, Some(0)), (1, Some(1)), (2, None), (i64::MIN, None)] {
        let data = arr.data.clone();
        arr.sync_from_c(data, raw, true);
        assert_eq!(arr.selected, selected);
        assert!(arr.sorted);
    }
    arr.sync_from_c(Vec::new(), 0, false);
    assert_eq!(arr.selected, None);
    assert!(arr.data.is_empty());
}

#[test]
fn nothing_to_penalize_is_no_call() {
    let arr = LlamaTokenDataArray::from_logits(&[f(0.5)]);
    assert!(arr.apply_repetition_penalties(&[], f(1.1), f(0.2), f(0.3)).is_none());
    match arr.apply_repetition_penalties(&[LlamaToken(4)], f(1.1), f(0.2), f(0.3)) {
        Some(StageCall::RepetitionPenalties { last_tokens, repeat, freq, presence }) => {
            assert_eq!(last_tokens, vec![LlamaToken(4)]);
            assert_eq!((repeat, freq, presence), (f(1.1), f(0.2), f(0.3)));
        }
        other => panic!("unexpected {other:?}"),
    }
}
