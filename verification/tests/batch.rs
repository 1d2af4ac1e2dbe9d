use ik_llama_cpp_2::{LlamaBatch, LlamaError, LlamaToken};

fn tokens(ids: &[i32]) -> Vec<LlamaToken> {
    ids.iter().map(|&id| LlamaToken(id)).collect()
}

#[test]
fn tokens_are_added_in_order() {
    let mut batch = LlamaBatch::new(2, 2);
    assert_eq!(batch.n_tokens(), 0);
    batch.add(LlamaToken(7), 3, &[0, 1], true).unwrap();
    batch.add(LlamaToken(8), 4, &[], false).unwrap();
    assert_eq!(batch.n_tokens(), 2);
    let raw = batch.as_raw();
    assert_eq!((raw[0].token, raw[0].pos, raw[0].logits), (7, 3, 1));
    assert_eq!(raw[0].seq_ids, vec![0, 1]);
    assert_eq!((raw[1].token, raw[1].pos, raw[1].logits), (8, 4, 0));
    assert!(raw[1].seq_ids.is_empty());
    batch.clear();
    assert_eq!(batch.n_tokens(), 0);
    batch.add(LlamaToken(9), 0, &[0], true).unwrap();
    assert_eq!(batch.as_raw()[0].token, 9);
}

#[test]
fn a_full_batch_refuses_and_stays() {
    let mut batch = LlamaBatch::new(1, 1);
    batch.add(LlamaToken(1), 0, &[0], true).unwrap();
    // A full batch is found out before too many sequences are.
    assert_eq!(
        batch.add(LlamaToken(2), 1, &[0, 1, 2], true),
        Err(LlamaError::BatchOverflow { capacity: 1, index: 1 })
    );
    assert_eq!(batch.n_tokens(), 1);
    assert_eq!(
        LlamaBatch::new(0, 1).add(LlamaToken(2), 1, &[0], true),
        Err(LlamaError::BatchOverflow { capacity: 0, index: 0 })
    );
}

#[test]
fn too_many_sequences_are_refused() {
    let mut batch = LlamaBatch::new(4, 2);
    assert_eq!(
        batch.add(LlamaToken(2), 1, &[0, 1, 2], true),
        Err(LlamaError::TooManySeqIds { got: 3, max: 2 })
    );
    assert_eq!(batch.n_tokens(), 0);
}

#[test]
fn a_prompt_wants_its_last_logits_or_all() {
    for (all, wanted) in [(false, vec![0, 0, 1]), (true, vec![1, 1, 1])] {
        let mut batch = LlamaBatch::new(8, 1);
        batch.add_sequence(&tokens(&[5, 6, 7]), 2, all).unwrap();
        let raw = batch.as_raw();
        assert_eq!(raw.iter().map(|t| t.pos).collect::<Vec<_>>(), vec![0, 1, 2]);
        assert_eq!(raw.iter().map(|t| t.token).collect::<Vec<_>>(), vec![5, 6, 7]);
        assert_eq!(raw.iter().map(|t| t.logits).collect::<Vec<_>>(), wanted);
        assert!(raw.iter().all(|t| t.seq_ids == vec![2]));
    }
    let mut batch = LlamaBatch::new(0, 0);
    assert_eq!(batch.add_sequence(&[], 0, true), Ok(()));
}

#[test]
fn what_fits_of_a_long_prompt_stays() {
    let mut batch = LlamaBatch::new(2, 1);
    assert_eq!(
        batch.add_sequence(&tokens(&[5, 6, 7]), 0, false),
        Err(LlamaError::BatchOverflow { capacity: 2, index: 2 })
    );
    assert_eq!(batch.n_tokens(), 2);
    assert!(batch.as_raw().iter().all(|t| t.logits == 0));
    let mut batch = LlamaBatch::new(2, 0);
    assert_eq!(
        batch.add_sequence(&tokens(&[5]), 0, false),
        Err(LlamaError::TooManySeqIds { got: 1, max: 0 })
    );
    assert_eq!(batch.n_tokens(), 0);
}
