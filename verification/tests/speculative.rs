use ik_llama_cpp_2::context::params::ContextSettings;
use ik_llama_cpp_2::{
    LlamaContext, LlamaError, LlamaToken, MtpOpType, MtpSpeculative, MtpSpeculativeParams,
};

fn driver(n_max: i32) -> MtpSpeculative {
    let ctx = LlamaContext {
        n_vocab: 10,
        n_ctx: 64,
        n_embd: 4,
        settings: ContextSettings {
            n_ctx: 64,
            n_batch: 64,
            n_ubatch: 64,
            n_seq_max: 1,
            seed: 0,
            n_threads: 1,
            n_threads_batch: 1,
            flash_attn: false,
            mtp: true,
            embeddings: false,
            pooling_type: 0,
        },
    };
    let params = MtpSpeculativeParams { n_max, ..MtpSpeculativeParams::default() };
    MtpSpeculative::new(ctx, params, true).unwrap()
}

#[test]
fn defaults_draft_two_tokens() {
    let p = MtpSpeculativeParams::default();
    assert_eq!((p.n_max, p.n_min, p.mtp_heads), (2, 0, 1));
    assert_eq!((p.p_min.to_bits(), p.temp.to_bits()), (0, 0));
    assert_ne!(MtpOpType::Normal, MtpOpType::DraftGen);
    let spec = driver(3);
    assert_eq!(spec.params().n_max, 3);
    assert!(spec.target_context().settings.mtp);
    assert_eq!(
        MtpSpeculative::new(*spec.target_context(), p, false).err(),
        Some(LlamaError::MtpInit)
    );
}

#[test]
fn buffers_have_room_for_the_drafts() {
    for (n_max, room) in [(2, 2), (1, 1), (0, 1), (-5, 1), (i32::MAX, i32::MAX as usize)] {
        assert_eq!(driver(n_max).draft(0, LlamaToken(1)).cap, room);
        assert_eq!(driver(n_max).step().cap, room + 2);
    }
    let call = driver(2).draft(7, LlamaToken(9));
    assert_eq!((call.n_past, call.id_last), (7, 9));
}

#[test]
fn a_prompt_is_taken_in() {
    let spec = driver(2);
    assert_eq!(spec.begin(&[LlamaToken(4), LlamaToken(5)]), vec![4, 5]);
    assert_eq!(spec.began(17), Ok(17));
    assert_eq!(spec.began(0), Ok(0));
    assert_eq!(spec.began(-3), Err(LlamaError::MtpBegin(-3)));
}

#[test]
fn answers_are_read() {
    let spec = driver(2);
    let step = spec.step().resume(0, vec![1, 2, 3, 4], 3, 2).unwrap();
    assert_eq!(step.tokens, vec![LlamaToken(1), LlamaToken(2), LlamaToken(3)]);
    assert_eq!(step.n_accepted, 2);
    let copy = step.clone();
    assert_eq!((copy.tokens, copy.n_accepted), (step.tokens, 2));
    assert_eq!(
        spec.step().resume(-2, vec![1], 1, 0).err(),
        Some(LlamaError::MtpStep(-2))
    );
    let call = spec.draft(0, LlamaToken(1));
    assert_eq!(call.resume(0, vec![8, 9], 1), Ok(vec![LlamaToken(8)]));
    assert_eq!(call.resume(0, vec![8, 9], 5), Ok(vec![LlamaToken(8), LlamaToken(9)]));
    assert_eq!(call.resume(5, vec![8, 9], 1), Err(LlamaError::MtpStep(5)));
}

#[test]
fn commit_takes_one_token_more_than_the_drafts_at_most() {
    let spec = driver(2);
    let t = |n: usize| vec![LlamaToken(3); n];
    assert_eq!(spec.commit(LlamaToken(1), &[], 2).err(), Some(LlamaError::MtpStep(-1)));
    assert_eq!(spec.commit(LlamaToken(1), &t(4), 2).err(), Some(LlamaError::MtpStep(-1)));
    assert_eq!(spec.commit(LlamaToken(1), &t(2), 0).err(), Some(LlamaError::MtpStep(-1)));
    let call = spec.commit(LlamaToken(1), &t(3), 2).unwrap();
    assert_eq!((call.id_last, call.n_draft, call.committed.len()), (1, 2, 3));
    assert!(spec.commit(LlamaToken(1), &t(1), 0).is_ok());
    // The limit does not wrap.
    assert!(spec.commit(LlamaToken(1), &t(5), usize::MAX).is_ok());
    assert_eq!(call.resume(0), Ok(()));
    let call = spec.commit(LlamaToken(1), &t(1), 2).unwrap();
    assert_eq!(call.resume(9), Err(LlamaError::MtpStep(9)));
}
