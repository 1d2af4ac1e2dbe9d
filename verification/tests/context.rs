use ik_llama_cpp_2::context::embeddings::EmbeddingsError;
use ik_llama_cpp_2::context::params::ContextSettings;
use ik_llama_cpp_2::context::EngineContext;
use ik_llama_cpp_2::float::F32;
use ik_llama_cpp_2::model::meta::ModelFacts;
use ik_llama_cpp_2::{
    LlamaContext, LlamaContextParams, LlamaContextType, LlamaError, LlamaModel, LlamaToken,
};

fn model() -> LlamaModel {
    LlamaModel {
        n_vocab: 3,
        n_nextn_layer: 0,
        bos: LlamaToken(1),
        eos: LlamaToken(2),
        facts: ModelFacts {
            meta_count: 0,
            size: 0,
            n_params: 0,
            n_ctx_train: 0,
            n_embd: 2,
            n_layer: 0,
            rope_type: 0,
        },
    }
}

fn engine_settings() -> ContextSettings {
    ContextSettings {
        n_ctx: 512,
        n_batch: 2048,
        n_ubatch: 512,
        n_seq_max: 1,
        seed: u32::MAX,
        n_threads: 4,
        n_threads_batch: 4,
        flash_attn: true,
        mtp: false,
        embeddings: false,
        pooling_type: -1,
    }
}

fn context(params: LlamaContextParams, n_embd: i32) -> LlamaContext {
    LlamaContext::new(
        &model(),
        params.as_raw(engine_settings()),
        Some(EngineContext { n_ctx: 512, n_embd }),
    )
    .unwrap()
}

fn row(values: &[f32]) -> Vec<F32> {
    values.iter().map(|v| F32::from_bits(v.to_bits())).collect()
}

#[test]
fn a_context_that_cannot_be_made_is_an_error() {
    assert_eq!(
        LlamaContext::new(&model(), engine_settings(), None),
        Err(LlamaError::ContextCreation)
    );
    let ctx = context(LlamaContextParams::default(), 2);
    assert_eq!((ctx.n_ctx(), ctx.n_vocab()), (512, 3));
    assert_eq!(ctx.settings, engine_settings());
}

#[test]
fn a_status_other_than_zero_is_an_error() {
    let ctx = context(LlamaContextParams::default(), 2);
    assert_eq!(ctx.decode(0), Ok(()));
    assert_eq!(ctx.decode(1), Err(LlamaError::Decode(1)));
    assert_eq!(ctx.decode(-1), Err(LlamaError::Decode(-1)));
}

#[test]
fn logits_become_candidates_where_there_are_any() {
    let ctx = context(LlamaContextParams::default(), 2);
    let logits = row(&[0.5, -1.0, 2.0]);
    assert_eq!(ctx.get_logits_ith(0, Some(&logits)).unwrap().len(), 3);
    assert_eq!(ctx.get_logits_ith(7, None), Err(LlamaError::NoLogits(7)));
    let data = ctx.candidates_ith(0, Some(&logits));
    assert_eq!(data.iter().map(|d| d.id().0).collect::<Vec<_>>(), vec![0, 1, 2]);
    assert_eq!(data[2].logit().to_bits(), 2.0_f32.to_bits());
    assert!(ctx.candidates_ith(0, None).is_empty());
    let arr = ctx.token_data_array_ith(0, Some(&logits));
    assert_eq!(arr.data, data);
    assert!(!arr.sorted && arr.selected.is_none());
    assert!(ctx.token_data_array_ith(0, None).data.is_empty());
}

#[test]
fn a_row_of_logits_is_as_long_as_the_vocabulary() {
    let ctx = context(LlamaContextParams::default(), 2);
    assert_eq!(ctx.logits_len(), usize::try_from(ctx.n_vocab()).unwrap());
    let values = vec![0.5_f32; ctx.logits_len()];
    assert_eq!(ctx.get_logits_ith(0, Some(&row(&values))).unwrap().len(), ctx.logits_len());
    // A vocabulary that makes no sense is read as none.
    let none = LlamaContext { n_vocab: -1, ..ctx };
    assert_eq!(none.logits_len(), 0);
}

#[test]
fn embeddings_have_to_be_switched_on() {
    let off = context(LlamaContextParams::default(), 2);
    let vector = row(&[1.0, 2.0]);
    assert_eq!(off.embeddings_len(), Err(EmbeddingsError::NotEnabled));
    assert_eq!(off.embeddings_ith(0, Some(&vector)), Err(EmbeddingsError::NotEnabled));
    assert_eq!(off.embeddings_seq_ith(0, None), Err(EmbeddingsError::NotEnabled));
    let on = context(LlamaContextParams::default().with_embeddings(true), 2);
    assert_eq!(on.embeddings_len(), Ok(2));
    assert_eq!(on.embeddings_ith(0, Some(&vector)).unwrap().len(), 2);
    assert_eq!(on.embeddings_ith(5, None), Err(EmbeddingsError::LogitsNotEnabled(5)));
    assert_eq!(on.embeddings_seq_ith(1, Some(&vector)).unwrap().len(), 2);
    assert_eq!(on.embeddings_seq_ith(6, None), Err(EmbeddingsError::NonePoolType(6)));
    // A length that makes no sense is read as none.
    assert_eq!(context(LlamaContextParams::default(), -4).n_embd(), 0);
}

#[test]
fn context_settings_go_over_the_engines_own() {
    assert_eq!(LlamaContextParams::default().as_raw(engine_settings()), engine_settings());
    let set = LlamaContextParams::default()
        .with_n_ctx(Some(2048))
        .with_n_batch(1024)
        .with_n_ubatch(256)
        .with_n_rs_seq(4)
        .with_seed(42)
        .with_n_threads(8)
        .with_n_threads_batch(16)
        .with_flash_attn(false)
        .with_mtp(true)
        .with_embeddings(true)
        .with_pooling_type(1)
        .as_raw(engine_settings());
    assert_eq!(
        set,
        ContextSettings {
            n_ctx: 2048,
            n_batch: 1024,
            n_ubatch: 256,
            n_seq_max: 4,
            seed: 42,
            n_threads: 8,
            n_threads_batch: 16,
            flash_attn: false,
            mtp: true,
            embeddings: true,
            pooling_type: 1,
        }
    );
    // Without a size, the model's is taken.
    assert_eq!(LlamaContextParams::default().with_n_ctx(None).as_raw(engine_settings()).n_ctx, 0);
    // The type of a context is a switch for multi-token prediction; what is set
    // last counts.
    let mtp = LlamaContextParams::default().with_context_type(LlamaContextType::Mtp);
    assert_eq!(mtp, LlamaContextParams::default().with_mtp(true));
    let back = mtp.with_context_type(LlamaContextType::Default);
    assert!(!back.as_raw(ContextSettings { mtp: true, ..engine_settings() }).mtp);
}
