use ik_llama_cpp_2::float::F32;
use ik_llama_cpp_2::sampling::rng::Rng;
use ik_llama_cpp_2::sampling::{ChainRun, ChainStep, EngineOutcome, Stage, StageCall};
use ik_llama_cpp_2::{
    GrammarInitError, LlamaContext, LlamaSampler, LlamaToken, LlamaTokenData, LlamaTokenDataArray,
};
use ik_llama_cpp_2::context::params::ContextSettings;

fn f(x: f32) -> F32 {
    F32::from_bits(x.to_bits())
}

fn value(x: F32) -> f32 {
    f32::from_bits(x.to_bits())
}

fn row(logits: &[f32]) -> Vec<F32> {
    logits.iter().map(|&x| f(x)).collect()
}

fn array(logits: &[f32]) -> LlamaTokenDataArray {
    LlamaTokenDataArray::from_logits(&row(logits))
}

/// A toy engine: the calls that the tests below need, and what it was asked.
fn engine(call: &StageCall, arr: &LlamaTokenDataArray) -> EngineOutcome {
    let mut data: Vec<LlamaTokenData> = arr.data.clone();
    let mut cumulative = Vec::new();
    match call {
        StageCall::TopK { k, min_keep } => {
            data.sort_by(|a, b| value(b.logit).partial_cmp(&value(a.logit)).unwrap());
            data.truncate((*k).max(*min_keep as i32) as usize);
        }
        StageCall::Temp { t } => {
            for d in data.iter_mut() {
                d.set_logit(f(value(d.logit()) / value(*t)));
            }
        }
        StageCall::RepetitionPenalties { last_tokens, presence, .. } => {
            for d in data.iter_mut() {
                if last_tokens.contains(&d.id()) {
                    d.set_logit(f(value(d.logit()) - value(*presence)));
                }
            }
        }
        StageCall::Softmax => {
            let sum: f32 = data.iter().map(|d| value(d.logit).exp()).sum();
            let mut total = 0.0_f32;
            for d in data.iter_mut() {
                let p = value(d.logit).exp() / sum;
                d.set_p(f(p));
                total += p;
                cumulative.push(f(total));
            }
        }
        StageCall::MinP { .. } => data.clear(),
        _ => {}
    }
    EngineOutcome { data, selected: arr.as_c(), sorted: arr.sorted, cumulative }
}

/// Runs a whole chain, and says how many calls it took.
fn run(sampler: &mut LlamaSampler, arr: &mut LlamaTokenDataArray) -> usize {
    let mut calls = 0;
    let mut step = sampler.apply(arr);
    while let ChainStep::Call { run, call } = step {
        assert!(!arr.data.is_empty());
        calls += 1;
        let outcome = engine(&call, arr);
        step = sampler.resume(arr, run, outcome);
    }
    calls
}

#[test]
fn greedy_selects_argmax() {
    let mut arr = array(&[0.1, 2.5, -1.0, 2.4, 0.0]);
    let mut s = LlamaSampler::greedy();
    assert_eq!(run(&mut s, &mut arr), 0);
    assert_eq!(s.stages.len(), 1);
    assert_eq!(arr.selected_token(), Some(LlamaToken(1)));
}

#[test]
fn dist_is_deterministic_for_a_seed() {
    let logits = [0.2_f32, 1.0, 0.5, 3.0, -0.5];
    let mut a = LlamaSampler::dist(1234);
    let mut b = LlamaSampler::dist(1234);
    let mut arr_a = array(&logits);
    let mut arr_b = array(&logits);
    run(&mut a, &mut arr_a);
    run(&mut b, &mut arr_b);
    assert!(arr_a.selected_token().is_some());
    assert_eq!(arr_a.selected_token(), arr_b.selected_token());
}

#[test]
fn equal_seeds_select_alike_in_every_later_use() {
    let logits = [0.2_f32, 1.0, 0.5, 0.9, -0.5];
    let mut a = LlamaSampler::dist(7);
    let mut b = LlamaSampler::dist(7);
    let mut seen = Vec::new();
    for _ in 0..32 {
        let mut arr_a = array(&logits);
        let mut arr_b = array(&logits);
        run(&mut a, &mut arr_a);
        run(&mut b, &mut arr_b);
        let token = arr_a.selected_token().expect("a token is selected");
        assert_eq!(Some(token), arr_b.selected_token());
        if !seen.contains(&token) {
            seen.push(token);
        }
    }
    assert!(seen.len() > 1, "the draws differ from use to use");
}

#[test]
fn apply_on_empty_array_is_noop_not_abort() {
    let mut arr = LlamaTokenDataArray::new(Vec::new(), false);
    let mut s = LlamaSampler::chain_simple(vec![
        LlamaSampler::top_k(3),
        LlamaSampler::top_p(f(0.9), 1),
        LlamaSampler::temp(f(0.8)),
        LlamaSampler::dist(1),
    ]);
    let step = s.apply(&mut arr);
    assert!(matches!(step, ChainStep::Done));
    assert_eq!(arr.selected_token(), None);
    // Not even the random numbers have moved.
    match &s.stages[3] {
        Stage::Dist(rng) => assert_eq!(rng.state, Rng::new(1).state),
        other => panic!("unexpected stage {other:?}"),
    }
}

#[test]
fn chain_composes_stages() {
    let s = LlamaSampler::chain_simple(vec![
        LlamaSampler::top_k(3),
        LlamaSampler::temp(f(0.8)),
        LlamaSampler::greedy(),
    ]);
    assert_eq!(s.stages.len(), 3);
    // history + accept
    let mut s = s;
    s.accept(LlamaTokenData::new(LlamaToken(5), f(0.0), f(0.0)).id());
    assert_eq!(s.history, vec![LlamaToken(5)]);
}

#[test]
fn stages_run_from_left_to_right() {
    let mut s = LlamaSampler::chain_simple(vec![
        LlamaSampler::top_k(2),
        LlamaSampler::temp(f(0.5)),
        LlamaSampler::greedy(),
    ]);
    let mut arr = array(&[0.1, 2.5, -1.0, 2.4, 0.0]);
    let first = s.apply(&mut arr);
    let ChainStep::Call { run: at, call } = first else {
        panic!("the engine filters first");
    };
    assert!(matches!(call, StageCall::TopK { k: 2, min_keep: 1 }));
    assert_eq!(at.next, 1);
    let outcome = engine(&call, &arr);
    let second = s.resume(&mut arr, at, outcome);
    assert_eq!(arr.data.len(), 2);
    let ChainStep::Call { run: at, call } = second else {
        panic!("the engine scales second");
    };
    assert!(matches!(call, StageCall::Temp { t } if value(t) == 0.5));
    let outcome = engine(&call, &arr);
    assert!(matches!(s.resume(&mut arr, at, outcome), ChainStep::Done));
    assert_eq!(value(arr.data[0].logit), 5.0);
    assert_eq!(arr.selected_token(), Some(LlamaToken(1)));
}

#[test]
fn joined_chains_do_what_their_parts_do_in_turn() {
    let first = || {
        LlamaSampler::chain_simple(vec![
            LlamaSampler::penalties(4, f(1.0), f(0.0), f(0.5)),
            LlamaSampler::top_k(3),
            LlamaSampler::dist(5),
        ])
    };
    let second = || {
        LlamaSampler::chain_simple(vec![
            LlamaSampler::temp(f(0.5)),
            LlamaSampler::dist(6),
        ])
    };
    let logits = [0.3_f32, 2.5, -1.0, 2.4, 0.0, 1.9];
    let mut joined = LlamaSampler::chain_simple(vec![first(), second()]);
    let mut whole = array(&logits);
    let calls = run(&mut joined, &mut whole);

    let (mut a, mut b) = (first(), second());
    let mut parts = array(&logits);
    let calls_a = run(&mut a, &mut parts);
    let calls_b = run(&mut b, &mut parts);

    assert_eq!((calls_a, calls_b, calls), (3, 2, 5));
    assert_eq!(whole, parts);
    assert!(whole.selected.is_some());
    assert!(joined.history.is_empty() && a.history.is_empty() && b.history.is_empty());
    // A set that the first part empties stays empty and unselected either way.
    let emptying = || {
        LlamaSampler::chain_simple(vec![LlamaSampler::greedy(), LlamaSampler::min_p(f(0.5), 1)])
    };
    let mut joined = LlamaSampler::chain_simple(vec![emptying(), LlamaSampler::greedy()]);
    let mut whole = array(&logits);
    run(&mut joined, &mut whole);
    let mut parts = array(&logits);
    run(&mut emptying(), &mut parts);
    run(&mut LlamaSampler::greedy(), &mut parts);
    assert_eq!(whole, parts);
    assert!(whole.data.is_empty() && whole.selected.is_none());
}

#[test]
fn chains_can_be_nested() {
    let inner = LlamaSampler::chain_simple(vec![LlamaSampler::top_k(2), LlamaSampler::greedy()]);
    let outer = LlamaSampler::chain_simple(vec![LlamaSampler::temp(f(1.0)), inner]);
    assert_eq!(outer.stages.len(), 3);
    assert!(matches!(outer.stages[0], Stage::Temp(_)));
    assert!(matches!(outer.stages[1], Stage::TopK(2)));
    assert!(matches!(outer.stages[2], Stage::Greedy));
    assert!(LlamaSampler::chain_simple(vec![]).stages.is_empty());
}

#[test]
fn set_emptied_on_the_way_is_not_forwarded() {
    // The toy engine's min-p drops every candidate.
    let mut s = LlamaSampler::chain_simple(vec![
        LlamaSampler::greedy(),
        LlamaSampler::min_p(f(0.5), 1),
        LlamaSampler::temp(f(0.8)),
        LlamaSampler::dist(7),
    ]);
    let mut arr = array(&[1.0, 2.0]);
    assert_eq!(run(&mut s, &mut arr), 1);
    assert!(arr.data.is_empty());
    assert_eq!(arr.selected, None);
    // The draw was made all the same.
    let mut rng = Rng::new(7);
    rng.next_f32();
    match &s.stages[3] {
        Stage::Dist(after) => assert_eq!(after.state, rng.state),
        other => panic!("unexpected stage {other:?}"),
    }
    // A greedy stage on an empty set takes a selection back.
    let mut s = LlamaSampler::chain_simple(vec![
        LlamaSampler::min_p(f(0.5), 1),
        LlamaSampler::greedy(),
    ]);
    let mut arr = array(&[1.0, 2.0]);
    run(&mut s, &mut arr);
    assert_eq!(arr.selected_token(), None);
}

#[test]
fn greedy_takes_the_first_of_equals_and_skips_nan() {
    let mut s = LlamaSampler::greedy();
    let mut arr = array(&[f32::NAN, 1.0, 3.0, 3.0, f32::NEG_INFINITY]);
    run(&mut s, &mut arr);
    assert_eq!(arr.selected_token(), Some(LlamaToken(2)));
    let mut arr = array(&[f32::NEG_INFINITY, f32::NEG_INFINITY]);
    run(&mut s, &mut arr);
    assert_eq!(arr.selected_token(), Some(LlamaToken(0)));
    let mut arr = array(&[-0.0, 0.0]);
    run(&mut s, &mut arr);
    assert_eq!(arr.selected_token(), Some(LlamaToken(0)));
}

#[test]
fn a_draw_falls_where_the_sum_passes_it() {
    let mut s = LlamaSampler::dist(99);
    let mut arr = array(&[0.0, 0.0, 0.0]);
    let ChainStep::Call { run: at, call } = s.apply(&mut arr) else {
        panic!("the engine has to fill in probabilities");
    };
    assert!(matches!(call, StageCall::Softmax));
    assert!(at.pending.is_some());
    for (r, sums, chosen) in [
        (0.3_f32, [0.25_f32, 0.75, 1.0], 1_usize),
        (0.25, [0.25, 0.75, 1.0], 1),
        (0.0, [0.25, 0.75, 1.0], 0),
        (0.999, [0.25, 0.5, 0.75], 2),
        (0.5, [f32::NAN, f32::NAN, f32::NAN], 2),
    ] {
        let outcome = EngineOutcome {
            data: arr.data.clone(),
            selected: -1,
            sorted: true,
            cumulative: row(&sums),
        };
        let mut out = array(&[0.0, 0.0, 0.0]);
        let done = s.resume(&mut out, ChainRun { next: 1, pending: Some(f(r)) }, outcome);
        assert!(matches!(done, ChainStep::Done));
        assert_eq!(out.selected, Some(chosen));
        assert!(out.sorted);
    }
}

#[test]
fn penalties_look_at_the_end_of_the_history() {
    let window = |last_n: i32, history: &[i32]| -> Vec<i32> {
        let mut s = LlamaSampler::penalties(last_n, f(1.1), f(0.0), f(0.5));
        for &t in history {
            s.accept(LlamaToken(t));
        }
        let mut arr = array(&[1.0, 2.0]);
        match s.apply(&mut arr) {
            ChainStep::Call {
                call: StageCall::RepetitionPenalties { last_tokens, repeat, freq, presence },
                ..
            } => {
                assert_eq!(value(repeat), 1.1);
                assert_eq!(value(freq), 0.0);
                assert_eq!(value(presence), 0.5);
                last_tokens.iter().map(|t| t.0).collect()
            }
            other => panic!("unexpected step {other:?}"),
        }
    };
    assert_eq!(window(2, &[1, 2, 3]), vec![2, 3]);
    assert_eq!(window(3, &[1, 2, 3]), vec![1, 2, 3]);
    assert_eq!(window(64, &[1, 2, 3]), vec![1, 2, 3]);
    assert_eq!(window(0, &[1, 2, 3]), Vec::<i32>::new());
    assert_eq!(window(-1, &[1, 2, 3]), Vec::<i32>::new());
}

#[test]
fn penalties_change_what_greedy_takes() {
    let mut s = LlamaSampler::chain_simple(vec![
        LlamaSampler::penalties(8, f(1.0), f(0.0), f(2.0)),
        LlamaSampler::greedy(),
    ]);
    let mut arr = array(&[1.0, 2.0, 1.5]);
    run(&mut s, &mut arr);
    assert_eq!(arr.selected_token(), Some(LlamaToken(1)));
    s.accept(LlamaToken(1));
    let mut arr = array(&[1.0, 2.0, 1.5]);
    run(&mut s, &mut arr);
    assert_eq!(arr.selected_token(), Some(LlamaToken(2)));
    s.reset();
    assert!(s.history.is_empty());
    let mut arr = array(&[1.0, 2.0, 1.5]);
    run(&mut s, &mut arr);
    assert_eq!(arr.selected_token(), Some(LlamaToken(1)));
}

#[test]
fn every_stage_asks_for_its_own_call() {
    let first_call = |mut s: LlamaSampler| -> StageCall {
        let mut arr = array(&[1.0]);
        match s.apply(&mut arr) {
            ChainStep::Call { call, .. } => call,
            ChainStep::Done => panic!("no call"),
        }
    };
    assert!(matches!(
        first_call(LlamaSampler::top_p(f(0.9), 3)),
        StageCall::TopP { p, min_keep: 3 } if value(p) == 0.9
    ));
    assert!(matches!(
        first_call(LlamaSampler::min_p(f(0.1), 2)),
        StageCall::MinP { p, min_keep: 2 } if value(p) == 0.1
    ));
    assert!(matches!(
        first_call(LlamaSampler::typical(f(0.7), 4)),
        StageCall::Typical { p, min_keep: 4 } if value(p) == 0.7
    ));
    assert!(matches!(
        first_call(LlamaSampler::top_n_sigma(f(1.5))),
        StageCall::TopNSigma { n } if value(n) == 1.5
    ));
    assert!(matches!(
        first_call(LlamaSampler::tail_free(f(0.95), 5)),
        StageCall::TailFree { z, min_keep: 5 } if value(z) == 0.95
    ));
    assert!(matches!(
        first_call(LlamaSampler::temp_ext(f(1.0), f(0.25), f(2.0))),
        StageCall::Entropy { t, delta, exponent }
            if value(t) == 1.0 && value(delta) == 0.25 && value(exponent) == 2.0
    ));
    assert!(matches!(
        first_call(LlamaSampler::parsed_grammar(Some(17)).unwrap()),
        StageCall::Grammar { grammar: 17 }
    ));
}

#[test]
fn accept_names_the_grammars_to_advance() {
    let mut s = LlamaSampler::chain_simple(vec![
        LlamaSampler::parsed_grammar(Some(3)).unwrap(),
        LlamaSampler::temp(f(1.0)),
        LlamaSampler::parsed_grammar(Some(9)).unwrap(),
    ]);
    assert_eq!(s.accept(LlamaToken(4)), vec![3, 9]);
    assert_eq!(LlamaSampler::greedy().accept(LlamaToken(4)), Vec::<u64>::new());
}

#[test]
fn grammar_stages_check_their_text() {
    let source = LlamaSampler::grammar("root ::= [0-9]+", "root").unwrap();
    assert_eq!(source.grammar.as_bytes(), b"root ::= [0-9]+");
    assert_eq!(source.root.as_bytes(), b"root");
    match LlamaSampler::grammar("ro\0ot", "root") {
        Err(GrammarInitError::Nul(e)) => assert_eq!(e.position, 2),
        other => panic!("unexpected {other:?}"),
    }
    assert_eq!(LlamaSampler::parsed_grammar(None).err(), Some(GrammarInitError::Parse));

    let (source, triggers) = LlamaSampler::grammar_lazy(
        "root ::= \"yes\" | \"no\"",
        "root",
        vec![b"<tool>".to_vec(), b"".to_vec()],
        &[LlamaToken(7), LlamaToken(8)],
    )
    .unwrap();
    assert_eq!(source.grammar.as_bytes(), b"root ::= \"yes\" | \"no\"");
    assert_eq!(triggers.words[0].as_bytes(), b"<tool>");
    assert_eq!(triggers.words[1].as_bytes(), b"");
    assert_eq!(triggers.tokens, vec![7, 8]);
    // The first NUL of all is the one that is reported: grammar, root, words.
    let nul = |grammar: &str, root: &str, words: Vec<Vec<u8>>| match LlamaSampler::grammar_lazy(
        grammar,
        root,
        words,
        &[],
    ) {
        Err(GrammarInitError::Nul(e)) => (e.position, e.bytes),
        other => panic!("unexpected {other:?}"),
    };
    assert_eq!(nul("a\0", "\0", vec![b"\0".to_vec()]), (1, b"a\0".to_vec()));
    assert_eq!(nul("a", "bc\0", vec![b"\0".to_vec()]), (2, b"bc\0".to_vec()));
    assert_eq!(
        nul("a", "b", vec![b"ok".to_vec(), b"no\0pe\0".to_vec(), b"\0".to_vec()]),
        (2, b"no\0pe\0".to_vec())
    );
}

fn context() -> LlamaContext {
    LlamaContext {
        n_vocab: 5,
        n_ctx: 16,
        n_embd: 4,
        settings: ContextSettings {
            n_ctx: 16,
            n_batch: 8,
            n_ubatch: 8,
            n_seq_max: 1,
            seed: 0,
            n_threads: 1,
            n_threads_batch: 1,
            flash_attn: false,
            mtp: false,
            embeddings: false,
            pooling_type: 0,
        },
    }
}

#[test]
fn sample_falls_back_to_the_last_greatest() {
    let ctx = context();
    let logits = row(&[0.5, 2.0, 2.0, -1.0, 0.0]);
    // A selector decides.
    let mut s = LlamaSampler::greedy();
    let (arr, step) = s.sample(&ctx, 0, Some(&logits));
    assert!(matches!(step, ChainStep::Done));
    assert_eq!(LlamaSampler::sampled(&arr), LlamaToken(1));
    // Without one, the last of the greatest.
    let mut s = LlamaSampler::chain_simple(vec![]);
    let (arr, step) = s.sample(&ctx, 0, Some(&logits));
    assert!(matches!(step, ChainStep::Done));
    assert_eq!(arr.selected_token(), None);
    assert_eq!(LlamaSampler::sampled(&arr), LlamaToken(2));
    // And without logits, token 0.
    let mut s = LlamaSampler::greedy();
    let (arr, step) = s.sample(&ctx, 3, None);
    assert!(matches!(step, ChainStep::Done));
    assert_eq!(LlamaSampler::sampled(&arr), LlamaToken(0));
}

#[test]
fn seeded_numbers_are_the_documented_ones() {
    // SplitMix64 of seed 0, made odd, and the first xorshift64* draws from it.
    let mut z: u64 = 0x9E37_79B9_7F4A_7C15;
    z = (z ^ (z >> 30)).wrapping_mul(0xBF58_476D_1CE4_E5B9);
    z = (z ^ (z >> 27)).wrapping_mul(0x94D0_49BB_1331_11EB);
    z ^= z >> 31;
    assert_eq!(z, 0xE220_A839_7B1D_CDAF);
    let mut rng = Rng::new(0);
    assert_eq!(rng.state, 0xE220_A839_7B1D_CDAF | 1);
    let mut x = rng.state;
    for _ in 0..100 {
        x ^= x >> 12;
        x ^= x << 25;
        x ^= x >> 27;
        assert_eq!(rng.next_u64(), x.wrapping_mul(0x2545_F491_4F6C_DD1D));
        assert_eq!(rng.state, x);
        assert_ne!(rng.state, 0);
    }
}

#[test]
fn uniform_numbers_are_exact_fractions() {
    let mut a = Rng::new(42);
    let mut b = Rng::new(42);
    for _ in 0..1000 {
        let top = (a.next_u64() >> 40) as u32;
        let expected = (top as f32) / (1u32 << 24) as f32;
        let got = b.next_f32();
        assert_eq!(got.to_bits(), expected.to_bits());
        assert!((0.0..1.0).contains(&value(got)));
    }
}
