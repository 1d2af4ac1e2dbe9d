use ik_llama_cpp_2::float::F64;
use ik_llama_cpp_2::timing::LlamaTimings;

fn ms(x: f64) -> F64 {
    F64 { bits: x.to_bits() }
}

#[test]
fn timings_keep_what_they_are_told() {
    let mut t =
        LlamaTimings::new(ms(1.0), ms(10.0), ms(2.0), ms(0.5), ms(3.0), ms(4.0), 7, 5, 6);
    assert_eq!((t.t_start_ms(), t.t_end_ms(), t.t_load_ms()), (ms(1.0), ms(10.0), ms(2.0)));
    assert_eq!((t.t_sample_ms(), t.t_p_eval_ms(), t.t_eval_ms()), (ms(0.5), ms(3.0), ms(4.0)));
    assert_eq!((t.n_sample(), t.n_p_eval(), t.n_eval()), (7, 5, 6));
    t.set_t_start_ms(ms(11.0));
    t.set_t_end_ms(ms(12.0));
    t.set_t_load_ms(ms(13.0));
    t.set_t_sample_ms(ms(14.0));
    t.set_t_p_eval_ms(ms(15.0));
    t.set_t_eval_ms(ms(16.0));
    t.set_n_sample(17);
    t.set_n_p_eval(18);
    t.set_n_eval(19);
    assert_eq!(
        t,
        LlamaTimings::new(ms(11.0), ms(12.0), ms(13.0), ms(14.0), ms(15.0), ms(16.0), 17, 18, 19)
    );
}
