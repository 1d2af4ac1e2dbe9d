use ik_llama_cpp_2::float::F32;

fn f(x: f32) -> F32 {
    F32::from_bits(x.to_bits())
}

#[test]
fn order_is_that_of_the_numbers() {
    let numbers = [
        0.0_f32,
        -0.0,
        1.0,
        -1.0,
        1.5,
        f32::MIN_POSITIVE,
        f32::from_bits(1),
        -f32::from_bits(1),
        f32::MAX,
        f32::MIN,
        f32::INFINITY,
        f32::NEG_INFINITY,
        f32::NAN,
        1e-40,
        3.25e10,
    ];
    for &a in &numbers {
        for &b in &numbers {
            assert_eq!(f(a).gt(f(b)), a > b, "{a} > {b}");
            assert_eq!(f(a) == f(b), a == b, "{a} == {b}");
        }
        assert_eq!(f(a).is_nan(), a.is_nan());
    }
}

#[test]
fn fractions_of_one_are_exact() {
    for n in [0_u32, 1, 2, 3, 5, 0x7f_ffff, 0x80_0000, 0x80_0001, 0xff_ffff] {
        let expected = n as f32 / 16_777_216.0;
        assert_eq!(F32::fraction_of_one(n).to_bits(), expected.to_bits(), "{n}");
    }
}
