//! The seeded random numbers behind the distribution selector.

use vstd::prelude::*;
use vstd::arithmetic::div_mod::*;
use vstd::arithmetic::power2::*;

use crate::float::F32;

verus! {

/// A xorshift64* generator, seeded through SplitMix64, so that a draw can be
/// repeated from its seed.
#[derive(Clone, Copy, Debug)]
pub struct Rng {
    pub state: u64,
}

/// The SplitMix64 output for `seed`.
pub open spec fn split_mix(seed: u32) -> u64 {
    let a = (seed as u64).wrapping_add(0x9E37_79B9_7F4A_7C15);
    let b = (a ^ (a >> 30)).wrapping_mul(0xBF58_476D_1CE4_E5B9);
    let c = (b ^ (b >> 27)).wrapping_mul(0x94D0_49BB_1331_11EB);
    c ^ (c >> 31)
}

/// The three xorshifts that take one state to the next.
pub open spec fn xorshift(state: u64) -> u64 {
    let a = state ^ (state >> 12);
    let b = a ^ (a << 25);
    b ^ (b >> 27)
}

impl Rng {
    /// The generator that `seed` starts.
    pub open spec fn seeded(seed: u32) -> Rng {
        Rng { state: split_mix(seed) | 1 }
    }

    /// The generator one draw later.
    pub open spec fn stepped(self) -> Rng {
        Rng { state: xorshift(self.state) }
    }

    /// What a draw in this state gives.
    pub open spec fn output(self) -> u64 {
        xorshift(self.state).wrapping_mul(0x2545_F491_4F6C_DD1D)
    }

    /// `x` is the top 24 bits of a draw in this state, over 2^24.
    pub open spec fn uniform(self, x: F32) -> bool {
        &&& !x.nan()
        &&& !x.negative()
        &&& x.units() == (self.output() >> 40) * pow2(125)
    }

    /// The number in `[0, 1)` that a draw in this state gives.
    pub open spec fn draw(self) -> F32 {
        choose|x: F32| self.uniform(x)
    }

    pub fn new(seed: u32) -> (rng: Rng)
        ensures
            rng == Rng::seeded(seed),
            rng.state != 0,
    {
        let mut z: u64 = (seed as u64).wrapping_add(0x9E37_79B9_7F4A_7C15);
        z = (z ^ (z >> 30)).wrapping_mul(0xBF58_476D_1CE4_E5B9);
        z = (z ^ (z >> 27)).wrapping_mul(0x94D0_49BB_1331_11EB);
        let mixed: u64 = z ^ (z >> 31);
        proof {
            lemma_seeded_state_is_odd(seed);
        }
        Rng { state: mixed | 1 }
    }

    pub fn next_u64(&mut self) -> (out: u64)
        ensures
            out == old(self).output(),
            *final(self) == old(self).stepped(),
    {
        let mut x: u64 = self.state;
        x = x ^ (x >> 12);
        x = x ^ (x << 25);
        x = x ^ (x >> 27);
        self.state = x;
        x.wrapping_mul(0x2545_F491_4F6C_DD1D)
    }

    /// A number in `[0, 1)`.
    pub fn next_f32(&mut self) -> (x: F32)
        ensures
            old(self).uniform(x),
            0 <= x.units() < pow2(149),
            *final(self) == old(self).stepped(),
    {
        let out: u64 = self.next_u64();
        let top: u64 = out >> 40;
        assert(out >> 40 < 0x100_0000) by (bit_vector);
        let x = F32::fraction_of_one(top as u32);
        proof {
            lemma_below_one(top as nat);
        }
        x
    }
}

proof fn lemma_below_one(top: nat)
    requires
        top < 0x100_0000,
    ensures
        0 <= top * pow2(125) < pow2(149),
{
    lemma2_to64();
    lemma_pow2_pos(125);
    lemma_pow2_adds(24, 125);
    assert(0 <= top * pow2(125) < 0x100_0000 * pow2(125)) by (nonlinear_arith)
        requires
            top < 0x100_0000,
            pow2(125) > 0,
    ;
}

/// The bits above the lower 40 are what is left of dividing by 2^40.
pub proof fn lemma_top_bits(out: u64)
    ensures
        (out >> 40) == out as nat / 0x100_0000_0000,
{
    assert(out >> 40 == out / 0x100_0000_0000) by (bit_vector);
}

/// A seeded generator starts from an odd state, so not from zero.
pub proof fn lemma_seeded_state_is_odd(seed: u32)
    ensures
        Rng::seeded(seed).state % 2 == 1,
        Rng::seeded(seed).state != 0,
{
    let z = split_mix(seed);
    assert((z | 1) % 2 == 1) by (bit_vector);
}

/// A generator whose state is not zero never reaches zero, where it would stay.
pub proof fn lemma_state_never_becomes_zero(rng: Rng)
    requires
        rng.state != 0,
    ensures
        rng.stepped().state != 0,
{
    let s = rng.state;
    let a = s ^ (s >> 12);
    let b = a ^ (a << 25);
    let c = b ^ (b >> 27);
    assert(s ^ (s >> 12) == 0 ==> s == 0) by (bit_vector);
    assert(a ^ (a << 25) == 0 ==> a == 0) by (bit_vector);
    assert(b ^ (b >> 27) == 0 ==> b == 0) by (bit_vector);
}

/// Two states that lead to the same state are the same: no draw forgets
/// anything of the state.
pub proof fn lemma_step_is_injective(r1: Rng, r2: Rng)
    requires
        r1.stepped() == r2.stepped(),
    ensures
        r1 == r2,
{
    let s = r1.state;
    let t = r2.state;
    let a1 = s ^ (s >> 12);
    let a2 = t ^ (t >> 12);
    let b1 = a1 ^ (a1 << 25);
    let b2 = a2 ^ (a2 << 25);
    assert(b1 ^ (b1 >> 27) == b2 ^ (b2 >> 27) ==> b1 == b2) by (bit_vector);
    assert(a1 ^ (a1 << 25) == a2 ^ (a2 << 25) ==> a1 == a2) by (bit_vector);
    assert(s ^ (s >> 12) == t ^ (t >> 12) ==> s == t) by (bit_vector);
}

/// A draw is decided by the state of the generator, to the last bit: two samplers
/// with the same seed draw the same numbers.
pub proof fn lemma_same_state_same_draw(rng: Rng, x: F32, y: F32)
    requires
        rng.uniform(x),
        rng.uniform(y),
    ensures
        x == y,
{
    x.lemma_one_pattern(y);
}

/// Everything that `n` draws from `seed` give, in order.
pub open spec fn stream(rng: Rng, n: nat) -> Seq<u64>
    decreases n,
{
    if n == 0 {
        Seq::empty()
    } else {
        seq![rng.output()] + stream(rng.stepped(), (n - 1) as nat)
    }
}

/// The draws of a seed do not depend on how far they are read: a longer run
/// starts with the draws of every shorter one.
pub proof fn lemma_stream_repeats_from_its_seed(seed: u32, m: nat, n: nat)
    requires
        m <= n,
    ensures
        stream(Rng::seeded(seed), n).len() == n,
        stream(Rng::seeded(seed), n).take(m as int) == stream(Rng::seeded(seed), m),
{
    lemma_stream_prefix(Rng::seeded(seed), m, n);
}

proof fn lemma_stream_prefix(rng: Rng, m: nat, n: nat)
    requires
        m <= n,
    ensures
        stream(rng, n).len() == n,
        stream(rng, n).take(m as int) == stream(rng, m),
    decreases n,
{
    if n > 0 {
        if m > 0 {
            lemma_stream_prefix(rng.stepped(), (m - 1) as nat, (n - 1) as nat);
        } else {
            lemma_stream_prefix(rng.stepped(), 0, (n - 1) as nat);
        }
        let rest = stream(rng.stepped(), (n - 1) as nat);
        if m > 0 {
            assert(stream(rng, n).take(m as int) =~= seq![rng.output()] + rest.take(m - 1));
        }
    }
    assert(stream(rng, n).take(0) =~= Seq::empty());
}

/// Multiplying by an odd number is undone by multiplying by its inverse.
proof fn lemma_product_undone(x: u64, factor: u64, inverse: u64)
    requires
        factor * inverse % 0x1_0000_0000_0000_0000 == 1,
    ensures
        x.wrapping_mul(factor).wrapping_mul(inverse) == x,
{
    let m = 0x1_0000_0000_0000_0000int;
    let xi = x as int;
    let f = factor as int;
    let i = inverse as int;
    assert(0 <= xi * f) by (nonlinear_arith)
        requires
            xi >= 0,
            f >= 0,
    ;
    assert(0 <= f * i) by (nonlinear_arith)
        requires
            f >= 0,
            i >= 0,
    ;
    lemma_mul_mod_noop_left(xi * f, i, m);
    assert(xi * f * i == xi * (f * i)) by (nonlinear_arith);
    lemma_mul_mod_noop_right(xi, f * i, m);
    lemma_small_mod(x as nat, m as nat);
    assert(x.wrapping_mul(factor) == (xi * f) % m);
}

/// SplitMix64 forgets nothing: undoing its steps one by one, from the last to the
/// first, gives back the seed, moved on by the golden ratio in 64 bits.
pub proof fn lemma_seed_can_be_read_back(seed: u32)
    ensures
        ({
            let z = split_mix(seed);
            let c = z ^ (z >> 31) ^ (z >> 62);
            let b = c.wrapping_mul(0x3196_42B2_D24D_8EC3);
            let b = b ^ (b >> 27) ^ (b >> 54);
            let a = b.wrapping_mul(0x96DE_1B17_3F11_9089);
            let a = a ^ (a >> 30) ^ (a >> 60);
            a == seed + 0x9E37_79B9_7F4A_7C15
        }),
{
    let a = (seed as u64).wrapping_add(0x9E37_79B9_7F4A_7C15);
    let a1 = a ^ (a >> 30);
    let b = a1.wrapping_mul(0xBF58_476D_1CE4_E5B9);
    let b1 = b ^ (b >> 27);
    let c = b1.wrapping_mul(0x94D0_49BB_1331_11EB);
    let z = c ^ (c >> 31);
    assert(z == split_mix(seed));
    assert(z ^ (z >> 31) ^ (z >> 62) == c) by (bit_vector)
        requires
            z == c ^ (c >> 31),
    ;
    assert(0x94D0_49BB_1331_11EBu64 * 0x3196_42B2_D24D_8EC3u64 % 0x1_0000_0000_0000_0000 == 1) by (nonlinear_arith);
    assert(0xBF58_476D_1CE4_E5B9u64 * 0x96DE_1B17_3F11_9089u64 % 0x1_0000_0000_0000_0000 == 1) by (nonlinear_arith);
    lemma_product_undone(b1, 0x94D0_49BB_1331_11EB, 0x3196_42B2_D24D_8EC3);
    assert(b1 ^ (b1 >> 27) ^ (b1 >> 54) == b) by (bit_vector)
        requires
            b1 == b ^ (b >> 27),
    ;
    lemma_product_undone(a1, 0xBF58_476D_1CE4_E5B9, 0x96DE_1B17_3F11_9089);
    assert(a1 ^ (a1 >> 30) ^ (a1 >> 60) == a) by (bit_vector)
        requires
            a1 == a ^ (a >> 30),
    ;
}

/// Seeds matter: different seeds give different numbers before the lowest bit is set,
/// so no three seeds share a starting state.
pub proof fn lemma_at_most_two_seeds_share_a_start(
    s: u32,
    t: u32,
    u: u32,
    a: Rng,
    b: Rng,
    c: Rng,
)
    requires
        s != t,
        t != u,
        s != u,
        call_ensures(Rng::new, (s,), a),
        call_ensures(Rng::new, (t,), b),
        call_ensures(Rng::new, (u,), c),
    ensures
        split_mix(s) != split_mix(t),
        !(a.state == b.state && b.state == c.state),
{
    lemma_seed_can_be_read_back(s);
    lemma_seed_can_be_read_back(t);
    lemma_seed_can_be_read_back(u);
    let x = split_mix(s);
    let y = split_mix(t);
    let z = split_mix(u);
    assert(x | 1 == y | 1 && y | 1 == z | 1 ==> x == y || y == z || x == z) by (bit_vector);
}

/// A generator starts from what SplitMix64 makes of its seed, made odd: of the two
/// numbers that differ from the starting state in the lowest bit at most, one leads
/// back to the seed.
pub proof fn lemma_start_leads_back_to_its_seed(seed: u32, rng: Rng)
    requires
        call_ensures(Rng::new, (seed,), rng),
    ensures
        rng.state % 2 == 1,
        exists|z: u64|
            {
                let c = z ^ (z >> 31) ^ (z >> 62);
                let b = c.wrapping_mul(0x3196_42B2_D24D_8EC3);
                let b = b ^ (b >> 27) ^ (b >> 54);
                let a = b.wrapping_mul(0x96DE_1B17_3F11_9089);
                let a = a ^ (a >> 30) ^ (a >> 60);
                &&& #[trigger] (z | 1) == rng.state
                &&& a == seed + 0x9E37_79B9_7F4A_7C15
            },
{
    lemma_seed_can_be_read_back(seed);
    lemma_seeded_state_is_odd(seed);
    assert(split_mix(seed) | 1 == rng.state);
}

/// A draw moves the state on by the three shifts of xorshift64, which can be undone
/// one by one; it gives the new state times the generator's multiplier, in 64 bits.
pub proof fn lemma_draw_can_be_undone(rng: &mut Rng, out: u64)
    requires
        call_ensures(Rng::next_u64, (rng,), out),
    ensures
        ({
            let y = final(rng).state;
            let b = y ^ (y >> 27) ^ (y >> 54);
            let a = b ^ (b << 25) ^ (b << 50);
            let x = a ^ (a >> 12) ^ (a >> 24) ^ (a >> 36) ^ (a >> 48) ^ (a >> 60);
            x == old(rng).state
        }),
        out == final(rng).state * 0x2545_F491_4F6C_DD1D % 0x1_0000_0000_0000_0000,
{
    lemma_step_can_be_undone(*old(rng));
}

proof fn lemma_step_can_be_undone(rng: Rng)
    ensures
        ({
            let y = rng.stepped().state;
            let b = y ^ (y >> 27) ^ (y >> 54);
            let a = b ^ (b << 25) ^ (b << 50);
            let x = a ^ (a >> 12) ^ (a >> 24) ^ (a >> 36) ^ (a >> 48) ^ (a >> 60);
            x == rng.state
        }),
{
    let x = rng.state;
    let a = x ^ (x >> 12);
    let b = a ^ (a << 25);
    let y = b ^ (b >> 27);
    assert(y ^ (y >> 27) ^ (y >> 54) == b) by (bit_vector)
        requires
            y == b ^ (b >> 27),
    ;
    assert(b ^ (b << 25) ^ (b << 50) == a) by (bit_vector)
        requires
            b == a ^ (a << 25),
    ;
    assert(a ^ (a >> 12) ^ (a >> 24) ^ (a >> 36) ^ (a >> 48) ^ (a >> 60) == x) by (bit_vector)
        requires
            a == x ^ (x >> 12),
    ;
}

/// The number that is drawn is the top 24 bits of a draw over 2^24, so it is in
/// `[0, 1)`; and the state moves on as for any draw.
pub proof fn lemma_number_is_the_top_of_a_draw(
    rng: &mut Rng,
    x: F32,
    other: &mut Rng,
    out: u64,
)
    requires
        call_ensures(Rng::next_f32, (rng,), x),
        call_ensures(Rng::next_u64, (other,), out),
        *old(other) == *old(rng),
    ensures
        *final(rng) == *final(other),
        !x.nan(),
        !x.negative(),
        x.units() == (out as nat / 0x100_0000_0000) * pow2(125),
        x.units() < pow2(149),
{
    lemma_top_bits(out);
}


} // verus!
