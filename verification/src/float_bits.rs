//! Single-precision encoding of unsigned integers, done on the bit pattern.
use vstd::prelude::*;
use vstd::arithmetic::power2::*;
use vstd::arithmetic::div_mod::*;

verus! {

/// The position of the highest set bit of `x` (0 for 0 and 1).
pub open spec fn high_bit(x: nat) -> nat
    decreases x,
{
    if x <= 1 {
        0
    } else {
        1 + high_bit(x / 2)
    }
}

/// `x` rounded to 24 significant bits, ties to even: the single-precision
/// value nearest to `x`.
pub open spec fn round_to_f32(x: nat) -> nat {
    if x < pow2(24) {
        x
    } else {
        let s = (high_bit(x) - 23) as nat;
        let q = x / pow2(s);
        let r = x % pow2(s);
        let half = pow2((s - 1) as nat);
        let q2 = if r > half || (r == half && q % 2 == 1) { q + 1 } else { q };
        q2 * pow2(s)
    }
}

/// `bits` is the IEEE-754 single-precision encoding of the non-negative
/// integer `v`: all zero for zero; otherwise sign 0, biased exponent `e` and
/// fraction `m` with `(2^23 + m) * 2^(e - 127) == v * 2^23`.
pub open spec fn encodes_integer(bits: u32, v: nat) -> bool {
    if v == 0 {
        bits == 0
    } else {
        let e = bits / 0x80_0000;
        let m = bits % 0x80_0000;
        &&& bits < 0x8000_0000
        &&& 127 <= e < 255
        &&& (0x80_0000 + m) * pow2((e - 127) as nat) == v * 0x80_0000
    }
}

pub proof fn lemma_high_bit(x: nat)
    requires
        x >= 1,
    ensures
        pow2(high_bit(x)) <= x < pow2(high_bit(x) + 1),
    decreases x,
{
    if x <= 1 {
        lemma2_to64();
    } else {
        let h = high_bit(x / 2);
        lemma_high_bit(x / 2);
        lemma_pow2_unfold(h + 1);
        lemma_pow2_unfold(h + 2);
    }
}

pub proof fn lemma_high_bit_unique(x: nat, p: nat)
    requires
        pow2(p) <= x < pow2(p + 1),
    ensures
        high_bit(x) == p,
{
    lemma_pow2_pos(p);
    lemma_high_bit(x);
    let h = high_bit(x);
    if h < p {
        if h + 1 < p {
            lemma_pow2_strictly_increases(h + 1, p);
        }
    } else if h > p {
        if p + 1 < h {
            lemma_pow2_strictly_increases(p + 1, h);
        }
    }
}

/// The single-precision bit pattern of `x as f32` (round to nearest, ties to even).
pub fn u32_to_f32_bits(x: u32) -> (bits: u32)
    ensures
        encodes_integer(bits, round_to_f32(x as nat)),
{
    proof {
        lemma2_to64();
    }
    if x == 0 {
        return 0;
    }
    let xv: u64 = x as u64;
    let mut p: u64 = 0;
    let mut pw: u64 = 1;
    while pw * 2 <= xv
        invariant
            pw == pow2(p as nat),
            1 <= pw <= xv,
            xv < 0x1_0000_0000,
            p <= 32,
        decreases xv - pw,
    {
        proof {
            lemma2_to64();
            lemma_pow2_unfold((p + 1) as nat);
            if p + 1 > 32 {
                lemma_pow2_strictly_increases(32, (p + 1) as nat);
            }
        }
        pw = pw * 2;
        p = p + 1;
    }
    proof {
        lemma2_to64();
        lemma_pow2_unfold((p + 1) as nat);
        lemma_high_bit_unique(xv as nat, p as nat);
        if p >= 32 {
            if p > 32 {
                lemma_pow2_strictly_increases(32, p as nat);
            }
        }
    }
    assert(p <= 31);
    if p <= 23 {
        let mut scale: u64 = 1;
        let mut k: u64 = p;
        while k < 23
            invariant
                p <= k <= 23,
                scale == pow2((k - p) as nat),
                scale <= 0x80_0000,
            decreases 23 - k,
        {
            proof {
                lemma2_to64();
                lemma_pow2_unfold((k + 1 - p) as nat);
                if k + 1 - p < 23 {
                    lemma_pow2_strictly_increases((k + 1 - p) as nat, 23);
                }
            }
            scale = scale * 2;
            k = k + 1;
        }
        proof {
            lemma2_to64();
            lemma_pow2_adds((23 - p) as nat, p as nat);
            assert(((23 - p) as nat + p as nat) as nat == 23);
            lemma_pow2_pos((23 - p) as nat);
            assert(xv * scale >= 0x80_0000 && xv * scale < 0x100_0000) by (nonlinear_arith)
                requires
                    pw <= xv,
                    xv < 2 * pw,
                    scale * pw == 0x80_0000,
                    scale > 0,
            ;
        }
        let full: u64 = xv * scale;
        let mant: u64 = full - 0x80_0000;
        let bits: u64 = (p + 127) * 0x80_0000 + mant;
        proof {
            lemma_fundamental_div_mod_converse(bits as int, 0x80_0000, (p + 127) as int, mant as int);
            if p + 1 < 24 {
                lemma_pow2_strictly_increases((p + 1) as nat, 24);
            }
            assert(round_to_f32(x as nat) == x as nat);
            assert((0x80_0000 + mant) * pow2(p as nat) == xv * 0x80_0000) by (nonlinear_arith)
                requires
                    0x80_0000 + mant == xv * scale,
                    scale * pw == 0x80_0000,
                    pw == pow2(p as nat),
            ;
            assert(bits / 0x80_0000 == p + 127);
            assert(bits % 0x80_0000 == mant);
            assert(bits < 0x8000_0000);
        }
        bits as u32
    } else {
        let s: u64 = p - 23;
        let div: u64 = pw / 0x80_0000;
        proof {
            lemma_pow2_adds(s as nat, 23);
            assert((s + 23) as nat == p as nat);
            lemma_pow2_pos(s as nat);
            lemma_fundamental_div_mod_converse(pw as int, 0x80_0000, pow2(s as nat) as int, 0);
            assert(div == pow2(s as nat));
            lemma_pow2_unfold(s as nat);
        }
        let q: u64 = xv / div;
        let r: u64 = xv % div;
        let half: u64 = div / 2;
        proof {
            lemma_fundamental_div_mod(xv as int, div as int);
            assert(q >= 0x80_0000 && q < 0x100_0000) by (nonlinear_arith)
                requires
                    xv == div * q + r,
                    0 <= r < div,
                    div * 0x80_0000 <= xv,
                    xv < 2 * (div * 0x80_0000),
                    div > 0,
            ;
            assert(half == pow2((s - 1) as nat));
            assert(round_to_f32(x as nat) == (if r > half || (r == half && q % 2 == 1) { q + 1 } else { q as int }) * div);
        }
        let q2: u64 = if r > half || (r == half && q % 2 == 1) {
            q + 1
        } else {
            q
        };
        let e: u64;
        let m: u64;
        if q2 == 0x100_0000 {
            e = p + 128;
            m = 0;
            proof {
                lemma_pow2_unfold((p + 1) as nat);
                assert(0x80_0000 * pow2((p + 1) as nat) == q2 * div * 0x80_0000) by (nonlinear_arith)
                    requires
                        pow2((p + 1) as nat) == 2 * pow2(p as nat),
                        pow2(p as nat) == div * 0x80_0000,
                        q2 == 0x100_0000,
                ;
            }
        } else {
            e = p + 127;
            m = q2 - 0x80_0000;
            proof {
                assert((0x80_0000 + m) * pow2(p as nat) == q2 * div * 0x80_0000) by (nonlinear_arith)
                    requires
                        0x80_0000 + m == q2,
                        pow2(p as nat) == div * 0x80_0000,
                ;
            }
        }
        let bits: u64 = e * 0x80_0000 + m;
        proof {
            lemma_fundamental_div_mod_converse(bits as int, 0x80_0000, e as int, m as int);
            assert(bits / 0x80_0000 == e);
            assert(bits % 0x80_0000 == m);
            assert(bits < 0x8000_0000);
            assert(round_to_f32(x as nat) == q2 * div);
            assert(q2 * div > 0) by (nonlinear_arith)
                requires
                    q2 > 0,
                    div > 0,
            ;
            assert((0x80_0000 + m) * pow2((e - 127) as nat) == round_to_f32(x as nat) * 0x80_0000);
        }
        bits as u32
    }
}

/// Integers below 2^24 convert exactly.
pub proof fn law_small_integers_exact(x: nat)
    requires
        x < 0x100_0000,
    ensures
        round_to_f32(x) == x,
{
    lemma2_to64();
}

} // verus!
