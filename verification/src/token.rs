//! Access-token derivation.
//!
//! The syndication server expects a token computed from the post identifier by
//! one specific double-precision evaluation: `x = (id as f64 / 1e15) * pi`,
//! whose integer part is written in base 36, followed by eight base-36 digits
//! of the fractional part, with every `'0'` digit deleted (falling back to the
//! literal string `"0"` when nothing remains).
//!
//! To keep the computation verifiable it is carried out here in exact integer
//! arithmetic: a positive finite double is represented as a normalized
//! mantissa/exponent pair `m * 2^e` with `2^52 <= m < 2^53`, and each rounding
//! of the original evaluation (u64-to-double conversion, the division by
//! `10^15`, the multiplication by pi, and each fractional `* 36` step) is
//! performed with IEEE 754 round-to-nearest, ties-to-even. The spec functions
//! below are the mathematical statement of that evaluation; `calc_token`
//! computes it and is proved to return exactly `token_spec(id)`.

use vstd::prelude::*;
use vstd::string::*;
use vstd::arithmetic::power2::{
    pow2, lemma_pow2_adds, lemma_pow2_pos, lemma_pow2_strictly_increases, lemma2_to64,
    lemma2_to64_rest,
};
use vstd::arithmetic::div_mod::{
    lemma_fundamental_div_mod, lemma_div_is_ordered, lemma_div_is_ordered_by_denominator,
    lemma_multiply_divide_lt, lemma_div_multiples_vanish, lemma_small_mod,
    lemma_div_nonincreasing, lemma_mod_decreases,
};
use vstd::arithmetic::mul::{lemma_mul_inequality, lemma_mul_strict_inequality};

verus! {

/// Mantissa of the double closest to pi: pi == 7074237752028440 * 2^-51.
pub const PI_MANTISSA: u128 = 7074237752028440;

/// 10^15 is exactly representable: 10^15 == 8000000000000000 * 2^-3.
pub const TEN15_MANTISSA: u128 = 8000000000000000;

/// Number of binary digits of `n` (0 for 0).
pub open spec fn bit_len(n: nat) -> nat
    decreases n,
{
    if n == 0 {
        0
    } else {
        (1 + bit_len(n / 2)) as nat
    }
}

/// Round `p / 2^s` to an integer, round-to-nearest, ties-to-even.
/// `sticky` records that the true value is known to be slightly larger
/// than `p / 2^s` (dropped remainder bits further down).
pub open spec fn rne(p: nat, s: nat, sticky: bool) -> nat {
    if s == 0 {
        p
    } else {
        let q0 = p / pow2(s);
        let low = p % pow2(s);
        let half = pow2((s - 1) as nat);
        if low > half || (low == half && (sticky || q0 % 2 == 1)) {
            q0 + 1
        } else {
            q0
        }
    }
}

/// A positive finite double, normalized: value is `m * 2^e`, `2^52 <= m < 2^53`.
pub struct Fp64 {
    pub m: nat,
    pub e: int,
}

/// Re-normalize after rounding overflowed the mantissa to exactly 2^53.
pub open spec fn renorm(m: nat, e: int) -> Fp64 {
    if m == pow2(53) {
        Fp64 { m: pow2(52), e: e + 1 }
    } else {
        Fp64 { m, e }
    }
}

/// `id as f64` for `id >= 1`: round the integer to 53 significant bits.
pub open spec fn to_double(id: u64) -> Fp64 {
    let l = bit_len(id as nat);
    if l <= 53 {
        Fp64 { m: (id as nat) * pow2((53 - l) as nat), e: l - 53 }
    } else {
        let s = (l - 53) as nat;
        renorm(rne(id as nat, s, false), s as int)
    }
}

/// Division of a normalized double by the double 10^15, rounded to nearest even.
pub open spec fn div_ten15(a: Fp64) -> Fp64 {
    let n = a.m * pow2(54);
    let q0 = n / (TEN15_MANTISSA as nat);
    let sticky = n % (TEN15_MANTISSA as nat) != 0;
    let s = (bit_len(q0) - 53) as nat;
    renorm(rne(q0, s, sticky), a.e + 3 - 54 + s)
}

/// Multiplication of a normalized double by the double closest to pi.
pub open spec fn mul_pi(a: Fp64) -> Fp64 {
    let p = a.m * (PI_MANTISSA as nat);
    let s = (bit_len(p) - 53) as nat;
    renorm(rne(p, s, false), a.e - 51 + s)
}

/// The double `(id as f64 / 1e15) * pi`, for `id >= 1`.
pub open spec fn scaled(id: u64) -> Fp64 {
    mul_pi(div_ten15(to_double(id)))
}

/// The base-36 digit characters `0-9a-z`; digits out of range map to a
/// placeholder that the algorithm never produces.
pub open spec fn digit_char(d: nat) -> char {
    if d < 10 {
        ((48 + d) as u8) as char
    } else if d < 36 {
        ((87 + d) as u8) as char
    } else {
        '?'
    }
}

/// Base-36 digits of the integer part, most significant first.
pub open spec fn int_chars(i: nat) -> Seq<char>
    decreases i,
{
    if i == 0 {
        Seq::empty()
    } else {
        int_chars(i / 36).push(digit_char(i % 36))
    }
}

/// One fractional step: the fraction is `f / 2^k`; multiply by 36 as doubles
/// (rounding the product to 53 significant bits), return the new integer part
/// (the digit), the new fraction numerator and its scale.
pub open spec fn frac_step(f: nat, k: nat) -> (nat, nat, nat) {
    let p = 36 * f;
    let l = bit_len(p);
    if l <= 53 {
        (p / pow2(k), p % pow2(k), k)
    } else {
        let s0 = (l - 53) as nat;
        let q1 = rne(p, s0, false);
        let q = if q1 == pow2(53) {
            pow2(52)
        } else {
            q1
        };
        let s = if q1 == pow2(53) {
            s0 + 1
        } else {
            s0
        };
        let kp = (k - s) as nat;
        (q / pow2(kp), q % pow2(kp), kp)
    }
}

/// `count` base-36 digits of the fraction `f / 2^k`, earliest first.
pub open spec fn frac_chars(f: nat, k: nat, count: nat) -> Seq<char>
    decreases count,
{
    if count == 0 {
        Seq::empty()
    } else {
        seq![digit_char(frac_step(f, k).0)] + frac_chars(
            frac_step(f, k).1,
            frac_step(f, k).2,
            (count - 1) as nat,
        )
    }
}

/// Postprocessing: delete every `'0'`; an empty result becomes `"0"`.
pub open spec fn post_chars(raw: Seq<char>) -> Seq<char> {
    let kept = raw.filter(|c: char| c != '0');
    if kept.len() == 0 {
        seq!['0']
    } else {
        kept
    }
}

/// The token for `id`: base-36 digits of `(id as f64 / 1e15) * pi` (integer
/// part, then eight fractional digits), with every `'0'` removed; `"0"` if
/// nothing remains.
pub open spec fn token_spec(id: u64) -> Seq<char> {
    if id == 0 {
        seq!['0']
    } else {
        let x = scaled(id);
        let k = (0 - x.e) as nat;
        post_chars(int_chars(x.m / pow2(k)) + frac_chars(x.m % pow2(k), k, 8))
    }
}

/// A character the token may contain: a nonzero base-36 digit, or the single
/// character of the fallback token `"0"`.
pub open spec fn is_base36_char(c: char) -> bool {
    ('0' <= c && c <= '9') || ('a' <= c && c <= 'z')
}

proof fn lemma_bit_len_bounds(n: nat)
    ensures
        n < pow2(bit_len(n)),
        n >= 1 ==> pow2((bit_len(n) - 1) as nat) <= n,
    decreases n,
{
    lemma2_to64();
    if n > 0 {
        lemma_bit_len_bounds(n / 2);
        let b = bit_len(n / 2);
        lemma_pow2_adds(1, b);
        assert(pow2(bit_len(n)) == 2 * pow2(b));
        if n >= 2 {
            lemma_pow2_adds(1, (b - 1) as nat);
        }
    }
}

proof fn lemma_bit_len_le(n: nat, k: nat)
    requires
        n < pow2(k),
    ensures
        bit_len(n) <= k,
{
    if bit_len(n) > k {
        assert(n >= 1) by {
            if n == 0 {
                assert(bit_len(0nat) == 0);
            }
        }
        lemma_bit_len_bounds(n);
        let b1 = (bit_len(n) - 1) as nat;
        if b1 > k {
            lemma_pow2_strictly_increases(k, b1);
        }
        assert(false);
    }
}

proof fn lemma_bit_len_ge(n: nat, k: nat)
    requires
        pow2(k) <= n,
    ensures
        bit_len(n) >= k + 1,
{
    lemma_bit_len_bounds(n);
    if bit_len(n) < k + 1 {
        if bit_len(n) < k {
            lemma_pow2_strictly_increases(bit_len(n), k);
        }
        assert(false);
    }
}

/// The rounded value overshoots the exact quotient by at most half of the
/// dropped scale: `rne(p, s, st) * 2^s <= p + 2^(s-1)` for `s >= 1`.
proof fn lemma_rne_bounds(p: nat, s: nat, st: bool)
    requires
        s >= 1,
    ensures
        rne(p, s, st) >= p / pow2(s),
        rne(p, s, st) * pow2(s) <= p + pow2((s - 1) as nat),
{
    lemma_pow2_pos(s);
    lemma_pow2_adds((s - 1) as nat, 1);
    lemma2_to64();
    let d = pow2(s);
    let q0 = p / d;
    let low = p % d;
    lemma_fundamental_div_mod(p as int, d as int);
    assert(p == q0 * d + low);
    assert(rne(p, s, st) * d <= p + pow2((s - 1) as nat)) by {
        if rne(p, s, st) == q0 + 1 {
            assert(low >= pow2((s - 1) as nat));
            assert((q0 + 1) * d == q0 * d + d) by (nonlinear_arith);
        }
    }
}

fn pow2u(k: u32) -> (r: u128)
    requires
        k <= 107,
    ensures
        r == pow2(k as nat),
        r >= 1,
{
    proof {
        lemma2_to64();
        lemma2_to64_rest();
        lemma_pow2_adds(64, 43);
        assert(pow2(107) == 0x10000000000000000 * 0x80000000000) by (nonlinear_arith)
            requires pow2(107) == pow2(64) * pow2(43), pow2(64) == 0x10000000000000000,
                pow2(43) == 0x80000000000;
    }
    let mut i: u32 = 0;
    let mut r: u128 = 1;
    while i < k
        invariant
            i <= k,
            k <= 107,
            r == pow2(i as nat),
            pow2(107) == 0x800000000000000000000000000,
        decreases k - i,
    {
        proof {
            if (i + 1) as nat <= 107 {
                if ((i + 1) as nat) < 107 {
                    lemma_pow2_strictly_increases((i + 1) as nat, 107);
                }
            }
            lemma_pow2_adds(i as nat, 1);
            lemma2_to64();
        }
        r = r * 2;
        i = i + 1;
    }
    proof {
        lemma_pow2_pos(k as nat);
    }
    r
}

fn bit_len_u128(n: u128) -> (r: u32)
    ensures
        r == bit_len(n as nat),
        r <= 128,
{
    proof {
        lemma2_to64();
        lemma2_to64_rest();
        lemma_pow2_adds(64, 64);
        assert(pow2(128) == 0x10000000000000000 * 0x10000000000000000) by (nonlinear_arith)
            requires pow2(128) == pow2(64) * pow2(64), pow2(64) == 0x10000000000000000;
        lemma_bit_len_le(n as nat, 128);
    }
    let mut t: u128 = n;
    let mut l: u32 = 0;
    while t > 0
        invariant
            bit_len(n as nat) == l + bit_len(t as nat),
            l <= 128,
            bit_len(t as nat) <= 128 - l,
        decreases t,
    {
        proof {
            assert(bit_len(t as nat) == 1 + bit_len((t / 2) as nat));
        }
        t = t / 2;
        l = l + 1;
    }
    l
}

fn rne_u128(p: u128, s: u32, sticky: bool) -> (r: u128)
    requires
        1 <= s <= 107,
    ensures
        r == rne(p as nat, s as nat, sticky),
        r <= (p as nat) / pow2(s as nat) + 1,
{
    let d = pow2u(s);
    let q0 = p / d;
    let low = p % d;
    let half = pow2u(s - 1);
    proof {
        lemma_pow2_pos(s as nat);
        lemma2_to64();
        if s > 1 {
            lemma_pow2_strictly_increases(1, s as nat);
        }
        assert(d >= 2);
        lemma_div_is_ordered_by_denominator(p as int, 2, d as int);
    }
    if low > half || (low == half && (sticky || q0 % 2 == 1)) {
        q0 + 1
    } else {
        q0
    }
}

/// Single base-36 digit as a string slice; digits out of range (which the
/// algorithm never produces) map to the same placeholder as `digit_char`.
pub(crate) fn digit_str(d: u64) -> (r: &'static str)
    ensures
        r@ =~= seq![digit_char(d as nat)],
{
    let r: &'static str = match d {
        0 => "0",
        1 => "1",
        2 => "2",
        3 => "3",
        4 => "4",
        5 => "5",
        6 => "6",
        7 => "7",
        8 => "8",
        9 => "9",
        10 => "a",
        11 => "b",
        12 => "c",
        13 => "d",
        14 => "e",
        15 => "f",
        16 => "g",
        17 => "h",
        18 => "i",
        19 => "j",
        20 => "k",
        21 => "l",
        22 => "m",
        23 => "n",
        24 => "o",
        25 => "p",
        26 => "q",
        27 => "r",
        28 => "s",
        29 => "t",
        30 => "u",
        31 => "v",
        32 => "w",
        33 => "x",
        34 => "y",
        35 => "z",
        _ => "?",
    };
    proof {
        reveal_strlit("0");
        reveal_strlit("1");
        reveal_strlit("2");
        reveal_strlit("3");
        reveal_strlit("4");
        reveal_strlit("5");
        reveal_strlit("6");
        reveal_strlit("7");
        reveal_strlit("8");
        reveal_strlit("9");
        reveal_strlit("a");
        reveal_strlit("b");
        reveal_strlit("c");
        reveal_strlit("d");
        reveal_strlit("e");
        reveal_strlit("f");
        reveal_strlit("g");
        reveal_strlit("h");
        reveal_strlit("i");
        reveal_strlit("j");
        reveal_strlit("k");
        reveal_strlit("l");
        reveal_strlit("m");
        reveal_strlit("n");
        reveal_strlit("o");
        reveal_strlit("p");
        reveal_strlit("q");
        reveal_strlit("r");
        reveal_strlit("s");
        reveal_strlit("t");
        reveal_strlit("u");
        reveal_strlit("v");
        reveal_strlit("w");
        reveal_strlit("x");
        reveal_strlit("y");
        reveal_strlit("z");
        reveal_strlit("?");
    }
    r
}

/// One executable fractional digit step, proved equal to `frac_step` and to
/// keep the fraction representable: numerator below both `2^53` and `2^k`.
#[verifier::rlimit(50)]
fn frac_step_exec(fr: u128, kk: u32) -> (res: (u64, u128, u32))
    requires
        fr < pow2(53),
        fr < pow2(kk as nat),
        33 <= kk <= 101,
    ensures
        res.0 as nat == frac_step(fr as nat, kk as nat).0,
        res.1 as nat == frac_step(fr as nat, kk as nat).1,
        res.2 as nat == frac_step(fr as nat, kk as nat).2,
        res.0 < 36,
        res.1 < pow2(53),
        res.1 < pow2(res.2 as nat),
        33 <= res.2 <= kk,
{
    proof {
        lemma2_to64();
        lemma2_to64_rest();
    }
    let p: u128 = 36 * fr;
    proof {
        assert(p < 36 * pow2(53));
        assert(36 * pow2(53) < pow2(59));
        // p < 64 * 2^kk == 2^(kk+6)
        lemma_pow2_adds(kk as nat, 6);
        assert(p < 64 * pow2(kk as nat));
    }
    let l: u32 = bit_len_u128(p);
    proof {
        lemma_bit_len_le(p as nat, 59);
        lemma_bit_len_le(p as nat, (kk + 6) as nat);
        lemma_pow2_pos(kk as nat);
    }
    if l <= 53 {
        proof {
            lemma_bit_len_bounds(p as nat);
            if l < 53 {
                lemma_pow2_strictly_increases(l as nat, 53);
            }
            assert(p < pow2(53));
            // digit below 36: p <= 36 * (2^kk - 1) < 36 * 2^kk
            assert(p < 36 * pow2(kk as nat));
            lemma_multiply_divide_lt(p as int, pow2(kk as nat) as int, 36);
        }
        let pk = pow2u(kk);
        let d: u64 = (p / pk) as u64;
        let f2: u128 = p % pk;
        proof {
            lemma_mod_decreases(p as nat, pow2(kk as nat));
        }
        (d, f2, kk)
    } else {
        let s0: u32 = l - 53;
        proof {
            // s0 <= 6 and s0 <= kk - 47
            assert(bit_len(p as nat) <= 59);
            assert(bit_len(p as nat) <= kk + 6);
            assert(1 <= s0 <= 6);
            assert(s0 + 47 <= kk);
            lemma_bit_len_bounds(p as nat);
            lemma_pow2_adds(53, s0 as nat);
            assert(p < pow2(53) * pow2(s0 as nat));
        }
        let q1: u128 = rne_u128(p, s0, false);
        proof {
            lemma_rne_bounds(p as nat, s0 as nat, false);
            // q1 * 2^s0 <= p + 2^(s0-1) <= 36*2^kk - 36 + 32 < 36 * 2^kk
            assert(pow2((s0 - 1) as nat) <= 32) by {
                if s0 - 1 < 5 {
                    lemma_pow2_strictly_increases((s0 - 1) as nat, 5);
                }
            }
            assert(p <= 36 * pow2(kk as nat) - 36);
            assert(q1 * pow2(s0 as nat) <= 36 * pow2(kk as nat) - 4) by {
                assert(q1 as nat * pow2(s0 as nat) <= p + pow2((s0 - 1) as nat));
            }
            // cancel 2^s0: q1 < 36 * 2^(kk - s0)
            lemma_pow2_adds((kk - s0) as nat, s0 as nat);
            assert(q1 < 36 * pow2((kk - s0) as nat)) by (nonlinear_arith)
                requires
                    q1 * pow2(s0 as nat) < 36 * (pow2((kk - s0) as nat) * pow2(s0 as nat)),
                    pow2(s0 as nat) >= 1,
            ;
            // q1 <= q0 + 1 <= 2^53 since q0 = p/2^s0 < 2^53
            lemma_pow2_adds(53, s0 as nat);
            lemma_multiply_divide_lt(p as int, pow2(s0 as nat) as int, pow2(53) as int);
            assert(q1 <= pow2(53));
        }
        let p53 = pow2u(53);
        let q: u128;
        let s: u32;
        if q1 == p53 {
            q = pow2u(52);
            s = s0 + 1;
            proof {
                // 2^53 < 36*2^(kk-s0) gives 2^52 < 36*2^(kk-s0-1)
                lemma_pow2_adds((kk - s0 - 1) as nat, 1);
                assert(pow2((kk - s0) as nat) == 2 * pow2((kk - s0 - 1) as nat));
            }
        } else {
            q = q1;
            s = s0;
        }
        let kp: u32 = kk - s;
        proof {
            assert(q < 36 * pow2(kp as nat));
            assert(q < pow2(53));
        }
        let pkp = pow2u(kp);
        let d: u64 = (q / pkp) as u64;
        let f2: u128 = q % pkp;
        proof {
            lemma_multiply_divide_lt(q as int, pow2(kp as nat) as int, 36);
            assert(f2 < pow2(53)) by {
                if kp >= 53 {
                    if kp > 53 {
                        lemma_pow2_strictly_increases(53, kp as nat);
                    }
                    lemma_small_mod(q as nat, pow2(kp as nat));
                } else {
                    lemma_pow2_strictly_increases(kp as nat, 53);
                }
            }
        }
        (d, f2, kp)
    }
}

/// Render a digit sequence as a string, deleting every zero digit; the empty
/// result falls back to `"0"`, exactly as the token postprocessing asks.
fn digits_to_string(digs: &Vec<u64>) -> (r: String)
    requires
        forall|q: int| 0 <= q < digs@.len() ==> #[trigger] digs@[q] < 36,
    ensures
        r@ == post_chars(digs@.map_values(|d: u64| digit_char(d as nat))),
        r@.len() >= 1,
        forall|t: int| 0 <= t < r@.len() ==> is_base36_char(#[trigger] r@[t]),
        r@ == seq!['0'] || forall|t: int| 0 <= t < r@.len() ==> #[trigger] r@[t] != '0',
{
    let ghost fm = |d: u64| digit_char(d as nat);
    let ghost pr = |c: char| c != '0';
    let mut out: String = String::from_str("");
    proof {
        reveal_strlit("");
        reveal(Seq::filter);
        assert(digs@.take(0).map_values(fm) =~= Seq::<char>::empty());
        assert(out@ =~= digs@.take(0).map_values(fm).filter(pr));
    }
    let mut j: usize = 0;
    let n: usize = digs.len();
    while j < n
        invariant
            n == digs@.len(),
            j <= n,
            forall|q: int| 0 <= q < digs@.len() ==> #[trigger] digs@[q] < 36,
            out@ == digs@.take(j as int).map_values(fm).filter(pr),
            fm == (|d: u64| digit_char(d as nat)),
            pr == (|c: char| c != '0'),
            forall|t: int| 0 <= t < out@.len()
                ==> #[trigger] out@[t] != '0' && is_base36_char(out@[t]),
        decreases n - j,
    {
        let d: u64 = digs[j];
        let ghost prefix = digs@.take(j as int);
        let ghost mapped = prefix.map_values(fm);
        let ghost c = digit_char(d as nat);
        if d != 0 {
            out.append(digit_str(d));
        }
        j = j + 1;
        proof {
            assert(digs@.take(j as int) =~= prefix.push(d));
            assert(digs@.take(j as int).map_values(fm) =~= mapped.push(c));
            assert(mapped.push(c).drop_last() =~= mapped);
            assert(mapped.push(c).last() == c);
            reveal(Seq::filter);
            if d != 0 {
                assert(c != '0' && is_base36_char(c)) by {
                    if d < 10 {
                        assert(c == ((48 + d) as u8) as char);
                    } else {
                        assert(c == ((87 + d) as u8) as char);
                    }
                }
                assert(mapped.push(c).filter(pr) == mapped.filter(pr).push(c));
                assert(out@ =~= mapped.filter(pr).push(c));
            } else {
                assert(c == '0') by {
                    assert(c == ((48 + 0) as u8) as char);
                }
                assert(mapped.push(c).filter(pr) == mapped.filter(pr));
            }
        }
    }
    proof {
        assert(digs@.take(n as int) =~= digs@);
    }
    if out.as_str().unicode_len() == 0 {
        let z: String = String::from_str("0");
        proof {
            reveal_strlit("0");
            assert(z@ =~= seq!['0']);
        }
        z
    } else {
        out
    }
}

/// Derive the access token for a post identifier.
///
/// Total over all identifiers, no side effects: the result is exactly
/// `token_spec(id)`, so two calls with the same identifier return the same
/// string. Every character of the token is a base-36 digit `0-9a-z`, and
/// unless the token is the fallback `"0"` it contains no `'0'` at all.
#[verifier::rlimit(100)]
pub fn calc_token(id: u64) -> (r: String)
    ensures
        r@ == token_spec(id),
        r@.len() >= 1,
        forall|i: int| 0 <= i < r@.len() ==> is_base36_char(#[trigger] r@[i]),
        r@ == seq!['0'] || forall|i: int| 0 <= i < r@.len() ==> #[trigger] r@[i] != '0',
{
    proof {
        lemma2_to64();
        lemma2_to64_rest();
    }
    if id == 0 {
        let z: String = String::from_str("0");
        proof {
            reveal_strlit("0");
            assert(z@ =~= seq!['0']);
        }
        return z;
    }
    // id as f64
    let l: u32 = bit_len_u128(id as u128);
    proof {
        lemma_bit_len_bounds(id as nat);
        lemma_bit_len_ge(id as nat, 0);
        lemma_bit_len_le(id as nat, 64);
        assert(1 <= l <= 64);
    }
    let m: u128;
    let e: i64;
    if l <= 53 {
        let sh: u128 = pow2u(53 - l);
        proof {
            lemma_pow2_pos((53 - l) as nat);
            lemma_pow2_adds((l - 1) as nat, (53 - l) as nat);
            lemma_pow2_adds(l as nat, (53 - l) as nat);
            lemma_mul_strict_inequality(
                id as int,
                pow2(l as nat) as int,
                pow2((53 - l) as nat) as int,
            );
            lemma_mul_inequality(
                pow2((l - 1) as nat) as int,
                id as int,
                pow2((53 - l) as nat) as int,
            );
        }
        m = (id as u128) * sh;
        e = (l as i64) - 53;
    } else {
        let s: u32 = l - 53;
        proof {
            lemma_pow2_pos(s as nat);
            lemma_pow2_adds(52, s as nat);
            lemma_pow2_adds(53, s as nat);
            lemma_div_is_ordered(
                pow2((l - 1) as nat) as int,
                id as int,
                pow2(s as nat) as int,
            );
            lemma_div_multiples_vanish(pow2(52) as int, pow2(s as nat) as int);
            lemma_multiply_divide_lt(id as int, pow2(s as nat) as int, pow2(53) as int);
        }
        let q1: u128 = rne_u128(id as u128, s, false);
        let p53: u128 = pow2u(53);
        if q1 == p53 {
            m = pow2u(52);
            e = (s as i64) + 1;
        } else {
            m = q1;
            e = s as i64;
        }
    }
    proof {
        assert(m == to_double(id).m);
        assert(e as int == to_double(id).e);
        assert(pow2(52) <= m < pow2(53));
        assert(-52 <= e <= 12);
    }
    // division by 1e15
    let p54: u128 = pow2u(54);
    proof {
        lemma_pow2_adds(53, 54);
        lemma_pow2_adds(64, 43);
        lemma_mul_strict_inequality(m as int, pow2(53) as int, pow2(54) as int);
    }
    let n: u128 = m * p54;
    let q0: u128 = n / TEN15_MANTISSA;
    let sticky: bool = (n % TEN15_MANTISSA) != 0;
    proof {
        lemma_pow2_adds(52, 54);
        lemma_mul_inequality(pow2(52) as int, m as int, pow2(54) as int);
        lemma_div_is_ordered_by_denominator(n as int, TEN15_MANTISSA as int, pow2(53) as int);
        lemma_div_is_ordered(pow2(106) as int, n as int, pow2(53) as int);
        lemma_pow2_adds(53, 53);
        lemma_div_multiples_vanish(pow2(53) as int, pow2(53) as int);
        assert(q0 >= pow2(53));
        lemma_pow2_adds(55, 52);
        lemma_mul_strict_inequality(pow2(52) as int, TEN15_MANTISSA as int, pow2(55) as int);
        lemma_multiply_divide_lt(n as int, TEN15_MANTISSA as int, pow2(55) as int);
        assert(q0 < pow2(55));
        lemma_bit_len_ge(q0 as nat, 53);
        lemma_bit_len_le(q0 as nat, 55);
    }
    let l2: u32 = bit_len_u128(q0);
    let s2: u32 = l2 - 53;
    proof {
        assert(1 <= s2 <= 2);
        lemma_bit_len_bounds(q0 as nat);
        lemma_pow2_pos(s2 as nat);
        lemma_pow2_adds(52, s2 as nat);
        lemma_div_is_ordered(pow2((l2 - 1) as nat) as int, q0 as int, pow2(s2 as nat) as int);
        lemma_div_multiples_vanish(pow2(52) as int, pow2(s2 as nat) as int);
        lemma_pow2_adds(53, s2 as nat);
        lemma_multiply_divide_lt(q0 as int, pow2(s2 as nat) as int, pow2(53) as int);
    }
    let q1b: u128 = rne_u128(q0, s2, sticky);
    let p53b: u128 = pow2u(53);
    let m2: u128;
    let e2: i64;
    if q1b == p53b {
        m2 = pow2u(52);
        e2 = e - 51 + (s2 as i64) + 1;
    } else {
        m2 = q1b;
        e2 = e - 51 + (s2 as i64);
    }
    proof {
        assert(m2 == div_ten15(to_double(id)).m);
        assert(e2 as int == div_ten15(to_double(id)).e);
        assert(pow2(52) <= m2 < pow2(53));
        assert(-102 <= e2 <= -36);
    }
    // multiplication by pi
    proof {
        lemma_pow2_adds(52, 52);
        lemma_mul_strict_inequality(m2 as int, pow2(53) as int, PI_MANTISSA as int);
        lemma_mul_strict_inequality(PI_MANTISSA as int, pow2(53) as int, pow2(53) as int);
        lemma_mul_inequality(pow2(52) as int, m2 as int, PI_MANTISSA as int);
        lemma_mul_inequality(pow2(52) as int, PI_MANTISSA as int, pow2(52) as int);
    }
    let pm: u128 = m2 * PI_MANTISSA;
    proof {
        assert(pow2(104) <= pm < pow2(106)) by {
            assert(pm == m2 * PI_MANTISSA);
            assert(m2 * PI_MANTISSA < pow2(53) * PI_MANTISSA);
            assert(PI_MANTISSA * pow2(53) < pow2(53) * pow2(53));
            assert(pow2(52) * PI_MANTISSA <= m2 * PI_MANTISSA) by (nonlinear_arith)
                requires
                    pow2(52) <= m2,
                    PI_MANTISSA >= 0,
            ;
            assert(pow2(52) * pow2(52) <= pow2(52) * PI_MANTISSA);
        }
        lemma_bit_len_ge(pm as nat, 104);
        lemma_bit_len_le(pm as nat, 106);
    }
    let l3: u32 = bit_len_u128(pm);
    let s3: u32 = l3 - 53;
    proof {
        assert(52 <= s3 <= 53);
        lemma_bit_len_bounds(pm as nat);
        lemma_pow2_pos(s3 as nat);
        lemma_pow2_adds(52, s3 as nat);
        lemma_div_is_ordered(pow2((l3 - 1) as nat) as int, pm as int, pow2(s3 as nat) as int);
        lemma_div_multiples_vanish(pow2(52) as int, pow2(s3 as nat) as int);
        lemma_pow2_adds(53, s3 as nat);
        lemma_multiply_divide_lt(pm as int, pow2(s3 as nat) as int, pow2(53) as int);
    }
    let q1c: u128 = rne_u128(pm, s3, false);
    let p53c: u128 = pow2u(53);
    let m3: u128;
    let e3: i64;
    if q1c == p53c {
        m3 = pow2u(52);
        e3 = e2 - 51 + (s3 as i64) + 1;
    } else {
        m3 = q1c;
        e3 = e2 - 51 + (s3 as i64);
    }
    proof {
        assert(m3 == scaled(id).m);
        assert(e3 as int == scaled(id).e);
        assert(pow2(52) <= m3 < pow2(53));
        assert(-101 <= e3 <= -33);
    }
    // split into integer part and fraction
    let k0: u32 = (0 - e3) as u32;
    let pk0: u128 = pow2u(k0);
    let ip128: u128 = m3 / pk0;
    let mut fr: u128 = m3 % pk0;
    let mut kk: u32 = k0;
    proof {
        lemma_pow2_pos(k0 as nat);
        lemma_div_nonincreasing(m3 as int, pk0 as int);
        assert(fr < pow2(53)) by {
            if kk >= 53 {
                if kk > 53 {
                    lemma_pow2_strictly_increases(53, kk as nat);
                }
                lemma_small_mod(m3 as nat, pow2(kk as nat));
            } else {
                lemma_pow2_strictly_increases(kk as nat, 53);
            }
        }
    }
    let mut ii: u64 = ip128 as u64;
    let ghost i0: nat = ii as nat;
    let ghost f0: nat = fr as nat;
    let ghost kki: nat = kk as nat;
    let ghost fm = |d: u64| digit_char(d as nat);
    // integer-part digits, most significant first
    let mut digs: Vec<u64> = Vec::new();
    proof {
        assert(Seq::<u64>::empty().map_values(fm) =~= Seq::<char>::empty());
        assert(int_chars(i0) =~= int_chars(ii as nat) + digs@.map_values(fm));
    }
    while ii > 0
        invariant
            int_chars(i0) == int_chars(ii as nat) + digs@.map_values(fm),
            forall|q: int| 0 <= q < digs@.len() ==> #[trigger] digs@[q] < 36,
            fm == (|d: u64| digit_char(d as nat)),
        decreases ii,
    {
        let d: u64 = ii % 36;
        let ghost before = digs@;
        digs.insert(0, d);
        let ghost iold: nat = ii as nat;
        ii = ii / 36;
        proof {
            assert(int_chars(iold) == int_chars(iold / 36).push(digit_char(iold % 36)));
            assert(digs@ =~= seq![d] + before);
            assert(digs@.map_values(fm) =~= seq![digit_char(d as nat)] + before.map_values(fm));
            assert(int_chars(iold / 36).push(digit_char(iold % 36)) =~= int_chars(iold / 36)
                + seq![digit_char(iold % 36)]);
            assert(int_chars(ii as nat) + digs@.map_values(fm) =~= int_chars(iold)
                + before.map_values(fm));
        }
    }
    proof {
        assert(int_chars(0nat) =~= Seq::<char>::empty());
        assert(digs@.map_values(fm) =~= int_chars(i0));
    }
    // eight fractional digits
    let mut cnt: u32 = 0;
    proof {
        assert(digs@.map_values(fm) + frac_chars(fr as nat, kk as nat, 8) =~= int_chars(i0)
            + frac_chars(f0, kki, 8));
    }
    while cnt < 8
        invariant
            cnt <= 8,
            fr < pow2(53),
            fr < pow2(kk as nat),
            33 <= kk <= 101,
            digs@.map_values(fm) + frac_chars(fr as nat, kk as nat, (8 - cnt) as nat)
                == int_chars(i0) + frac_chars(f0, kki, 8),
            forall|q: int| 0 <= q < digs@.len() ==> #[trigger] digs@[q] < 36,
            fm == (|d: u64| digit_char(d as nat)),
        decreases 8 - cnt,
    {
        let ghost fro: nat = fr as nat;
        let ghost kko: nat = kk as nat;
        let ghost before = digs@;
        let st: (u64, u128, u32) = frac_step_exec(fr, kk);
        let d: u64 = st.0;
        fr = st.1;
        kk = st.2;
        digs.push(d);
        cnt = cnt + 1;
        proof {
            let c: nat = (8 - cnt + 1) as nat;
            assert(frac_chars(fro, kko, c) == seq![digit_char(frac_step(fro, kko).0)]
                + frac_chars(frac_step(fro, kko).1, frac_step(fro, kko).2, (c - 1) as nat));
            assert(digs@ =~= before.push(d));
            assert(digs@.map_values(fm) =~= before.map_values(fm) + seq![digit_char(d as nat)]);
            assert(digs@.map_values(fm) + frac_chars(fr as nat, kk as nat, (8 - cnt) as nat)
                =~= before.map_values(fm) + frac_chars(fro, kko, c));
        }
    }
    let r: String = digits_to_string(&digs);
    proof {
        assert(digs@.map_values(fm) == int_chars(i0) + frac_chars(f0, kki, 8));
        assert(r@ == token_spec(id));
    }
    r
}

/// Token derivation is deterministic: the token is a function of the
/// identifier alone, so two derivations for the same identifier agree.
pub proof fn lemma_token_deterministic(id: u64, a: Seq<char>, b: Seq<char>)
    requires
        a == token_spec(id),
        b == token_spec(id),
    ensures
        a == b,
{
}

} // verus!
