use crate::utils::text_eq;
use vstd::prelude::*;

verus! {

// Folding the integer intrinsics `@popCount`, `@clz`, `@ctz`, `@intCast`
// and `@bswap` in constant expressions, given the value of the argument and
// the width in bits (and signedness) of the type they work at.

pub open spec fn two_pow(n: nat) -> nat
    decreases n,
{
    if n == 0 {
        1
    } else {
        2 * two_pow((n - 1) as nat)
    }
}

/// The low `w` bits of `v` (two's complement for a negative `v`).
pub open spec fn low_bits(v: int, w: nat) -> nat {
    (v % (two_pow(w) as int)) as nat
}

/// Number of one bits.
pub open spec fn ones(u: nat) -> nat
    decreases u,
{
    if u == 0 {
        0
    } else {
        u % 2 + ones(u / 2)
    }
}

/// Number of bits up to the highest one bit.
pub open spec fn bit_len(u: nat) -> nat
    decreases u,
{
    if u == 0 {
        0
    } else {
        1 + bit_len(u / 2)
    }
}

/// Number of zero bits below the lowest one bit (of a non-zero value).
pub open spec fn trailing(u: nat) -> nat
    decreases u,
{
    if u == 0 || u % 2 == 1 {
        0
    } else {
        1 + trailing(u / 2)
    }
}

/// The `n` low bytes of `x` appended, lowest first, below `acc`.
pub open spec fn bytes_into(x: nat, n: nat, acc: nat) -> nat
    decreases n,
{
    if n == 0 {
        acc
    } else {
        bytes_into(x / 256, (n - 1) as nat, acc * 256 + x % 256)
    }
}

/// The `n` low bytes of `u` in reverse order.
pub open spec fn reverse_bytes(u: nat, n: nat) -> nat {
    bytes_into(u, n, 0)
}

/// A 128-bit pattern read as a signed integer.
pub open spec fn as_signed128(u: nat) -> int {
    if u < two_pow(127) {
        u as int
    } else {
        u - two_pow(128)
    }
}

/// The intrinsics this folds.
#[derive(Debug, Clone, Copy, PartialEq, Eq, Structural)]
pub enum IntIntrinsic {
    PopCount,
    Clz,
    Ctz,
    IntCast,
    Bswap,
}

/// The value of the intrinsic applied to `v` at a type `w` bits wide.
pub open spec fn fold_spec(kind: IntIntrinsic, v: int, w: nat, signed: bool) -> int {
    let u = low_bits(v, w);
    match kind {
        IntIntrinsic::PopCount => ones(u) as int,
        IntIntrinsic::Clz => w - bit_len(u),
        IntIntrinsic::Ctz => if u == 0 {
            w as int
        } else {
            trailing(u) as int
        },
        IntIntrinsic::IntCast => if signed && w < 128 && u >= two_pow((w - 1) as nat) {
            u - two_pow(w)
        } else {
            as_signed128(u)
        },
        IntIntrinsic::Bswap => if w == 16 || w == 32 || w == 64 || w == 128 {
            as_signed128(reverse_bytes(u, w / 8))
        } else {
            u as int
        },
    }
}

/// The intrinsic that `name` spells, if it is one of these.
pub open spec fn int_intrinsic_named(name: Seq<char>) -> Option<IntIntrinsic> {
    if name == "@popCount"@ {
        Some(IntIntrinsic::PopCount)
    } else if name == "@clz"@ {
        Some(IntIntrinsic::Clz)
    } else if name == "@ctz"@ {
        Some(IntIntrinsic::Ctz)
    } else if name == "@intCast"@ {
        Some(IntIntrinsic::IntCast)
    } else if name == "@bswap"@ {
        Some(IntIntrinsic::Bswap)
    } else {
        None
    }
}

/// The integer intrinsic that `name` spells, if any.
pub fn int_intrinsic(name: &str) -> (r: Option<IntIntrinsic>)
    ensures
        r == int_intrinsic_named(name@),
{
    if text_eq(name, "@popCount") {
        Some(IntIntrinsic::PopCount)
    } else if text_eq(name, "@clz") {
        Some(IntIntrinsic::Clz)
    } else if text_eq(name, "@ctz") {
        Some(IntIntrinsic::Ctz)
    } else if text_eq(name, "@intCast") {
        Some(IntIntrinsic::IntCast)
    } else if text_eq(name, "@bswap") {
        Some(IntIntrinsic::Bswap)
    } else {
        None
    }
}

proof fn lemma_two_pow_128()
    ensures
        two_pow(128) == 0x1_0000_0000_0000_0000_0000_0000_0000_0000,
        two_pow(127) == 0x8000_0000_0000_0000_0000_0000_0000_0000,
{
    lemma_two_pow_8();
    lemma_two_pow_mul(8, 8);
    assert(two_pow(16) == 65536);
    lemma_two_pow_mul(16, 16);
    assert(two_pow(32) == 0x1_0000_0000);
    lemma_two_pow_mul(32, 32);
    assert(two_pow(64) == 0x1_0000_0000_0000_0000);
    lemma_two_pow_mul(64, 64);
    assert(two_pow(128) == 0x1_0000_0000_0000_0000_0000_0000_0000_0000);
    assert(two_pow(128) == 2 * two_pow(127));
}

proof fn lemma_two_pow_8()
    ensures
        two_pow(8) == 256,
{
    reveal_with_fuel(two_pow, 9);
}

proof fn lemma_two_pow_grows(a: nat, b: nat)
    requires
        a <= b,
    ensures
        1 <= two_pow(a) <= two_pow(b),
    decreases b,
{
    if a < b {
        lemma_two_pow_grows(a, (b - 1) as nat);
    } else if b > 0 {
        lemma_two_pow_grows(0, (b - 1) as nat);
    }
}

/// `2^w` for `w` below 128.
fn two_pow_u128(w: u32) -> (p: u128)
    requires
        w < 128,
    ensures
        p == two_pow(w as nat),
{
    let mut p: u128 = 1;
    let mut i: u32 = 0;
    while i < w
        invariant
            0 <= i <= w < 128,
            p == two_pow(i as nat),
        decreases w - i,
    {
        proof {
            lemma_two_pow_grows(i as nat + 1, 127);
            lemma_two_pow_128();
        }
        p = p * 2;
        i = i + 1;
    }
    p
}

/// The low `w` bits of `v`.
fn low_bits_of(v: i128, w: u32) -> (u: u128)
    requires
        w <= 128,
    ensures
        u == low_bits(v as int, w as nat),
        u < two_pow(w as nat),
{
    proof {
        lemma_two_pow_128();
    }
    if w == 128 {
        if v >= 0 {
            v as u128
        } else {
            let k = (-(v + 1)) as u128;
            u128::MAX - k
        }
    } else {
        let p = two_pow_u128(w);
        proof {
            lemma_two_pow_grows(w as nat, 127);
        }
        if v >= 0 {
            let u = (v as u128) % p;
            u
        } else {
            let k = (-(v + 1)) as u128;
            let m = k % p;
            let u = p - 1 - m;
            proof {
                let kk = k as int;
                let pp = p as int;
                assert((-1 - kk) % pp == pp - 1 - kk % pp) by (nonlinear_arith)
                    requires
                        pp > 0,
                        kk >= 0,
                {
                    assert(kk == pp * (kk / pp) + kk % pp);
                    assert(-1 - kk == pp * (-(kk / pp) - 1) + (pp - 1 - kk % pp));
                    assert(0 <= pp - 1 - kk % pp < pp);
                    vstd::arithmetic::div_mod::lemma_fundamental_div_mod_converse(
                        -1 - kk,
                        pp,
                        -(kk / pp) - 1,
                        pp - 1 - kk % pp,
                    );
                }
            }
            u
        }
    }
}

/// Number of one bits of `u`.
fn count_ones(u: u128) -> (c: u32)
    ensures
        c == ones(u as nat),
{
    proof {
        lemma_two_pow_128();
        lemma_bit_len_bound(u as nat, 128);
    }
    let mut x = u;
    let mut c: u32 = 0;
    while x > 0
        invariant
            c + ones(x as nat) == ones(u as nat),
            c + bit_len(x as nat) <= 128,
        decreases x,
    {
        proof {
            lemma_ones_le_len(x as nat);
        }
        c = c + (x % 2) as u32;
        x = x / 2;
    }
    c
}

proof fn lemma_ones_le_len(u: nat)
    ensures
        ones(u) <= bit_len(u),
    decreases u,
{
    if u > 0 {
        lemma_ones_le_len(u / 2);
    }
}

proof fn lemma_bit_len_bound(u: nat, w: nat)
    requires
        u < two_pow(w),
    ensures
        bit_len(u) <= w,
    decreases w,
{
    if u > 0 && w > 0 {
        lemma_bit_len_bound(u / 2, (w - 1) as nat);
    }
}

/// Number of bits of `u` up to its highest one bit.
fn bit_length(u: u128) -> (n: u32)
    ensures
        n == bit_len(u as nat),
        n <= 128,
{
    proof {
        lemma_two_pow_128();
        lemma_bit_len_bound(u as nat, 128);
    }
    let mut x = u;
    let mut n: u32 = 0;
    while x > 0
        invariant
            n + bit_len(x as nat) == bit_len(u as nat),
            bit_len(u as nat) <= 128,
        decreases x,
    {
        n = n + 1;
        x = x / 2;
    }
    n
}

/// Number of zero bits below the lowest one bit of a non-zero `u`.
fn trailing_zero_bits(u: u128) -> (n: u32)
    requires
        u > 0,
    ensures
        n == trailing(u as nat),
{
    proof {
        lemma_trailing_le_len(u as nat);
        lemma_two_pow_128();
        lemma_bit_len_bound(u as nat, 128);
    }
    let mut x = u;
    let mut n: u32 = 0;
    while x % 2 == 0
        invariant
            x > 0,
            n + trailing(x as nat) == trailing(u as nat),
            trailing(u as nat) <= 128,
        decreases x,
    {
        n = n + 1;
        x = x / 2;
    }
    n
}

proof fn lemma_trailing_le_len(u: nat)
    ensures
        trailing(u) <= bit_len(u),
    decreases u,
{
    if u > 0 && u % 2 == 0 {
        lemma_trailing_le_len(u / 2);
    }
}

proof fn lemma_two_pow_mul(a: nat, b: nat)
    ensures
        two_pow(a + b) == two_pow(a) * two_pow(b),
    decreases a,
{
    if a > 0 {
        lemma_two_pow_mul((a - 1) as nat, b);
        let x = two_pow((a - 1) as nat);
        let y = two_pow(b);
        assert((a - 1) as nat + b == (a + b - 1) as nat);
        assert(two_pow(a + b) == 2 * two_pow((a + b - 1) as nat));
        assert(two_pow(a) == 2 * x);
        assert(2 * (x * y) == (2 * x) * y) by (nonlinear_arith);
    } else {
        assert(a + b == b);
        assert(two_pow(a) == 1);
    }
}

/// The `n` low bytes of `u` in reverse order, `n` at most 16.
fn reversed_bytes(u: u128, n: u32) -> (r: u128)
    requires
        n <= 16,
    ensures
        r == reverse_bytes(u as nat, n as nat),
{
    let mut x = u;
    let mut acc: u128 = 0;
    let mut k: u32 = 0;
    proof {
        lemma_two_pow_128();
        assert(two_pow(0) == 1);
    }
    while k < n
        invariant
            0 <= k <= n <= 16,
            bytes_into(x as nat, (n - k) as nat, acc as nat) == reverse_bytes(u as nat, n as nat),
            acc < two_pow(8 * k as nat),
            two_pow(128) == 0x1_0000_0000_0000_0000_0000_0000_0000_0000,
        decreases n - k,
    {
        proof {
            lemma_two_pow_mul(8 * k as nat, 8);
            lemma_two_pow_8();
            lemma_two_pow_grows(8 * (k + 1) as nat, 128);
            assert(8 * k + 8 == 8 * (k + 1));
            assert(acc * 256 + 255 < two_pow(8 * (k + 1) as nat)) by (nonlinear_arith)
                requires
                    acc < two_pow(8 * k as nat),
                    two_pow(8 * (k + 1) as nat) == two_pow(8 * k as nat) * 256,
            ;
        }
        acc = acc * 256 + x % 256;
        x = x / 256;
        k = k + 1;
    }
    acc
}

/// `u` read as a signed 128-bit integer.
fn signed128(u: u128) -> (v: i128)
    ensures
        v == as_signed128(u as nat),
{
    proof {
        lemma_two_pow_128();
    }
    if u < 0x8000_0000_0000_0000_0000_0000_0000_0000 {
        u as i128
    } else {
        let d = (u128::MAX - u) as i128;
        -d - 1
    }
}

/// The value of the integer intrinsic `kind` applied to the constant `v`
/// at a type `bit_width` bits wide (and signed where `is_signed`). The
/// argument is first cut to that width; `@intCast` then sign-extends a
/// signed result, and `@bswap` reverses the bytes of 16, 32, 64 and 128
/// bit values.
pub fn fold_int_intrinsic(kind: IntIntrinsic, v: i128, bit_width: u32, is_signed: bool) -> (r: i128)
    requires
        bit_width <= 128,
        kind == IntIntrinsic::IntCast && is_signed && bit_width < 128 ==> bit_width >= 1,
    ensures
        r == fold_spec(kind, v as int, bit_width as nat, is_signed),
{
    let u = low_bits_of(v, bit_width);
    proof {
        lemma_two_pow_128();
        lemma_two_pow_grows(bit_width as nat, 128);
    }
    match kind {
        IntIntrinsic::PopCount => count_ones(u) as i128,
        IntIntrinsic::Clz => {
            proof {
                lemma_bit_len_bound(u as nat, bit_width as nat);
            }
            let n = bit_length(u);
            (bit_width - n) as i128
        },
        IntIntrinsic::Ctz => if u == 0 {
            bit_width as i128
        } else {
            proof {
                lemma_trailing_le_len(u as nat);
                lemma_bit_len_bound(u as nat, bit_width as nat);
            }
            trailing_zero_bits(u) as i128
        },
        IntIntrinsic::IntCast => {
            if is_signed && bit_width < 128 {
                let half = two_pow_u128(bit_width - 1);
                if u >= half {
                    let p = two_pow_u128(bit_width);
                    proof {
                        lemma_two_pow_grows(bit_width as nat, 127);
                    }
                    let d = (p - u) as i128;
                    return -d;
                }
            }
            signed128(u)
        },
        IntIntrinsic::Bswap => if bit_width == 16 || bit_width == 32 || bit_width == 64 || bit_width == 128 {
            let rev = reversed_bytes(u, bit_width / 8);
            signed128(rev)
        } else {
            proof {
                lemma_two_pow_grows(bit_width as nat, 127);
            }
            signed128(u)
        },
    }
}

proof fn lemma_power_of_two_bits(k: nat)
    ensures
        ones(two_pow(k)) == 1,
        bit_len(two_pow(k)) == k + 1,
        trailing(two_pow(k)) == k,
        two_pow(k) > 0,
    decreases k,
{
    if k > 0 {
        lemma_power_of_two_bits((k - 1) as nat);
        let p = two_pow((k - 1) as nat);
        assert(two_pow(k) == 2 * p);
        assert((2 * p) / 2 == p);
        assert((2 * p) % 2 == 0);
    } else {
        assert(two_pow(0) == 1);
        assert(ones(0) == 0);
        assert(bit_len(0) == 0);
    }
}

proof fn lemma_small_low_bits(u: int, w: nat)
    requires
        0 <= u < two_pow(w),
    ensures
        low_bits(u, w) == u,
{
    lemma_two_pow_grows(0, w);
    vstd::arithmetic::div_mod::lemma_small_mod(u as nat, two_pow(w));
}

proof fn lemma_ones_complement(u: nat, w: nat)
    requires
        u < two_pow(w),
    ensures
        ones(u) + ones((two_pow(w) - 1 - u) as nat) == w,
    decreases w,
{
    lemma_two_pow_grows(0, w);
    if w == 0 {
        assert(u == 0);
        assert(ones(0) == 0);
    } else {
        let h = two_pow((w - 1) as nat);
        assert(two_pow(w) == 2 * h);
        let c = (two_pow(w) - 1 - u) as nat;
        assert(u / 2 < h);
        assert(c / 2 == h - 1 - u / 2);
        assert(c % 2 == 1 - u % 2);
        lemma_ones_complement(u / 2, (w - 1) as nat);
        if u > 0 {
            assert(ones(u) == u % 2 + ones(u / 2));
        } else {
            assert(ones(0) == 0);
            assert(ones(u / 2) == 0);
        }
        if c > 0 {
            assert(ones(c) == c % 2 + ones(c / 2));
        } else {
            assert(ones(0) == 0);
            assert(ones(c / 2) == 0);
        }
    }
}

/// `@popCount`, `@clz` and `@ctz` count bits of the argument cut to the
/// width `w`: zero has no one bits, `w` leading and `w` trailing zeros;
/// the power of two `2^k` (for `k` below `w`) has one one bit, `w - 1 - k`
/// leading zeros and `k` trailing zeros; and a value and its complement
/// `-1 - v` have `w` one bits between them.
pub proof fn law_bit_counts(w: nat, k: nat, v: int)
    requires
        1 <= w <= 128,
        k < w,
    ensures
        fold_spec(IntIntrinsic::PopCount, 0, w, false) == 0,
        fold_spec(IntIntrinsic::Clz, 0, w, false) == w,
        fold_spec(IntIntrinsic::Ctz, 0, w, false) == w,
        fold_spec(IntIntrinsic::PopCount, two_pow(k) as int, w, false) == 1,
        fold_spec(IntIntrinsic::Clz, two_pow(k) as int, w, false) == w - 1 - k,
        fold_spec(IntIntrinsic::Ctz, two_pow(k) as int, w, false) == k,
        fold_spec(IntIntrinsic::PopCount, v, w, false) + fold_spec(IntIntrinsic::PopCount, -1 - v, w, false) == w,
{
    lemma_two_pow_grows(0, w);
    lemma_two_pow_grows(k + 1, w);
    assert(two_pow(k + 1) == 2 * two_pow(k));
    lemma_small_low_bits(0, w);
    lemma_small_low_bits(two_pow(k) as int, w);
    lemma_power_of_two_bits(k);
    assert(ones(0) == 0 && bit_len(0) == 0);
    let m = two_pow(w) as int;
    let u = low_bits(v, w);
    let c = low_bits(-1 - v, w);
    assert(0 <= u < m);
    assert(c == m - 1 - u) by {
        let q = v / m;
        vstd::arithmetic::div_mod::lemma_fundamental_div_mod(v, m);
        assert(v == m * q + v % m);
        assert(-1 - v == (-q - 1) * m + (m - 1 - u)) by (nonlinear_arith)
            requires
                v == m * q + v % m,
                u == v % m,
        ;
        vstd::arithmetic::div_mod::lemma_fundamental_div_mod_converse(-1 - v, m, -q - 1, m - 1 - u);
    }
    lemma_ones_complement(u, w);
}

/// `@intCast` to a type of `w` bits (below 128) keeps the value modulo
/// `2^w` and lands in the type's range: `[0, 2^w)` for an unsigned type,
/// `[-2^(w-1), 2^(w-1))` for a signed one.
pub proof fn law_int_cast_wraps_into_range(v: int, w: nat, signed: bool)
    requires
        1 <= w < 128,
    ensures
        ({
            let r = fold_spec(IntIntrinsic::IntCast, v, w, signed);
            &&& (r - v) % (two_pow(w) as int) == 0
            &&& !signed ==> 0 <= r < two_pow(w)
            &&& signed ==> -(two_pow((w - 1) as nat) as int) <= r < two_pow((w - 1) as nat)
        }),
{
    let m = two_pow(w) as int;
    let h = two_pow((w - 1) as nat) as int;
    lemma_two_pow_grows(0, (w - 1) as nat);
    assert(m == 2 * h);
    lemma_two_pow_grows(w, 127);
    lemma_two_pow_128();
    let u = low_bits(v, w) as int;
    let q = v / m;
    vstd::arithmetic::div_mod::lemma_fundamental_div_mod(v, m);
    assert(v == m * q + u);
    assert(u - v == (-q) * m + 0) by (nonlinear_arith)
        requires
            v == m * q + u,
    ;
    vstd::arithmetic::div_mod::lemma_fundamental_div_mod_converse(u - v, m, -q, 0);
    assert(u - m - v == (-q - 1) * m + 0) by (nonlinear_arith)
        requires
            v == m * q + u,
    ;
    vstd::arithmetic::div_mod::lemma_fundamental_div_mod_converse(u - m - v, m, -q - 1, 0);
    assert(u < two_pow(127));
}

proof fn lemma_zero_bytes(n: nat, acc: nat)
    ensures
        bytes_into(0, n, acc) == acc * two_pow(8 * n),
    decreases n,
{
    if n == 0 {
        assert(two_pow(0) == 1);
        assert(acc * 1 == acc);
    } else {
        let m = (n - 1) as nat;
        assert(0nat / 256 == 0 && 0nat % 256 == 0);
        assert(bytes_into(0, n, acc) == bytes_into(0, m, acc * 256));
        lemma_zero_bytes(m, acc * 256);
        lemma_two_pow_8();
        lemma_two_pow_mul(8, 8 * m);
        assert(8 + 8 * m == 8 * n);
        let p = two_pow(8 * m);
        assert(two_pow(8 * n) == 256 * p);
        assert((acc * 256) * p == acc * (256 * p)) by (nonlinear_arith);
    }
}

/// `@bswap` reverses the order of the bytes: a value held in the lowest
/// byte of a 16-, 32- or 64-bit type moves to its highest byte.
pub proof fn law_bswap_moves_low_byte_to_top(b: nat, w: nat)
    requires
        b < 256,
        w == 16 || w == 32 || w == 64,
    ensures
        fold_spec(IntIntrinsic::Bswap, b as int, w, false) == b * two_pow((w - 8) as nat),
{
    lemma_two_pow_8();
    lemma_two_pow_grows(8, w);
    lemma_small_low_bits(b as int, w);
    let n = w / 8;
    assert(n >= 2);
    assert(b / 256 == 0 && b % 256 == b);
    assert(bytes_into(b, n, 0) == bytes_into(0, (n - 1) as nat, b));
    lemma_zero_bytes((n - 1) as nat, b);
    assert(8 * (n - 1) as nat == (w - 8) as nat);
    lemma_two_pow_grows((w - 8) as nat, 56);
    lemma_two_pow_mul(8, 56);
    lemma_two_pow_128();
    lemma_two_pow_grows(64, 127);
    let p = two_pow((w - 8) as nat);
    assert(b * p <= 255 * two_pow(56)) by (nonlinear_arith)
        requires
            b <= 255,
            p <= two_pow(56),
    ;
}

} // verus!
