use vstd::prelude::*;
use crate::adpcm::wrap16;
use crate::bytes::{
    as_signed32, le_u32, read_to_i16, read_to_i32, read_to_u32, i16_at, i32_at, u32_at,
};

verus! {

/// `2` to the power `n`.
pub open spec fn two_pow(n: nat) -> nat
    decreases n,
{
    if n == 0 {
        1
    } else {
        2 * two_pow((n - 1) as nat)
    }
}

/// An int16 sample widened to int32: shifted left by 9 bits.
pub open spec fn i16_to_i32_sample(x: int) -> int {
    x * 512
}

/// An int32 sample narrowed to int16: arithmetically shifted right by 9 bits, low 16 bits kept.
pub open spec fn i32_to_i16_sample(x: int) -> int {
    wrap16(x / 512)
}

/// Two's complement reading of a byte.
pub open spec fn as_signed8(b: u8) -> int {
    if b >= 128 {
        b - 256
    } else {
        b as int
    }
}

/// An int8 sample widened to int32: shifted left by 17 bits.
pub open spec fn i8_to_i32_sample(b: u8) -> int {
    as_signed8(b) * 131072
}

/// Biased exponent field of an IEEE-754 single-precision bit pattern.
pub open spec fn f32_exp(bits: u32) -> int {
    (bits / 8388608) as int % 256
}

/// Fraction field of an IEEE-754 single-precision bit pattern.
pub open spec fn f32_frac(bits: u32) -> int {
    bits as int % 8388608
}

/// Significand of a finite single-precision value, hidden bit included.
pub open spec fn f32_mant(bits: u32) -> int {
    if f32_exp(bits) == 0 {
        f32_frac(bits)
    } else {
        f32_frac(bits) + 8388608
    }
}

/// The power of two that scales the significand to `value * 2^24`: the value of a
/// finite bit pattern times `2^24` is `mant * 2^shift`.
pub open spec fn q24_shift(bits: u32) -> int {
    if f32_exp(bits) == 0 {
        -125
    } else {
        f32_exp(bits) - 126
    }
}

/// `|value| * 2^24` rounded toward zero, for a finite bit pattern.
pub open spec fn q24_magnitude(bits: u32) -> int {
    if q24_shift(bits) >= 0 {
        f32_mant(bits) * two_pow(q24_shift(bits) as nat)
    } else {
        f32_mant(bits) / (two_pow((-q24_shift(bits)) as nat) as int)
    }
}

/// A float sample as Q24 fixed point: scaled by `2^24`, rounded toward zero and
/// saturated to the int32 range; NaN gives 0.
pub open spec fn f32_to_q24(bits: u32) -> int {
    let negative = bits >= 2147483648;
    if f32_exp(bits) == 255 && f32_frac(bits) != 0 {
        0
    } else if f32_exp(bits) == 255 {
        if negative {
            -2147483648
        } else {
            2147483647
        }
    } else if negative {
        if q24_magnitude(bits) > 2147483648 {
            -2147483648
        } else {
            -q24_magnitude(bits)
        }
    } else {
        if q24_magnitude(bits) > 2147483647 {
            2147483647
        } else {
            q24_magnitude(bits)
        }
    }
}

/// Number of binary digits of `n`.
pub open spec fn bit_len(n: nat) -> nat
    decreases n,
{
    if n == 0 {
        0
    } else {
        1 + bit_len(n / 2)
    }
}

/// `n / d` rounded to the nearest integer, ties to the even one.
pub open spec fn div_round_even(n: nat, d: nat) -> nat {
    let q = n / d;
    let r = n % d;
    if 2 * r > d || (2 * r == d && q % 2 == 1) {
        q + 1
    } else {
        q
    }
}

/// `n` rounded to 24 significant bits, nearest first and ties to even, as float32
/// arithmetic rounds: the rounded value is `significand * 2^shift`, given as
/// `(significand, shift)`.
pub open spec fn round_to_24_bits(n: nat) -> (nat, nat) {
    if bit_len(n) <= 24 {
        (n, 0)
    } else {
        let s = (bit_len(n) - 24) as nat;
        (div_round_even(n, two_pow(s)), s)
    }
}

/// A float sample as int16: the float32 product with 32767, rounded as float32
/// multiplication rounds, then rounded toward zero and saturated to the int16 range;
/// NaN gives 0. For a finite value below 2 in magnitude, the product is
/// `mant * 32767 * 2^(e - 150)` with `e` the exponent field (at least 1).
pub open spec fn f32_to_i16_scaled(bits: u32) -> int {
    let negative = bits >= 2147483648;
    if f32_exp(bits) == 255 && f32_frac(bits) != 0 {
        0
    } else if f32_exp(bits) >= 128 {
        if negative {
            -32768
        } else {
            32767
        }
    } else {
        let rounded = round_to_24_bits((f32_mant(bits) * 32767) as nat);
        let e = if f32_exp(bits) == 0 {
            1
        } else {
            f32_exp(bits)
        };
        let magnitude = (rounded.0 as int) / (two_pow((150 - e - rounded.1) as nat) as int);
        if negative {
            if magnitude > 32768 {
                -32768
            } else {
                -magnitude
            }
        } else {
            if magnitude > 32767 {
                32767
            } else {
                magnitude
            }
        }
    }
}

/// Little-endian float32 samples in `raw` scaled to int16 samples.
pub open spec fn f32_bytes_to_i16(raw: Seq<u8>) -> Seq<i16> {
    Seq::new(raw.len() / 4, |i: int| f32_to_i16_scaled(u32_at(raw, 4 * i) as u32) as i16)
}

/// Little-endian float32 samples in `raw` as Q24 int32 samples.
pub open spec fn f32_bytes_to_i32(raw: Seq<u8>) -> Seq<i32> {
    Seq::new(raw.len() / 4, |i: int| f32_to_q24(u32_at(raw, 4 * i) as u32) as i32)
}

/// Little-endian int32 samples in `raw` narrowed to int16.
pub open spec fn i32_bytes_to_i16(raw: Seq<u8>) -> Seq<i16> {
    Seq::new(raw.len() / 4, |i: int| i32_to_i16_sample(i32_at(raw, 4 * i)) as i16)
}

/// Little-endian int16 samples in `raw` widened to int32.
pub open spec fn i16_bytes_to_i32(raw: Seq<u8>) -> Seq<i32> {
    Seq::new(raw.len() / 2, |i: int| i16_to_i32_sample(i16_at(raw, 2 * i)) as i32)
}

/// int8 samples in `raw` widened to int32.
pub open spec fn i8_bytes_to_i32(raw: Seq<u8>) -> Seq<i32> {
    Seq::new(raw.len(), |i: int| i8_to_i32_sample(raw[i]) as i32)
}

fn pow2_u64(n: u64) -> (r: u64)
    requires
        n <= 40,
    ensures
        r == two_pow(n as nat),
{
    let mut r: u64 = 1;
    let mut i: u64 = 0;
    while i < n
        invariant
            i <= n <= 40,
            r == two_pow(i as nat),
        decreases n - i,
    {
        proof {
            lemma_two_pow_mono(i as nat, 40);
            lemma_two_pow_values();
        }
        r = r * 2;
        i = i + 1;
    }
    r
}

proof fn lemma_two_pow_values()
    ensures
        two_pow(7) == 128,
        two_pow(8) == 256,
        two_pow(9) == 512,
        two_pow(24) == 16777216,
        two_pow(30) == 1073741824,
        two_pow(39) == 549755813888,
        two_pow(40) == 1099511627776,
{
    reveal_with_fuel(two_pow, 41);
}

proof fn lemma_two_pow_mono(a: nat, b: nat)
    requires
        a <= b,
    ensures
        1 <= two_pow(a) <= two_pow(b),
    decreases b,
{
    if a < b {
        lemma_two_pow_mono(a, (b - 1) as nat);
    } else {
        lemma_two_pow_pos(a);
    }
}

proof fn lemma_two_pow_pos(n: nat)
    ensures
        two_pow(n) >= 1,
    decreases n,
{
    if n > 0 {
        lemma_two_pow_pos((n - 1) as nat);
    }
}

/// Q24 value of the float32 with bit pattern `bits`.
fn f32_bits_to_q24(bits: u32) -> (r: i32)
    ensures
        r == f32_to_q24(bits),
{
    let exp = (bits / 8388608) % 256;
    let frac = bits % 8388608;
    let negative = bits >= 2147483648;
    if exp == 255 {
        if frac != 0 {
            return 0;
        } else if negative {
            return -2147483648;
        } else {
            return 2147483647;
        }
    }
    let mant: u32 = if exp == 0 {
        frac
    } else {
        frac + 8388608
    };
    assert(mant == f32_mant(bits));
    proof {
        lemma_two_pow_values();
    }
    // `magnitude` is `q24_magnitude(bits)`, or 2^31 where that is larger still
    let magnitude: u32 = if exp >= 134 {
        proof {
            lemma_two_pow_mono(8, (exp - 126) as nat);
            assert(mant * two_pow((exp - 126) as nat) >= 8388608 * 256) by (nonlinear_arith)
                requires
                    mant >= 8388608,
                    two_pow((exp - 126) as nat) >= 256,
            ;
        }
        2147483648
    } else if exp >= 126 {
        proof {
            lemma_two_pow_mono((exp - 126) as nat, 7);
        }
        let f = pow2_u64((exp - 126) as u64) as u32;
        proof {
            assert(mant * f < 16777216 * 128) by (nonlinear_arith)
                requires
                    mant < 16777216,
                    f <= 128,
            ;
        }
        mant * f
    } else {
        let s: u32 = if exp == 0 {
            125
        } else {
            126 - exp
        };
        assert(s == -q24_shift(bits));
        if s >= 25 {
            proof {
                lemma_two_pow_mono(24, s as nat);
                assert((mant as int) / (two_pow(s as nat) as int) == 0) by (nonlinear_arith)
                    requires
                        0 <= mant < two_pow(s as nat),
                ;
            }
            0
        } else {
            proof {
                lemma_two_pow_mono(0, s as nat);
                lemma_two_pow_mono(s as nat, 24);
            }
            let f = pow2_u64(s as u64) as u32;
            mant / f
        }
    };
    assert(exp >= 134 ==> q24_magnitude(bits) >= 2147483648);
    assert(exp < 134 ==> magnitude == q24_magnitude(bits));
    if negative {
        if magnitude >= 2147483648 {
            -2147483648
        } else {
            -(magnitude as i32)
        }
    } else {
        if magnitude > 2147483647 {
            2147483647
        } else {
            magnitude as i32
        }
    }
}

/// Reads little-endian float32 samples and writes them as Q24 int32 samples (scaled by
/// `2^24`, rounded toward zero, saturated). `out_buf` is resized to one slot per sample.
pub fn convert_f_to_i32(in_buf: &Vec<u8>, out_buf: &mut Vec<i32>)
    requires
        in_buf.len() % 4 == 0,
    ensures
        final(out_buf)@ == f32_bytes_to_i32(in_buf@),
{
    let n = in_buf.len() / 4;
    if out_buf.len() != n {
        out_buf.resize(n, 0);
    }
    let mut i: usize = 0;
    while i < n
        invariant
            n == in_buf.len() / 4,
            out_buf.len() == n,
            i <= n,
            forall|j: int| 0 <= j < i ==> out_buf@[j] == #[trigger] f32_bytes_to_i32(in_buf@)[j],
        decreases n - i,
    {
        let bits = read_to_u32(in_buf, 4 * i);
        out_buf.set(i, f32_bits_to_q24(bits));
        i = i + 1;
    }
    assert(out_buf@ =~= f32_bytes_to_i32(in_buf@));
}

proof fn lemma_bit_len_bound(n: nat, k: nat)
    requires
        n < two_pow(k),
    ensures
        bit_len(n) <= k,
    decreases k,
{
    if n > 0 {
        lemma_two_pow_pos(k);
        if k == 0 {
            assert(false);
        } else {
            lemma_bit_len_bound(n / 2, (k - 1) as nat);
        }
    }
}

/// The binary digits of `n`, counted.
fn bit_length(n: u64) -> (r: u64)
    requires
        n < 549755813888,
    ensures
        r == bit_len(n as nat),
        r <= 39,
{
    proof {
        lemma_two_pow_values();
        lemma_bit_len_bound(n as nat, 39);
    }
    let mut t = n;
    let mut l: u64 = 0;
    while t > 0
        invariant
            bit_len(n as nat) == l + bit_len(t as nat),
            bit_len(n as nat) <= 39,
        decreases t,
    {
        t = t / 2;
        l = l + 1;
    }
    l
}

/// The float32 with bit pattern `bits` times 32767, as `(x * 32767.0) as i16` gives it.
fn f32_bits_to_i16(bits: u32) -> (r: i16)
    ensures
        r == f32_to_i16_scaled(bits),
{
    let exp = (bits / 8388608) % 256;
    let frac = bits % 8388608;
    let negative = bits >= 2147483648;
    if exp == 255 && frac != 0 {
        return 0;
    }
    if exp >= 128 {
        return if negative {
            -32768
        } else {
            32767
        };
    }
    let mant: u64 = if exp == 0 {
        frac as u64
    } else {
        frac as u64 + 8388608
    };
    assert(mant == f32_mant(bits));
    let n: u64 = mant * 32767;
    let len = bit_length(n);
    let ghost rounded = round_to_24_bits(n as nat);
    let (sig, shift): (u64, u64) = if len <= 24 {
        (n, 0)
    } else {
        let s = len - 24;
        let d = pow2_u64(s);
        proof {
            lemma_two_pow_mono(0, s as nat);
            lemma_two_pow_mono(s as nat, 39);
            lemma_two_pow_values();
        }
        let q = n / d;
        let rem = n % d;
        assert(q <= n) by (nonlinear_arith)
            requires
                d >= 1,
                q == n / d,
        ;
        if 2 * rem > d || (2 * rem == d && q % 2 == 1) {
            (q + 1, s)
        } else {
            (q, s)
        }
    };
    assert(sig == rounded.0 && shift == rounded.1);
    let e: u64 = if exp == 0 {
        1
    } else {
        exp as u64
    };
    let down = 150 - e - shift;
    let magnitude: u64 = if down >= 40 {
        proof {
            lemma_two_pow_values();
            lemma_two_pow_mono(40, down as nat);
            assert((sig as int) / (two_pow(down as nat) as int) == 0) by (nonlinear_arith)
                requires
                    0 <= sig < two_pow(down as nat),
            ;
        }
        0
    } else {
        proof {
            lemma_two_pow_mono(0, down as nat);
        }
        sig / pow2_u64(down)
    };
    if negative {
        if magnitude > 32768 {
            -32768
        } else {
            -(magnitude as i32) as i16
        }
    } else {
        if magnitude > 32767 {
            32767
        } else {
            magnitude as i16
        }
    }
}

/// Reads little-endian float32 samples and writes them as int16 samples (scaled by
/// 32767, rounded toward zero, saturated). `out_buf` is resized to one slot per sample.
pub fn convert_f_to_i16(in_buf: &Vec<u8>, out_buf: &mut Vec<i16>)
    requires
        in_buf.len() % 4 == 0,
    ensures
        final(out_buf)@ == f32_bytes_to_i16(in_buf@),
{
    let n = in_buf.len() / 4;
    if out_buf.len() != n {
        out_buf.resize(n, 0);
    }
    let mut i: usize = 0;
    while i < n
        invariant
            n == in_buf.len() / 4,
            out_buf.len() == n,
            i <= n,
            forall|j: int| 0 <= j < i ==> out_buf@[j] == #[trigger] f32_bytes_to_i16(in_buf@)[j],
        decreases n - i,
    {
        let bits = read_to_u32(in_buf, 4 * i);
        out_buf.set(i, f32_bits_to_i16(bits));
        i = i + 1;
    }
    assert(out_buf@ =~= f32_bytes_to_i16(in_buf@));
}

/// Reads little-endian int32 samples and writes them as int16 samples (arithmetic shift
/// right by 9). `out_buf` is resized to one slot per sample.
pub fn convert_i32_to_i16(in_buf: &Vec<u8>, out_buf: &mut Vec<i16>)
    requires
        in_buf.len() % 4 == 0,
    ensures
        final(out_buf)@ == i32_bytes_to_i16(in_buf@),
{
    let n = in_buf.len() / 4;
    if out_buf.len() != n {
        out_buf.resize(n, 0);
    }
    let mut i: usize = 0;
    while i < n
        invariant
            n == in_buf.len() / 4,
            out_buf.len() == n,
            i <= n,
            forall|j: int| 0 <= j < i ==> out_buf@[j] == #[trigger] i32_bytes_to_i16(in_buf@)[j],
        decreases n - i,
    {
        let v = read_to_i32(in_buf, 4 * i);
        out_buf.set(i, shift_down_9(v));
        i = i + 1;
    }
    assert(out_buf@ =~= i32_bytes_to_i16(in_buf@));
}

/// `x >> 9`, keeping the low 16 bits.
fn shift_down_9(x: i32) -> (r: i16)
    ensures
        r == i32_to_i16_sample(x as int),
{
    // floor division by 512, as an arithmetic shift does
    let q: i32 = if x >= 0 {
        x / 512
    } else {
        -((-(x as i64) + 511) / 512) as i32
    };
    assert(q == x / 512);
    let t: i32 = (q + 4227072) % 65536 - 32768;
    assert(t == wrap16(q as int));
    t as i16
}

/// Reads little-endian int16 samples and writes them as int32 samples (shift left by 9).
/// `out_buf` is resized to one slot per sample; slots are filled from the last one down.
pub fn convert_i16_to_i32(in_buf: &Vec<u8>, out_buf: &mut Vec<i32>)
    requires
        in_buf.len() % 2 == 0,
    ensures
        final(out_buf)@ == i16_bytes_to_i32(in_buf@),
{
    let n = in_buf.len() / 2;
    if out_buf.len() != n {
        out_buf.resize(n, 0);
    }
    let mut i: usize = n;
    while i > 0
        invariant
            n == in_buf.len() / 2,
            out_buf.len() == n,
            i <= n,
            forall|j: int| i <= j < n ==> out_buf@[j] == #[trigger] i16_bytes_to_i32(in_buf@)[j],
        decreases i,
    {
        i = i - 1;
        let v = read_to_i16(in_buf, 2 * i);
        out_buf.set(i, v as i32 * 512);
    }
    assert(out_buf@ =~= i16_bytes_to_i32(in_buf@));
}

/// Reads int8 samples and writes them as int32 samples (shift left by 17).
/// `out_buf` is resized to one slot per sample; slots are filled from the last one down.
pub fn convert_i8_to_i32(in_buf: &Vec<u8>, out_buf: &mut Vec<i32>)
    ensures
        final(out_buf)@ == i8_bytes_to_i32(in_buf@),
{
    let n = in_buf.len();
    if out_buf.len() != n {
        out_buf.resize(n, 0);
    }
    let mut i: usize = n;
    while i > 0
        invariant
            n == in_buf.len(),
            out_buf.len() == n,
            i <= n,
            forall|j: int| i <= j < n ==> out_buf@[j] == #[trigger] i8_bytes_to_i32(in_buf@)[j],
        decreases i,
    {
        i = i - 1;
        let b = in_buf[i];
        let v: i32 = if b >= 128 {
            b as i32 - 256
        } else {
            b as i32
        };
        out_buf.set(i, v * 131072);
    }
    assert(out_buf@ =~= i8_bytes_to_i32(in_buf@));
}

/// Widening an int16 sample to int32 and narrowing it back gives the sample again.
pub proof fn i16_i32_round_trip(x: i16)
    ensures
        i32_to_i16_sample(i16_to_i32_sample(x as int)) == x,
{
    assert((x * 512) / 512 == x as int);
}

/// Whether a float32 bit pattern is a value in `[-1, 1]`.
pub open spec fn f32_in_unit_range(bits: u32) -> bool {
    f32_exp(bits) < 127 || (f32_exp(bits) == 127 && f32_frac(bits) == 0)
}

/// For a float32 in `[-1, 1]`, its Q24 form `q` lies within one unit of `value * 2^24`
/// (so `q / 2^24` is within `2^-24` of the value), on the same side of zero, and
/// `|q| <= 2^24`, so `q / 2^24` is itself a float32. Here `value * 2^24` is
/// `±mant * 2^shift`.
pub proof fn q24_round_trip_error(bits: u32)
    requires
        f32_in_unit_range(bits),
    ensures
        ({
            let q = f32_to_q24(bits);
            let m = f32_mant(bits);
            let s = q24_shift(bits);
            let mag = if bits >= 2147483648 {
                -q
            } else {
                q
            };
            &&& -16777216 <= q <= 16777216
            &&& s >= 0 ==> mag == m * two_pow(s as nat)
            &&& s < 0 ==> 0 <= m - mag * two_pow((-s) as nat) < two_pow((-s) as nat)
        }),
{
    lemma_two_pow_values();
    let m = f32_mant(bits);
    let s = q24_shift(bits);
    assert(0 <= m < 16777216);
    if s >= 0 {
        if f32_exp(bits) == 127 {
            assert(two_pow(1) == 2) by {
                reveal_with_fuel(two_pow, 2);
            }
            assert(s == 1);
            assert(m == 8388608);
        } else {
            assert(s == 0);
        }
    } else {
        let d = two_pow((-s) as nat) as int;
        lemma_two_pow_mono(0, (-s) as nat);
        assert(q24_magnitude(bits) == m / d);
        assert(0 <= m - (m / d) * d < d) by (nonlinear_arith)
            requires
                d >= 1,
                m >= 0,
        ;
        assert(m / d <= m) by (nonlinear_arith)
            requires
                d >= 1,
                m >= 0,
        ;
    }
}

/// Byte `k` (0 for the lowest) of an int32 value in two's complement.
pub open spec fn i32_byte(x: int, k: int) -> u8 {
    let u = if x < 0 {
        x + 4294967296
    } else {
        x
    };
    (if k == 0 {
        u % 256
    } else if k == 1 {
        (u / 256) % 256
    } else if k == 2 {
        (u / 65536) % 256
    } else {
        u / 16777216
    }) as u8
}

/// int32 samples as little-endian bytes, four per sample.
pub open spec fn i32_samples_to_bytes(xs: Seq<i32>) -> Seq<u8> {
    Seq::new(4 * xs.len(), |j: int| i32_byte(xs[j / 4] as int, j % 4))
}

/// The little-endian int16 samples in `raw`.
pub open spec fn i16_samples(raw: Seq<u8>) -> Seq<i16> {
    Seq::new(raw.len() / 2, |i: int| i16_at(raw, 2 * i) as i16)
}

proof fn lemma_i32_bytes_read_back(x: i32)
    ensures
        as_signed32(
            le_u32(i32_byte(x as int, 0), i32_byte(x as int, 1), i32_byte(x as int, 2), i32_byte(x as int, 3)),
        ) == x,
{
    let u: int = if x < 0 {
        x + 4294967296
    } else {
        x as int
    };
    assert(0 <= u < 4294967296);
    let b0 = u % 256;
    let b1 = (u / 256) % 256;
    let b2 = (u / 65536) % 256;
    let b3 = u / 16777216;
    assert(b0 + 256 * b1 + 65536 * b2 + 16777216 * b3 == u) by (nonlinear_arith)
        requires
            0 <= u,
            b0 == u % 256,
            b1 == (u / 256) % 256,
            b2 == (u / 65536) % 256,
            b3 == u / 16777216,
    ;
    assert(0 <= b3 < 256);
}

/// Widening little-endian int16 samples to int32, writing those as little-endian bytes
/// and narrowing them back gives the int16 samples again, in the same order.
pub proof fn i16_i32_round_trip_bytes(raw: Seq<u8>)
    requires
        raw.len() % 2 == 0,
    ensures
        i32_bytes_to_i16(i32_samples_to_bytes(i16_bytes_to_i32(raw))) == i16_samples(raw),
{
    let mid = i16_bytes_to_i32(raw);
    let bytes = i32_samples_to_bytes(mid);
    assert forall|i: int| 0 <= i < raw.len() / 2 implies #[trigger] i32_bytes_to_i16(bytes)[i]
        == i16_samples(raw)[i] by {
        let x = mid[i];
        lemma_i32_bytes_read_back(x);
        assert((4 * i) / 4 == i && (4 * i + 1) / 4 == i && (4 * i + 2) / 4 == i && (4 * i + 3)
            / 4 == i);
        assert((4 * i) % 4 == 0 && (4 * i + 1) % 4 == 1 && (4 * i + 2) % 4 == 2 && (4 * i + 3)
            % 4 == 3);
        assert(i32_at(bytes, 4 * i) == x);
        let v = i16_at(raw, 2 * i);
        assert(-32768 <= v < 32768);
        i16_i32_round_trip(v as i16);
    }
    assert(i32_bytes_to_i16(bytes) =~= i16_samples(raw));
}

} // verus!
