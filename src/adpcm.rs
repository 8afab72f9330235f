use vstd::prelude::*;
use crate::bytes::{read_to_i16, i16_at};
use crate::error::AdpcmError;

verus! {

/// Bytes in one channel's ADPCM block.
pub const BYTES_PER_BLOCK_DEFAULT: usize = 24;

/// Samples that one 24-byte channel block decodes to.
pub const SAMPLES_PER_BLOCK: usize = 36;

/// First prediction coefficient of predictor `p` (fixed point, 256 is 1.0).
pub open spec fn spec_coef1(p: int) -> int {
    if p == 0 {
        256
    } else if p == 1 {
        512
    } else if p == 2 {
        0
    } else if p == 3 {
        192
    } else if p == 4 {
        240
    } else if p == 5 {
        460
    } else {
        392
    }
}

/// Second prediction coefficient of predictor `p` (fixed point, 256 is 1.0).
pub open spec fn spec_coef2(p: int) -> int {
    if p == 0 {
        0
    } else if p == 1 {
        -256
    } else if p == 2 {
        0
    } else if p == 3 {
        64
    } else if p == 4 {
        0
    } else if p == 5 {
        -208
    } else {
        -232
    }
}

/// Step-size adaption factor for error code `n` (fixed point, 256 is 1.0).
pub open spec fn spec_adaption(n: int) -> int {
    if n <= 3 {
        230
    } else if n == 4 {
        307
    } else if n == 5 {
        409
    } else if n == 6 {
        512
    } else if n == 7 {
        614
    } else if n == 8 {
        768
    } else if n == 9 {
        614
    } else if n == 10 {
        512
    } else if n == 11 {
        409
    } else if n == 12 {
        307
    } else {
        230
    }
}

/// Division rounding toward zero, as Rust's `/` on signed integers.
pub open spec fn trunc_div(a: int, d: int) -> int {
    if a >= 0 {
        a / d
    } else {
        -((-a) / d)
    }
}

/// `x` held to the signed 16-bit range.
pub open spec fn clamp16(x: int) -> int {
    if x < -32768 {
        -32768
    } else if x > 32767 {
        32767
    } else {
        x
    }
}

/// The low 16 bits of `x` read as a two's complement value.
pub open spec fn wrap16(x: int) -> int {
    (x + 32768) % 65536 - 32768
}

/// Signed error code carried by nibble `n`.
pub open spec fn error_code(n: int) -> int {
    if n >= 8 {
        n - 16
    } else {
        n
    }
}

/// The `k`-th error nibble of a block: low nibble of a byte first.
pub open spec fn nibble_at(block: Seq<u8>, k: int) -> int {
    let b = block[7 + k / 2] as int;
    if k % 2 == 0 {
        b % 16
    } else {
        b / 16
    }
}

/// Sample predicted from the two previous ones and corrected by nibble `n`.
pub open spec fn predict(s1: int, s2: int, p: int, delta: int, n: int) -> int {
    clamp16(trunc_div(s1 * spec_coef1(p) + s2 * spec_coef2(p), 256) + delta * error_code(n))
}

/// Step size after nibble `n`: scaled by the adaption table, never below 16.
pub open spec fn next_delta(delta: int, n: int) -> int {
    let d = wrap16(trunc_div(delta * spec_adaption(n), 256));
    if d < 16 {
        16
    } else {
        d
    }
}

/// Decoder state `(sample1, sample2, delta)` after the first `k` nibbles of a block.
pub open spec fn state_after(block: Seq<u8>, k: nat) -> (int, int, int)
    decreases k,
{
    if k == 0 {
        (i16_at(block, 5), i16_at(block, 3), i16_at(block, 1))
    } else {
        let prev = state_after(block, (k - 1) as nat);
        let n = nibble_at(block, k - 1);
        (predict(prev.0, prev.1, block[0] as int, prev.2, n), prev.0, next_delta(prev.2, n))
    }
}

/// Sample `j` of a decoded block: the two history samples, then one per nibble.
pub open spec fn block_sample(block: Seq<u8>, j: int) -> int {
    if j == 0 {
        i16_at(block, 3)
    } else if j == 1 {
        i16_at(block, 5)
    } else {
        state_after(block, (j - 1) as nat).0
    }
}

/// Number of samples that a block of `n` bytes decodes to.
pub open spec fn block_sample_count(n: int) -> int {
    2 * n - 12
}

/// The samples that one channel block decodes to.
pub open spec fn decoded_block(block: Seq<u8>) -> Seq<i16> {
    Seq::new(block_sample_count(block.len() as int) as nat, |j: int| block_sample(block, j) as i16)
}

/// Whether position `i` is the `k`-th slot, for some `k < count`, of a strided run from `start`.
pub open spec fn in_slots(i: int, start: int, stride: int, count: int) -> bool {
    i >= start && (i - start) % stride == 0 && (i - start) / stride < count
}

/// `old` with `vals[k]` written at `start + stride * k` for each `k`.
pub open spec fn scatter(old: Seq<i16>, start: int, stride: int, vals: Seq<i16>) -> Seq<i16> {
    Seq::new(
        old.len(),
        |i: int|
            if in_slots(i, start, stride, vals.len() as int) {
                vals[(i - start) / stride]
            } else {
                old[i]
            },
    )
}

proof fn lemma_slot(i: int, start: int, stride: int, k: int)
    requires
        stride == 1 || stride == 2,
        i >= start,
        k >= 0,
    ensures
        ((i - start) % stride == 0 && (i - start) / stride == k) <==> i == start + stride * k,
{
    if stride == 1 {
    } else {
        assert(((i - start) % 2 == 0 && (i - start) / 2 == k) <==> i == start + 2 * k);
    }
}

/// Writing the next value of a strided run extends the scattered sequence by one slot.
proof fn lemma_scatter_push(old: Seq<i16>, start: int, stride: int, vals: Seq<i16>, k: int)
    requires
        stride == 1 || stride == 2,
        start >= 0,
        0 <= k < vals.len(),
        start + stride * k < old.len(),
    ensures
        scatter(old, start, stride, vals.take(k + 1)) =~= scatter(
            old,
            start,
            stride,
            vals.take(k),
        ).update(start + stride * k, vals[k]),
{
    let p = start + stride * k;
    assert forall|i: int| 0 <= i < old.len() implies #[trigger] scatter(
        old,
        start,
        stride,
        vals.take(k + 1),
    )[i] == scatter(old, start, stride, vals.take(k)).update(p, vals[k])[i] by {
        if i >= start {
            lemma_slot(i, start, stride, k);
            if stride == 1 {
            } else {
                assert((i - start) / 2 >= 0);
            }
        }
    }
}

fn coefs(p: u8) -> (r: (i32, i32))
    requires
        p < 7,
    ensures
        r.0 == spec_coef1(p as int),
        r.1 == spec_coef2(p as int),
{
    match p {
        0 => (256, 0),
        1 => (512, -256),
        2 => (0, 0),
        3 => (192, 64),
        4 => (240, 0),
        5 => (460, -208),
        _ => (392, -232),
    }
}

fn adaption(n: u8) -> (r: i32)
    requires
        n < 16,
    ensures
        r == spec_adaption(n as int),
{
    match n {
        0 | 1 | 2 | 3 => 230,
        4 => 307,
        5 => 409,
        6 => 512,
        7 => 614,
        8 => 768,
        9 => 614,
        10 => 512,
        11 => 409,
        12 => 307,
        _ => 230,
    }
}

fn div256(a: i32) -> (r: i32)
    ensures
        r == trunc_div(a as int, 256),
        -8388608 <= r <= 8388608,
{
    if a >= 0 {
        a / 256
    } else {
        -((-(a as i64)) / 256) as i32
    }
}

/// Clamps `value` to `[min, max]`.
fn clamp(value: i32, min: i32, max: i32) -> (r: i32)
    requires
        min <= max,
    ensures
        r == (if value < min {
            min
        } else if value > max {
            max
        } else {
            value
        }),
{
    if value < min {
        min
    } else if value > max {
        max
    } else {
        value
    }
}

/// Decodes one nibble: returns the new sample and the new step size, both 16-bit.
fn step(samp1: i16, samp2: i16, delta: i16, predictor: u8, nibble: u8) -> (r: (i16, i16))
    requires
        predictor < 7,
        nibble < 16,
    ensures
        r.0 == predict(samp1 as int, samp2 as int, predictor as int, delta as int, nibble as int),
        r.1 == next_delta(delta as int, nibble as int),
{
    let (coef1, coef2) = coefs(predictor);
    let mut pred_samp = div256(samp1 as i32 * coef1 + samp2 as i32 * coef2);
    let err: i32 = if nibble & 8 != 0 {
        assert(nibble & 8 != 0 ==> nibble >= 8) by (bit_vector)
            requires
                nibble < 16,
        ;
        nibble as i32 - 16
    } else {
        assert(nibble & 8 == 0 ==> nibble < 8) by (bit_vector)
            requires
                nibble < 16,
        ;
        nibble as i32
    };
    assert(-524288 <= delta * err <= 524288) by (nonlinear_arith)
        requires
            -32768 <= delta <= 32767,
            -16 <= err < 16,
    ;
    pred_samp = pred_samp + delta as i32 * err;
    let new_samp = clamp(pred_samp, -32768, 32767);
    let scaled = div256(delta as i32 * adaption(nibble));
    // the step size is kept in 16 bits: the low 16 bits of the scaled value
    let wrapped = if scaled > 32767 {
        scaled - 65536
    } else if scaled < -32768 {
        scaled + 65536
    } else {
        scaled
    };
    assert(wrapped == wrap16(scaled as int));
    let new_delta = if wrapped < 16 {
        16
    } else {
        wrapped
    };
    (new_samp as i16, new_delta as i16)
}

/// Writes `v`, the `j`-th value of a strided run, to its slot.
fn emit(
    out_buf: &mut Vec<i16>,
    old_out: Ghost<Seq<i16>>,
    out_start: usize,
    stride: usize,
    vals: Ghost<Seq<i16>>,
    j: usize,
    v: i16,
)
    requires
        stride == 1 || stride == 2,
        j < vals@.len(),
        vals@[j as int] == v,
        out_start + stride * (vals@.len() - 1) < old(out_buf).len(),
        old(out_buf)@ == scatter(old_out@, out_start as int, stride as int, vals@.take(j as int)),
    ensures
        final(out_buf)@ == scatter(old_out@, out_start as int, stride as int, vals@.take(j + 1)),
{
    assert(stride * j <= stride * (vals@.len() - 1)) by (nonlinear_arith)
        requires
            stride >= 1,
            j <= vals@.len() - 1,
    ;
    out_buf.set(out_start + stride * j, v);
    proof {
        lemma_scatter_push(old_out@, out_start as int, stride as int, vals@, j as int);
    }
}

/// Decoding a 24-byte block yields 36 samples that depend on the block's bytes alone:
/// two decodes of the same bytes, into any two 36-sample buffers, give the same samples.
pub proof fn block_decode_is_deterministic(block: Seq<u8>, out1: Seq<i16>, out2: Seq<i16>)
    requires
        block.len() == BYTES_PER_BLOCK_DEFAULT,
        out1.len() == SAMPLES_PER_BLOCK,
        out2.len() == SAMPLES_PER_BLOCK,
    ensures
        decoded_block(block).len() == SAMPLES_PER_BLOCK,
        scatter(out1, 0, 1, decoded_block(block)) == decoded_block(block),
        scatter(out2, 0, 1, decoded_block(block)) == decoded_block(block),
{
    assert(scatter(out1, 0, 1, decoded_block(block)) =~= decoded_block(block));
    assert(scatter(out2, 0, 1, decoded_block(block)) =~= decoded_block(block));
}

/// The first two samples of a decoded block are its two history samples, sample 2 then
/// sample 1, whatever the nibbles that follow.
pub proof fn block_starts_with_history(block: Seq<u8>)
    requires
        block.len() >= 7,
    ensures
        decoded_block(block)[0] == i16_at(block, 3),
        decoded_block(block)[1] == i16_at(block, 5),
{
}

/// Scratch state of the ADPCM decoder: the raw bytes of one block per channel.
pub struct AdpcmCore {
    pub(crate) bytes_per_block: usize,
    pub(crate) buf: Vec<u8>,
}

impl AdpcmCore {
    /// Decodes the `input_byte`-byte channel block that starts at `in_start` in `in_buf`,
    /// writing sample `k` to `out_buf[out_start + output_stride * k]`.
    pub fn dec_core(
        in_buf: &Vec<u8>,
        in_start: usize,
        input_byte: usize,
        out_buf: &mut Vec<i16>,
        out_start: usize,
        output_stride: u8,
    ) -> (r: Result<usize, AdpcmError>)
        requires
            in_start + input_byte <= in_buf.len(),
            input_byte >= 7 && (output_stride == 1 || output_stride == 2) ==> out_start
                + output_stride * (2 * input_byte - 13) < old(out_buf).len(),
        ensures
            ({
                let block = in_buf@.subrange(in_start as int, in_start + input_byte);
                let stride_ok = output_stride == 1 || output_stride == 2;
                &&& (r == Err::<usize, AdpcmError>(AdpcmError::InvalidStride)) == !stride_ok
                &&& (r == Err::<usize, AdpcmError>(AdpcmError::NoEnoughInputBytes)) == (stride_ok
                    && input_byte < 7)
                &&& (r == Err::<usize, AdpcmError>(AdpcmError::InvalidPredictor)) == (stride_ok
                    && input_byte >= 7 && block[0] >= 7)
                &&& r is Ok <==> (stride_ok && input_byte >= 7 && block[0] < 7)
                &&& r is Err ==> final(out_buf)@ == old(out_buf)@
                &&& r is Ok ==> r == Ok::<usize, AdpcmError>((2 * input_byte - 12) as usize)
                    && final(out_buf)@ == scatter(
                    old(out_buf)@,
                    out_start as int,
                    output_stride as int,
                    decoded_block(block),
                )
            }),
    {
        if !(output_stride == 1 || output_stride == 2) {
            return Err(AdpcmError::InvalidStride);
        } else if input_byte < 7 {
            return Err(AdpcmError::NoEnoughInputBytes);
        }
        let ghost block = in_buf@.subrange(in_start as int, in_start + input_byte);
        let ghost decoded = decoded_block(block);
        let ghost old_out = out_buf@;
        let predictor = in_buf[in_start];
        if predictor >= 7 {
            return Err(AdpcmError::InvalidPredictor);
        }
        let stride = output_stride as usize;
        assert(2 * input_byte - 13 <= stride * (2 * input_byte - 13)) by (nonlinear_arith)
            requires
                stride >= 1,
                input_byte >= 7,
        ;
        let mut delta = read_to_i16(in_buf, in_start + 1);
        let mut samp2 = read_to_i16(in_buf, in_start + 3);
        let mut samp1 = read_to_i16(in_buf, in_start + 5);
        assert(delta == i16_at(block, 1));
        assert(samp2 == i16_at(block, 3));
        assert(samp1 == i16_at(block, 5));

        out_buf.set(out_start, samp2);
        proof {
            assert(decoded.take(0) =~= Seq::<i16>::empty());
            assert(scatter(old_out, out_start as int, stride as int, decoded.take(0)) =~= old_out);
            lemma_scatter_push(old_out, out_start as int, stride as int, decoded, 0);
        }
        out_buf.set(out_start + stride, samp1);
        proof {
            lemma_scatter_push(old_out, out_start as int, stride as int, decoded, 1);
        }

        let mut input_index: usize = 7;
        let mut k: usize = 0;
        while input_index < input_byte
            invariant
                in_start + input_byte <= in_buf.len(),
                block == in_buf@.subrange(in_start as int, in_start + input_byte),
                decoded == decoded_block(block),
                decoded.len() == 2 * input_byte - 12,
                stride == 1 || stride == 2,
                out_start + stride * (2 * input_byte - 13) < out_buf.len(),
                2 * input_byte - 13 < out_buf.len(),
                predictor == block[0],
                predictor < 7,
                7 <= input_index <= input_byte,
                k == 2 * (input_index - 7),
                state_after(block, k as nat) == (samp1 as int, samp2 as int, delta as int),
                out_buf@ == scatter(old_out, out_start as int, stride as int, decoded.take(k + 2)),
            decreases input_byte - input_index,
        {
            let byte = in_buf[in_start + input_index];
            assert(byte == block[7 + k / 2]);
            let low = byte & 15;
            let high = byte >> 4;
            assert(byte & 15 == byte % 16 && byte >> 4 == byte / 16) by (bit_vector);
            assert(nibble_at(block, k as int) == low);
            assert(nibble_at(block, k + 1) == high);

            let (new_low, delta_low) = step(samp1, samp2, delta, predictor, low);
            assert(decoded[k + 2] == new_low);
            emit(out_buf, Ghost(old_out), out_start, stride, Ghost(decoded), k + 2, new_low);
            samp2 = samp1;
            samp1 = new_low;
            delta = delta_low;

            let (new_high, delta_high) = step(samp1, samp2, delta, predictor, high);
            assert(decoded[k + 3] == new_high);
            emit(out_buf, Ghost(old_out), out_start, stride, Ghost(decoded), k + 3, new_high);
            samp2 = samp1;
            samp1 = new_high;
            delta = delta_high;

            input_index = input_index + 1;
            k = k + 2;
        }
        assert(decoded.take(k + 2) =~= decoded);
        let out_len = out_buf.len();
        assert(2 * input_byte - 12 <= out_len);
        Ok((input_byte - 6) + (input_byte - 6))
    }
}

} // verus!
