use vstd::prelude::*;
use crate::adpcm::{decoded_block, scatter, AdpcmCore, BYTES_PER_BLOCK_DEFAULT, SAMPLES_PER_BLOCK};
use crate::audio_util::{
    convert_f_to_i32, convert_i16_to_i32, convert_i8_to_i32, f32_bytes_to_i32, i16_bytes_to_i32,
    i8_bytes_to_i32,
};
use crate::decoder::DecoderType;
use crate::error::CksError;
use crate::file_header::{header_of, FileHeader, HEADER_BYTES};
use crate::reader::ByteReader;
use crate::sample_info::{sample_info_of, SampleInfo, SAMPLE_INFO_BYTES};
use crate::FormatType;

verus! {

/// Offset of the first sample block: the header and the sample-info record come first.
pub const FRAME_STARTS: u64 = 44;

/// What a decoder engine holds, seen as values.
pub struct CoreView {
    /// The whole stream.
    pub data: Seq<u8>,
    /// The read position; it may lie past the end after a seek.
    pub pos: int,
    /// Offset of the first sample block.
    pub frame_starts: int,
    pub info: SampleInfo,
}

/// Bytes per sample of a PCM format (0 for the others).
pub open spec fn sample_width(f: DecoderType) -> int {
    match f {
        DecoderType::Pcmi8 => 1,
        DecoderType::Pcmi16 => 2,
        DecoderType::Pcmf32 => 4,
        _ => 0,
    }
}

/// Whether raw samples of format `f` can be decoded into an int32 buffer.
pub open spec fn is_pcm(f: DecoderType) -> bool {
    f == DecoderType::Pcmi8 || f == DecoderType::Pcmi16 || f == DecoderType::Pcmf32
}

/// The int32 samples of raw PCM bytes of format `f`.
pub open spec fn int32_samples(f: DecoderType, raw: Seq<u8>) -> Seq<i32> {
    match f {
        DecoderType::Pcmi8 => i8_bytes_to_i32(raw),
        DecoderType::Pcmi16 => i16_bytes_to_i32(raw),
        _ => f32_bytes_to_i32(raw),
    }
}

/// Bytes that a PCM decode of `blocks` blocks consumes: the blocks asked for, clamped
/// to what is left of the stream.
pub open spec fn pcm_read_len(v: CoreView, blocks: int) -> int {
    let wanted = blocks * v.info.block_bytes;
    let left = v.data.len() - v.pos;
    if wanted <= left {
        wanted
    } else {
        left
    }
}

/// The samples that a PCM decode of `blocks` blocks yields: every whole sample of the
/// bytes it consumes.
pub open spec fn pcm_output(v: CoreView, blocks: int) -> Seq<i32> {
    let n = pcm_read_len(v, blocks);
    let whole = n - n % sample_width(v.info.format);
    int32_samples(v.info.format, v.data.subrange(v.pos, v.pos + whole))
}

/// Bytes of one ADPCM block over all channels.
pub open spec fn adpcm_block_len(channels: int) -> int {
    BYTES_PER_BLOCK_DEFAULT * channels
}

/// Two channels merged sample by sample, left first.
pub open spec fn interleave(l: Seq<i16>, r: Seq<i16>) -> Seq<i16> {
    Seq::new(
        l.len() + r.len(),
        |i: int|
            if i % 2 == 0 {
                l[i / 2]
            } else {
                r[i / 2]
            },
    )
}

/// Whether every channel block of an ADPCM block names a known predictor.
pub open spec fn adpcm_predictors_valid(chunk: Seq<u8>, channels: int) -> bool {
    chunk[0] < 7 && (channels == 2 ==> chunk[24] < 7)
}

/// The interleaved samples of an ADPCM block of one or two channels.
pub open spec fn adpcm_output(chunk: Seq<u8>, channels: int) -> Seq<i16> {
    if channels == 1 {
        decoded_block(chunk)
    } else {
        interleave(
            decoded_block(chunk.subrange(0, 24)),
            decoded_block(chunk.subrange(24, 48)),
        )
    }
}

/// `vals` written over the start of `old`: as long as the longer of the two, with the
/// slots past `vals` kept from `old`.
pub open spec fn overlay(old: Seq<i16>, vals: Seq<i16>) -> Seq<i16> {
    Seq::new(
        if old.len() > vals.len() {
            old.len()
        } else {
            vals.len()
        },
        |i: int|
            if i < vals.len() {
                vals[i]
            } else {
                old[i]
            },
    )
}

/// What an ADPCM decode does, from the engine's view `v` and the output samples
/// `out` before the call to `w` and `new_out` after it, returning `r`: it decodes one
/// block of every channel into the first slots of the buffer (growing it only when it
/// is shorter), skips a truncated last block, and rejects a channel count other than 1
/// or 2 or an unknown predictor.
pub open spec fn adpcm_decode_post(
    v: CoreView,
    out: Seq<i16>,
    w: CoreView,
    new_out: Seq<i16>,
    r: Option<int>,
) -> bool {
    let ch = v.info.channels as int;
    let need = adpcm_block_len(ch);
    let left = v.data.len() - v.pos;
    &&& same_stream(w, v)
    &&& if left <= 0 || !(ch == 1 || ch == 2) {
        r is None && w.pos == v.pos && new_out == out
    } else if left < need {
        r is None && w.pos == v.data.len() && new_out == out
    } else {
        let chunk = v.data.subrange(v.pos, v.pos + need);
        &&& w.pos == v.pos + need
        &&& if adpcm_predictors_valid(chunk, ch) {
            r == Some(SAMPLES_PER_BLOCK * ch) && new_out == overlay(out, adpcm_output(chunk, ch))
        } else {
            r is None && new_out == out
        }
    }
}

/// What a decode of `blocks` blocks does, from view `v` and buffer `buf` before the call
/// to view `w` and buffer `new_buf` after it, returning `r`.
pub open spec fn decode_post(
    v: CoreView,
    buf: FormatType,
    blocks: int,
    w: CoreView,
    new_buf: FormatType,
    r: Option<u64>,
) -> bool {
    let f = v.info.format;
    let adpcm = f == DecoderType::Adpcm && buf is Int16;
    let pcm = is_pcm(f) && buf is Int32;
    &&& same_stream(w, v)
    &&& v.pos >= v.data.len() ==> r is None && w == v && new_buf == buf
    &&& v.pos < v.data.len() && adpcm ==> new_buf is Int16 && adpcm_decode_post(
        v,
        buf->Int16_0@,
        w,
        new_buf->Int16_0@,
        match r {
            Some(k) => Some(k as int),
            None => None,
        },
    )
    &&& v.pos < v.data.len() && pcm ==> ({
        let n = pcm_read_len(v, blocks);
        &&& n == 0 ==> r is None && w == v && new_buf == buf
        &&& n > 0 ==> r == Some(n as u64) && w.pos == v.pos + n && new_buf is Int32
            && new_buf->Int32_0@ == pcm_output(v, blocks)
    })
    &&& v.pos < v.data.len() && !adpcm && !pcm ==> r is None && w == v && new_buf == buf
}

/// What an ADPCM decode does to the ADPCM decoder's state: for one or two channels the
/// state exists afterwards, at the end of the stream too, with 24-byte channel blocks
/// and a scratch buffer of one block per channel; otherwise it is left alone.
/// `v` is the engine's view before the decode, `before` and `after` the state.
pub open spec fn adpcm_state_post(
    v: CoreView,
    before: Option<(nat, nat)>,
    after: Option<(nat, nat)>,
) -> bool {
    let ch = v.info.channels as int;
    if ch == 1 || ch == 2 {
        after == Some((BYTES_PER_BLOCK_DEFAULT as nat, adpcm_block_len(ch) as nat))
    } else {
        after == before
    }
}

/// What a decode into `buf` does to the ADPCM decoder's state: an ADPCM decode into an
/// int16 buffer as `adpcm_state_post` says; any other leaves it alone.
pub open spec fn decode_state_post(
    v: CoreView,
    buf: FormatType,
    before: Option<(nat, nat)>,
    after: Option<(nat, nat)>,
) -> bool {
    if v.info.format == DecoderType::Adpcm && buf is Int16 {
        adpcm_state_post(v, before, after)
    } else {
        after == before
    }
}

/// Whether the views agree in all but the read position.
pub open spec fn same_stream(a: CoreView, b: CoreView) -> bool {
    a.data == b.data && a.frame_starts == b.frame_starts && a.info == b.info
}

/// Once the position has reached the end of the stream, a decode returns `None` and
/// changes nothing, so the engine stays at the end until a seek.
pub proof fn decode_at_end_is_none(
    v: CoreView,
    buf: FormatType,
    blocks: int,
    w: CoreView,
    new_buf: FormatType,
    r: Option<u64>,
)
    requires
        v.pos >= v.data.len(),
        decode_post(v, buf, blocks, w, new_buf, r),
    ensures
        r is None,
        w == v,
        new_buf == buf,
        w.pos >= w.data.len(),
{
}

/// A decode that starts before the end never moves backwards nor past the end; so the
/// end is reached exactly when the position becomes the stream's length.
pub proof fn decode_stays_within_stream(
    v: CoreView,
    buf: FormatType,
    blocks: int,
    w: CoreView,
    new_buf: FormatType,
    r: Option<u64>,
)
    requires
        blocks >= 0,
        v.pos < v.data.len(),
        decode_post(v, buf, blocks, w, new_buf, r),
    ensures
        v.pos <= w.pos <= w.data.len(),
        w.data == v.data,
{
    assert(v.info.block_bytes >= 0);
    assert(blocks * v.info.block_bytes >= 0) by (nonlinear_arith)
        requires
            blocks >= 0,
            v.info.block_bytes >= 0,
    ;
}

/// After a seek to a block at or past the end of the stream, a decode returns `None`.
pub proof fn seek_past_end_decodes_nothing(
    v: CoreView,
    frame: int,
    s: CoreView,
    buf: FormatType,
    blocks: int,
    w: CoreView,
    new_buf: FormatType,
    r: Option<u64>,
)
    requires
        same_stream(s, v),
        s.pos == v.frame_starts + frame * v.info.block_bytes,
        s.pos >= v.data.len(),
        decode_post(s, buf, blocks, w, new_buf, r),
    ensures
        r is None,
        w == s,
        new_buf == buf,
{
}

/// Read position after `i` one-block PCM decodes from the first block.
spec fn sequential_pos(v: CoreView, i: int) -> int {
    let p = v.frame_starts + i * v.info.block_bytes;
    if p <= v.data.len() {
        p
    } else {
        v.data.len() as int
    }
}

proof fn lemma_sequential_pos(
    views: Seq<CoreView>,
    bufs: Seq<FormatType>,
    rets: Seq<Option<u64>>,
    k: nat,
    i: nat,
)
    requires
        i <= k,
        views.len() == k + 2,
        bufs.len() == k + 2,
        rets.len() == k + 1,
        views[0].pos == views[0].frame_starts,
        views[0].frame_starts <= views[0].data.len(),
        is_pcm(views[0].info.format),
        views[0].info.block_bytes > 0,
        forall|j: int|
            0 <= j <= k ==> #[trigger] bufs[j] is Int32 && decode_post(
                views[j],
                bufs[j],
                1,
                views[j + 1],
                bufs[j + 1],
                rets[j],
            ),
    ensures
        same_stream(views[i as int], views[0]),
        views[i as int].pos == sequential_pos(views[0], i as int),
    decreases i,
{
    if i > 0 {
        let p = (i - 1) as nat;
        lemma_sequential_pos(views, bufs, rets, k, p);
        let v0 = views[0];
        let bb = v0.info.block_bytes as int;
        assert(bufs[p as int] is Int32);
        assert(v0.frame_starts + i * bb == v0.frame_starts + p * bb + bb) by (nonlinear_arith)
            requires
                i == p + 1,
        ;
        assert(p * bb >= 0) by (nonlinear_arith)
            requires
                bb > 0,
        ;
    }
}

/// Seeking to block `k` and decoding one block of PCM into an int32 buffer gives the
/// same result and samples as decoding blocks one by one from the first block and
/// keeping the one after the first `k`. `views`, `bufs` and `rets` record the
/// one-by-one decodes: decode `i` goes from `views[i]` and `bufs[i]` to `views[i + 1]`
/// and `bufs[i + 1]` and returns `rets[i]`.
pub proof fn seek_matches_sequential_decode(
    views: Seq<CoreView>,
    bufs: Seq<FormatType>,
    rets: Seq<Option<u64>>,
    k: nat,
    seek_view: CoreView,
    seek_buf: FormatType,
    after: CoreView,
    out: FormatType,
    r: Option<u64>,
)
    requires
        views.len() == k + 2,
        bufs.len() == k + 2,
        rets.len() == k + 1,
        views[0].pos == views[0].frame_starts,
        views[0].frame_starts <= views[0].data.len(),
        is_pcm(views[0].info.format),
        views[0].info.block_bytes > 0,
        forall|i: int|
            0 <= i <= k ==> #[trigger] bufs[i] is Int32 && decode_post(
                views[i],
                bufs[i],
                1,
                views[i + 1],
                bufs[i + 1],
                rets[i],
            ),
        same_stream(seek_view, views[0]),
        seek_view.pos == views[0].frame_starts + k * views[0].info.block_bytes,
        seek_buf is Int32,
        decode_post(seek_view, seek_buf, 1, after, out, r),
    ensures
        r == rets[k as int],
        r is Some ==> out->Int32_0@ == bufs[k + 1int]->Int32_0@,
{
    let v0 = views[0];
    let bb = v0.info.block_bytes as int;
    lemma_sequential_pos(views, bufs, rets, k, k);
    assert(bufs[k as int] is Int32);
    assert(k * bb >= 0) by (nonlinear_arith)
        requires
            bb > 0,
    ;
    if seek_view.pos < v0.data.len() {
        assert(views[k as int].pos == seek_view.pos);
        assert(views[k as int] == seek_view);
    }
}

/// The frame-oriented decoding engine: a seekable stream, its extent, where the sample
/// blocks start, and the state that decoding reuses from call to call.
pub struct DecoderCore {
    reader: ByteReader,
    header: FileHeader,
    sample_info: SampleInfo,
    stream_size: u64,
    frame_starts: u64,
    reader_buf: Vec<u8>,
    adpcm_core: Option<AdpcmCore>,
}

impl View for DecoderCore {
    type V = CoreView;

    closed spec fn view(&self) -> CoreView {
        CoreView {
            data: self.reader.content(),
            pos: self.reader.position() as int,
            frame_starts: self.frame_starts as int,
            info: self.sample_info,
        }
    }
}

/// Reads `count` bytes into `buf[..count]`, issuing reads until all have come or a read
/// brings nothing; returns how many came.
fn read_retrying(reader: &mut ByteReader, buf: &mut Vec<u8>, count: usize) -> (got: usize)
    requires
        count <= old(buf).len(),
        old(reader).position() + count <= old(reader).content().len(),
    ensures
        got == count,
        final(reader).content() == old(reader).content(),
        final(reader).position() == old(reader).position() + count,
        final(buf)@.len() == old(buf)@.len(),
        final(buf)@.subrange(0, count as int) == old(reader).content().subrange(
            old(reader).position() as int,
            old(reader).position() + count,
        ),
{
    let ghost start = reader.position() as int;
    let ghost data = reader.content();
    let ghost len = buf@.len();
    let mut got: usize = 0;
    assert(buf@.subrange(0, 0) =~= data.subrange(start, start));
    let mut stalled = false;
    while got < count && !stalled
        invariant
            got <= count <= buf.len(),
            buf@.len() == len,
            reader.content() == data,
            reader.position() == start + got,
            0 <= start,
            start + count <= data.len(),
            !stalled,
            buf@.subrange(0, got as int) == data.subrange(start, start + got),
        decreases count - got,
    {
        let ghost before = buf@;
        let n = reader.read(buf, got, count - got);
        if n == 0 {
            stalled = true;
        } else {
            proof {
                let mid = data.subrange(start + got, start + got + n);
                let head = before.subrange(0, got as int);
                let tail = before.subrange(got + n, len as int);
                assert(buf@ == head + mid + tail);
                assert(head =~= data.subrange(start, start + got));
                assert forall|i: int| 0 <= i < got + n implies buf@[i] == data[start + i] by {
                    if i < got {
                        assert(buf@[i] == head[i]);
                        assert(data.subrange(start, start + got)[i] == data[start + i]);
                    } else {
                        assert(buf@[i] == mid[i - got]);
                    }
                }
                assert(buf@.subrange(0, got + n) =~= data.subrange(start, start + got + n));
            }
            got = got + n;
        }
    }
    got
}

impl DecoderCore {
    pub closed spec fn wf(&self) -> bool {
        &&& self.stream_size == self.reader.content().len()
        &&& self.stream_size <= usize::MAX
        &&& self.frame_starts == FRAME_STARTS
        &&& self.frame_starts <= self.reader.position()
        &&& self.reader.position() <= u64::MAX
        &&& (self.adpcm_core matches Some(a) ==> a.bytes_per_block == BYTES_PER_BLOCK_DEFAULT
            && a.buf@.len() == adpcm_block_len(self.sample_info.channels as int))
    }

    /// The parsed header.
    pub closed spec fn header_view(&self) -> FileHeader {
        self.header
    }

    /// The ADPCM decoder's state once the first ADPCM decode has created it: its block
    /// size per channel and the length of its scratch buffer.
    pub closed spec fn adpcm_state(&self) -> Option<(nat, nat)> {
        match self.adpcm_core {
            Some(a) => Some((a.bytes_per_block as nat, a.buf@.len())),
            None => None,
        }
    }

    /// A well-formed engine stands at or after the first sample block.
    pub proof fn lemma_wf_bounds(&self)
        requires
            self.wf(),
        ensures
            self@.frame_starts == FRAME_STARTS,
            FRAME_STARTS <= self@.pos <= u64::MAX,
            self@.data.len() <= usize::MAX,
    {
    }

    /// Opens the stream: measures it, parses the header and the sample-info record from
    /// its start (wherever `reader` stood), and stands at the first sample block.
    pub fn new(reader: ByteReader) -> (r: Result<DecoderCore, CksError>)
        ensures
            reader.content().len() < FRAME_STARTS ==> r == Err::<DecoderCore, CksError>(
                CksError::FileRead,
            ),
            reader.content().len() >= FRAME_STARTS ==> r is Ok && ({
                let c = r->Ok_0;
                &&& c.wf()
                &&& c@.data == reader.content()
                &&& c@.pos == FRAME_STARTS
                &&& c@.frame_starts == FRAME_STARTS
                &&& c@.info == sample_info_of(reader.content(), HEADER_BYTES as int)
                &&& c.header_view() == header_of(reader.content())
                &&& c.adpcm_state() is None
            }),
    {
        let mut reader = reader;
        reader.rewind();
        let stream_size = reader.stream_len();
        let mut head: Vec<u8> = vec![0u8; 44];
        let n = reader.read(&mut head, 0, 44);
        head.truncate(n);
        assert(n > 0 ==> head@ =~= reader.content().subrange(0, n as int));
        let header = match FileHeader::new(&head) {
            Ok(h) => h,
            Err(e) => {
                return Err(e);
            },
        };
        if n < HEADER_BYTES + SAMPLE_INFO_BYTES {
            return Err(CksError::FileRead);
        }
        let sample_info = SampleInfo::new(&head, HEADER_BYTES);
        assert(header == header_of(reader.content()));
        let frame_starts = reader.stream_position();
        Ok(DecoderCore {
            reader,
            header,
            sample_info,
            stream_size,
            frame_starts,
            reader_buf: Vec::new(),
            adpcm_core: None,
        })
    }

    pub fn sample_info(&self) -> (r: SampleInfo)
        ensures
            r == self@.info,
    {
        self.sample_info
    }

    /// Whether the read position has reached the end of the stream.
    pub fn is_done(&self) -> (r: bool)
        requires
            self.wf(),
        ensures
            r == (self@.pos >= self@.data.len()),
    {
        let current_pos = self.reader.stream_position();
        current_pos >= self.stream_size
    }

    /// Moves to the start of block `frame` (counted from 0); past the end is allowed.
    pub fn set_frame_pos(&mut self, frame: u32)
        requires
            old(self).wf(),
        ensures
            final(self).wf(),
            same_stream(final(self)@, old(self)@),
            final(self).adpcm_state() == old(self).adpcm_state(),
            final(self)@.pos == old(self)@.frame_starts + frame * old(self)@.info.block_bytes,
    {
        assert(frame * self.sample_info.block_bytes <= 4294967295u64 * 65535u64)
            by (nonlinear_arith)
            requires
                frame <= 4294967295u64,
                self.sample_info.block_bytes <= 65535,
        ;
        let offset = frame as u64 * self.sample_info.block_bytes as u64;
        self.reader.seek(self.frame_starts + offset);
    }

    /// The read position in whole blocks from the start of the stream.
    pub fn get_frame_pos(&self) -> (r: u64)
        requires
            self.wf(),
            self@.info.block_bytes > 0,
        ensures
            r == self@.pos / (self@.info.block_bytes as int),
    {
        self.reader.stream_position() / (self.sample_info.block_bytes as u64)
    }

    /// Whole blocks between the first sample block and the read position.
    pub fn get_num_frames(&self) -> (r: u64)
        requires
            self.wf(),
            self@.info.block_bytes > 0,
        ensures
            r == (self@.pos - self@.frame_starts) / (self@.info.block_bytes as int),
    {
        let current_pos = self.reader.stream_position();
        (current_pos - self.frame_starts) / (self.sample_info.block_bytes as u64)
    }

    /// Bytes that a PCM decode of `blocks` blocks consumes.
    fn pcm_bytes_wanted(&self, blocks: usize) -> (n: usize)
        requires
            self.wf(),
            self@.pos < self@.data.len(),
        ensures
            n == pcm_read_len(self@, blocks as int),
    {
        let left = self.stream_size - self.reader.stream_position();
        assert(blocks * self.sample_info.block_bytes <= 18446744073709551615u128 * 65535u128)
            by (nonlinear_arith)
            requires
                blocks <= 18446744073709551615u128,
                self.sample_info.block_bytes <= 65535,
        ;
        let wanted = blocks as u128 * self.sample_info.block_bytes as u128;
        if wanted <= left as u128 {
            wanted as usize
        } else {
            left as usize
        }
    }

    /// Creates the ADPCM decoder's state, with a scratch buffer of one block per channel,
    /// unless it exists already.
    fn ensure_adpcm_ready(&mut self)
        requires
            old(self).wf(),
        ensures
            final(self).wf(),
            final(self)@ == old(self)@,
            adpcm_state_post(old(self)@, old(self).adpcm_state(), final(self).adpcm_state()),
    {
        let channels = self.sample_info.channels;
        if !(channels == 1 || channels == 2) {
            return;
        }
        if self.adpcm_core.is_none() {
            self.adpcm_core = Some(
                AdpcmCore {
                    bytes_per_block: BYTES_PER_BLOCK_DEFAULT,
                    buf: vec![0u8; BYTES_PER_BLOCK_DEFAULT * channels as usize],
                },
            );
        }
    }

    /// Reads the bytes of `blocks` blocks, or what is left of the stream, into the raw
    /// buffer; `None`, with the position kept, when there is nothing to read.
    fn read(&mut self, blocks: usize) -> (r: Option<u64>)
        requires
            old(self).wf(),
        ensures
            final(self).wf(),
            same_stream(final(self)@, old(self)@),
            final(self).adpcm_state() == old(self).adpcm_state(),
            ({
                let v = old(self)@;
                let n = pcm_read_len(v, blocks as int);
                &&& v.pos >= v.data.len() ==> r is None && final(self)@ == v
                &&& v.pos < v.data.len() && n == 0 ==> r is None && final(self)@ == v
                &&& v.pos < v.data.len() && n > 0 ==> r == Some(n as u64) && final(self)@.pos
                    == v.pos + n && final(self).reader_buf@ == v.data.subrange(v.pos, v.pos + n)
            }),
    {
        if self.is_done() {
            return None;
        }
        let bytes_to_read = self.pcm_bytes_wanted(blocks);
        if bytes_to_read == 0 {
            return None;
        }
        if self.reader_buf.len() != bytes_to_read {
            self.reader_buf.resize(bytes_to_read, 0);
        }
        read_retrying(&mut self.reader, &mut self.reader_buf, bytes_to_read);
        assert(self.reader_buf@ =~= self.reader_buf@.subrange(0, bytes_to_read as int));
        Some(bytes_to_read as u64)
    }

    /// Decodes into `buf`: one ADPCM block into an int16 buffer, or up to `blocks` PCM
    /// blocks into an int32 buffer. Returns the samples (ADPCM) or bytes (PCM) decoded;
    /// `None` at the end of the stream, and for a buffer that the format cannot fill.
    pub fn decode(&mut self, buf: &mut FormatType, blocks: usize) -> (r: Option<u64>)
        requires
            old(self).wf(),
        ensures
            final(self).wf(),
            same_stream(final(self)@, old(self)@),
            decode_post(old(self)@, *old(buf), blocks as int, final(self)@, *final(buf), r),
            decode_state_post(
                old(self)@,
                *old(buf),
                old(self).adpcm_state(),
                final(self).adpcm_state(),
            ),
    {
        match buf {
            FormatType::Int16(samples) => {
                match self.sample_info.format {
                    DecoderType::Adpcm => {
                        if self.is_done() {
                            self.ensure_adpcm_ready();
                            return None;
                        }
                        match AdpcmCore::decode(self, samples) {
                            Some(k) => Some(k as u64),
                            None => None,
                        }
                    },
                    _ => None,
                }
            },
            FormatType::Int32(samples) => {
                let format = self.sample_info.format;
                let width: usize = match format {
                    DecoderType::Pcmi8 => 1,
                    DecoderType::Pcmi16 => 2,
                    DecoderType::Pcmf32 => 4,
                    _ => {
                        return None;
                    },
                };
                if self.is_done() {
                    return None;
                }
                let ghost v = self@;
                let frames_read = match self.read(blocks) {
                    Some(n) => n,
                    None => {
                        return None;
                    },
                };
                let n = frames_read as usize;
                self.reader_buf.truncate(n - n % width);
                assert(self.reader_buf@ =~= v.data.subrange(v.pos, v.pos + (n - n % width)));
                match format {
                    DecoderType::Pcmi8 => convert_i8_to_i32(&self.reader_buf, samples),
                    DecoderType::Pcmi16 => convert_i16_to_i32(&self.reader_buf, samples),
                    _ => convert_f_to_i32(&self.reader_buf, samples),
                }
                Some(frames_read)
            },
        }
    }

    /// Reads up to `blocks` PCM blocks without converting them: `raw` receives every whole
    /// sample of the bytes consumed. Returns the bytes consumed; `None` at the end of the
    /// stream, for a format that is not PCM, and when there is nothing to read.
    pub fn decode_raw(&mut self, blocks: usize, raw: &mut Vec<u8>) -> (r: Option<u64>)
        requires
            old(self).wf(),
        ensures
            final(self).wf(),
            same_stream(final(self)@, old(self)@),
            final(self).adpcm_state() == old(self).adpcm_state(),
            ({
                let v = old(self)@;
                let n = pcm_read_len(v, blocks as int);
                let whole = n - n % sample_width(v.info.format);
                if v.pos >= v.data.len() || !is_pcm(v.info.format) || n == 0 {
                    r is None && final(self)@ == v && final(raw)@ == old(raw)@
                } else {
                    &&& r == Some(n as u64)
                    &&& final(self)@.pos == v.pos + n
                    &&& final(raw)@ == v.data.subrange(v.pos, v.pos + whole)
                }
            }),
    {
        if self.is_done() {
            return None;
        }
        let width: usize = match self.sample_info.format {
            DecoderType::Pcmi8 => 1,
            DecoderType::Pcmi16 => 2,
            DecoderType::Pcmf32 => 4,
            _ => {
                return None;
            },
        };
        let ghost v = self@;
        let n = match self.read(blocks) {
            Some(n) => n as usize,
            None => {
                return None;
            },
        };
        let whole = n - n % width;
        raw.clear();
        let mut i: usize = 0;
        while i < whole
            invariant
                i <= whole <= n,
                self.reader_buf@.len() == n,
                self.reader_buf@ == v.data.subrange(v.pos, v.pos + n),
                raw@ == self.reader_buf@.subrange(0, i as int),
            decreases whole - i,
        {
            raw.push(self.reader_buf[i]);
            assert(raw@ =~= self.reader_buf@.subrange(0, i + 1));
            i = i + 1;
        }
        assert(raw@ =~= v.data.subrange(v.pos, v.pos + whole));
        Some(n as u64)
    }

    /// Gives the stream back.
    pub fn into_inner(self) -> (r: ByteReader)
        ensures
            r.content() == self@.data,
            r.position() == self@.pos,
    {
        self.reader
    }
}

impl AdpcmCore {
    /// Reads one ADPCM block of every channel, clamped to what is left of the stream,
    /// into the scratch buffer: `Some(1)` for a whole block, `Some(0)` for a shorter
    /// rest, `None`, with the position kept, when nothing is left.
    fn read(decoder_core: &mut DecoderCore, state: &mut AdpcmCore, channels: usize) -> (r: Option<
        u64,
    >)
        requires
            old(decoder_core).wf(),
            channels == 1 || channels == 2,
            old(state).buf@.len() == adpcm_block_len(channels as int),
        ensures
            final(decoder_core).wf(),
            same_stream(final(decoder_core)@, old(decoder_core)@),
            final(decoder_core).adpcm_state() == old(decoder_core).adpcm_state(),
            final(state).bytes_per_block == old(state).bytes_per_block,
            ({
                let v = old(decoder_core)@;
                let need = adpcm_block_len(channels as int);
                let left = v.data.len() - v.pos;
                let m = if need <= left {
                    need
                } else {
                    left
                };
                &&& final(state).buf@.len() == need
                &&& left <= 0 ==> r is None && final(decoder_core)@.pos == v.pos && final(state).buf@
                    == old(state).buf@
                &&& left > 0 ==> {
                    &&& final(decoder_core)@.pos == v.pos + m
                    &&& final(state).buf@.len() == need
                    &&& final(state).buf@.subrange(0, m) == v.data.subrange(v.pos, v.pos + m)
                    &&& r == Some(if m == need { 1u64 } else { 0u64 })
                }
            }),
    {
        if decoder_core.is_done() {
            return None;
        }
        let bytes = BYTES_PER_BLOCK_DEFAULT * channels;
        let bytes_to_end = decoder_core.stream_size - decoder_core.reader.stream_position();
        let bytes_to_read: usize = if bytes as u64 <= bytes_to_end {
            bytes
        } else {
            bytes_to_end as usize
        };
        read_retrying(&mut decoder_core.reader, &mut state.buf, bytes_to_read);
        Some(
            if bytes_to_read == bytes {
                1
            } else {
                0
            },
        )
    }

    /// Decodes the next ADPCM block of every channel into `output_buf`, interleaved, and
    /// returns the number of samples written.
    pub fn decode(decoder_core: &mut DecoderCore, output_buf: &mut Vec<i16>) -> (r: Option<usize>)
        requires
            old(decoder_core).wf(),
        ensures
            final(decoder_core).wf(),
            adpcm_decode_post(
                old(decoder_core)@,
                old(output_buf)@,
                final(decoder_core)@,
                final(output_buf)@,
                match r {
                    Some(k) => Some(k as int),
                    None => None,
                },
            ),
            adpcm_state_post(
                old(decoder_core)@,
                old(decoder_core).adpcm_state(),
                final(decoder_core).adpcm_state(),
            ),
    {
        let channels = decoder_core.sample_info.channels;
        if !(channels == 1 || channels == 2) {
            return None;
        }
        decoder_core.ensure_adpcm_ready();
        let mut state = decoder_core.adpcm_core.take().unwrap();
        let ghost v = decoder_core@;
        let block_read = Self::read(decoder_core, &mut state, channels as usize);
        decoder_core.adpcm_core = Some(state);
        match block_read {
            Some(1) => {},
            _ => {
                return None;
            },
        }
        let ghost chunk = v.data.subrange(v.pos, v.pos + adpcm_block_len(channels as int));
        let buf_read = &decoder_core.adpcm_core.as_ref().unwrap().buf;
        assert(buf_read@ =~= buf_read@.subrange(0, adpcm_block_len(channels as int)));
        assert(buf_read@ == chunk);
        if buf_read[0] >= 7 || (channels == 2 && buf_read[BYTES_PER_BLOCK_DEFAULT] >= 7) {
            return None;
        }
        let samples = SAMPLES_PER_BLOCK * channels as usize;
        let ghost old_out = output_buf@;
        if output_buf.len() < samples {
            output_buf.resize(samples, 0);
        }
        let ghost before = output_buf@;
        assert(buf_read@.subrange(0, 24)[0] == buf_read@[0]);
        assert(channels == 2 ==> buf_read@.subrange(24, 48)[0] == buf_read@[24]);
        let first = Self::dec_core(
            buf_read,
            0,
            BYTES_PER_BLOCK_DEFAULT,
            output_buf,
            0,
            channels,
        );
        assert(first is Ok);
        if channels == 2 {
            let ghost middle = output_buf@;
            let second = Self::dec_core(
                buf_read,
                BYTES_PER_BLOCK_DEFAULT,
                BYTES_PER_BLOCK_DEFAULT,
                output_buf,
                1,
                2,
            );
            assert(second is Ok);
            proof {
                let l = decoded_block(chunk.subrange(0, 24));
                let rr = decoded_block(chunk.subrange(24, 48));
                assert(buf_read@.subrange(0, 24) == chunk.subrange(0, 24));
                assert(buf_read@.subrange(24, 48) == chunk.subrange(24, 48));
                assert(middle == scatter(before, 0, 2, l));
                assert(output_buf@ =~= overlay(old_out, interleave(l, rr)));
            }
        } else {
            assert(buf_read@.subrange(0, 24) =~= chunk);
            assert(output_buf@ =~= overlay(old_out, decoded_block(chunk)));
        }
        Some(samples)
    }
}

} // verus!
