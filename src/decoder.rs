use vstd::prelude::*;
use crate::decoder_core::{
    decode_post, decode_state_post, is_pcm, pcm_read_len, same_stream, sample_width, CoreView, DecoderCore,
    FRAME_STARTS,
};
use crate::error::CksError;
use crate::file_header::HEADER_BYTES;
use crate::reader::ByteReader;
use crate::sample_info::{sample_info_of, SampleInfo};
use crate::FormatType;

verus! {

/// The sample format that a container declares.
#[derive(Clone, Copy, Debug, PartialEq, Eq, Structural)]
pub enum DecoderType {
    Adpcm,
    Pcmi8,
    Pcmi16,
    Pcmf32,
    Unknown,
}

/// Whether a stream starts with the container's marker `"ckmk"`.
pub open spec fn has_cks_marker(d: Seq<u8>) -> bool {
    &&& d.len() >= 4
    &&& d[0] == 0x63
    &&& d[1] == 0x6b
    &&& d[2] == 0x6d
    &&& d[3] == 0x6b
}

/// A decoder for one container stream.
pub struct Decoder {
    decoder_core: DecoderCore,
    decoder_type: DecoderType,
}

impl View for Decoder {
    type V = CoreView;

    closed spec fn view(&self) -> CoreView {
        self.decoder_core@
    }
}

impl Decoder {
    pub closed spec fn wf(&self) -> bool {
        self.decoder_core.wf() && self.decoder_type == self.decoder_core@.info.format
    }

    /// The ADPCM decoder's state once the first ADPCM decode has created it: its block
    /// size per channel and the length of its scratch buffer.
    pub closed spec fn adpcm_state(&self) -> Option<(nat, nat)> {
        self.decoder_core.adpcm_state()
    }

    /// A well-formed decoder stands at or after the first sample block.
    pub proof fn lemma_wf_bounds(&self)
        requires
            self.wf(),
        ensures
            self@.frame_starts == FRAME_STARTS,
            FRAME_STARTS <= self@.pos <= u64::MAX,
            self@.data.len() <= usize::MAX,
    {
        self.decoder_core.lemma_wf_bounds();
    }

    /// Opens a container: rejects a stream without the marker, then parses the header
    /// and the sample-info record and stands at the first sample block.
    pub fn new(reader: ByteReader) -> (r: Result<Decoder, CksError>)
        ensures
            ({
                let d = reader.content();
                &&& !has_cks_marker(d) ==> r == Err::<Decoder, CksError>(CksError::NotCksFile)
                &&& has_cks_marker(d) && d.len() < FRAME_STARTS ==> r == Err::<Decoder, CksError>(
                    CksError::FileRead,
                )
                &&& has_cks_marker(d) && d.len() >= FRAME_STARTS ==> r is Ok && ({
                    let dec = r->Ok_0;
                    &&& dec.wf()
                    &&& dec@.data == d
                    &&& dec@.pos == FRAME_STARTS
                    &&& dec@.frame_starts == FRAME_STARTS
                    &&& dec@.info == sample_info_of(d, HEADER_BYTES as int)
                    &&& dec.adpcm_state() is None
                })
            }),
    {
        let mut reader = reader;
        reader.rewind();
        if !Decoder::is_cks(&mut reader) {
            return Err(CksError::NotCksFile);
        }
        let decoder_core = match DecoderCore::new(reader) {
            Ok(c) => c,
            Err(e) => {
                return Err(e);
            },
        };
        let decoder_type = decoder_core.sample_info().format;
        Ok(Decoder { decoder_core, decoder_type })
    }

    /// Decodes into `buf`: one ADPCM block into an int16 buffer (whatever `blocks` says),
    /// or up to `blocks` PCM blocks into an int32 buffer.
    pub fn decode(&mut self, buf: &mut FormatType, blocks: usize) -> (r: Option<u64>)
        requires
            old(self).wf(),
        ensures
            final(self).wf(),
            decode_post(old(self)@, *old(buf), blocks as int, final(self)@, *final(buf), r),
            decode_state_post(
                old(self)@,
                *old(buf),
                old(self).adpcm_state(),
                final(self).adpcm_state(),
            ),
    {
        self.decoder_core.decode(buf, blocks)
    }

    /// Decodes one block.
    pub fn next(&mut self, buf: &mut FormatType) -> (r: Option<u64>)
        requires
            old(self).wf(),
        ensures
            final(self).wf(),
            decode_post(old(self)@, *old(buf), 1, final(self)@, *final(buf), r),
            decode_state_post(
                old(self)@,
                *old(buf),
                old(self).adpcm_state(),
                final(self).adpcm_state(),
            ),
    {
        self.decoder_core.decode(buf, 1)
    }

    /// Reads up to `blocks` PCM blocks without converting them: `raw` receives every whole
    /// sample of the bytes consumed. Returns the bytes consumed; `None` at the end of the
    /// stream, for a format that is not PCM, and when there is nothing to read.
    pub fn decode_raw(&mut self, blocks: usize, raw: &mut Vec<u8>) -> (r: Option<u64>)
        requires
            old(self).wf(),
        ensures
            final(self).wf(),
            same_stream(final(self)@, old(self)@),
            final(self).adpcm_state() == old(self).adpcm_state(),
            ({
                let v = old(self)@;
                let n = pcm_read_len(v, blocks as int);
                let whole = n - n % sample_width(v.info.format);
                if v.pos >= v.data.len() || !is_pcm(v.info.format) || n == 0 {
                    r is None && final(self)@ == v && final(raw)@ == old(raw)@
                } else {
                    &&& r == Some(n as u64)
                    &&& final(self)@.pos == v.pos + n
                    &&& final(raw)@ == v.data.subrange(v.pos, v.pos + whole)
                }
            }),
    {
        self.decoder_core.decode_raw(blocks, raw)
    }

    /// Gives the stream back.
    pub fn into_inner(self) -> (r: ByteReader)
        ensures
            r.content() == self@.data,
            r.position() == self@.pos,
    {
        self.decoder_core.into_inner()
    }

    pub fn sample_info(&self) -> (r: SampleInfo)
        ensures
            r == self@.info,
    {
        self.decoder_core.sample_info()
    }

    /// Whether the read position has reached the end of the stream.
    pub fn is_done(&self) -> (r: bool)
        requires
            self.wf(),
        ensures
            r == (self@.pos >= self@.data.len()),
    {
        self.decoder_core.is_done()
    }

    /// Moves to the start of block `frame` (counted from 0); past the end is allowed.
    pub fn set_frame_pos(&mut self, frame: u32)
        requires
            old(self).wf(),
        ensures
            final(self).wf(),
            same_stream(final(self)@, old(self)@),
            final(self).adpcm_state() == old(self).adpcm_state(),
            final(self)@.pos == old(self)@.frame_starts + frame * old(self)@.info.block_bytes,
    {
        self.decoder_core.set_frame_pos(frame)
    }

    /// The read position in whole blocks from the start of the stream.
    pub fn get_frame_pos(&self) -> (r: u64)
        requires
            self.wf(),
            self@.info.block_bytes > 0,
        ensures
            r == self@.pos / (self@.info.block_bytes as int),
    {
        self.decoder_core.get_frame_pos()
    }

    /// Whole blocks between the first sample block and the read position.
    pub fn get_num_frames(&self) -> (r: u64)
        requires
            self.wf(),
            self@.info.block_bytes > 0,
        ensures
            r == (self@.pos - self@.frame_starts) / (self@.info.block_bytes as int),
    {
        self.decoder_core.get_num_frames()
    }

    /// Whether the stream starts with the marker; the read position is kept.
    fn is_cks(reader: &mut ByteReader) -> (r: bool)
        ensures
            final(reader).content() == old(reader).content(),
            final(reader).position() == old(reader).position(),
            r == has_cks_marker(old(reader).content()),
    {
        let current_pos = reader.stream_position();
        reader.rewind();
        let mut buf: Vec<u8> = vec![0u8; 4];
        let n = reader.read(&mut buf, 0, 4);
        reader.seek(current_pos);
        if n < 4 {
            return false;
        }
        assert(buf@ =~= reader.content().subrange(0, 4));
        buf[0] == 0x63 && buf[1] == 0x6b && buf[2] == 0x6d && buf[3] == 0x6b
    }
}

} // verus!
