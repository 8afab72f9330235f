use vstd::prelude::*;
use crate::bytes::{
    i16_at, i32_at, read_to_i16, read_to_i32, read_to_u16, read_to_u32, read_to_u8, u16_at, u32_at,
};
use crate::decoder::DecoderType;

verus! {

/// Bytes in the sample-info record that follows the header.
pub const SAMPLE_INFO_BYTES: usize = 28;

/// What a container says of its samples.
#[derive(Clone, Copy, Debug, PartialEq, Eq, Structural)]
pub struct SampleInfo {
    pub format: DecoderType,
    pub channels: u8,
    pub sample_rate: u16,
    /// Total block count; -1 when unknown.
    pub blocks: i32,
    /// Bytes per block, all channels together.
    pub block_bytes: u16,
    pub block_frames: u16,
    pub volume: u16,
    pub pan: i16,
    pub loop_start: u32,
    pub loop_end: u32,
    pub loop_count: i16,
}

/// The sample format named by a format code.
pub open spec fn format_of(code: u8) -> DecoderType {
    if code == 0 {
        DecoderType::Pcmi16
    } else if code == 1 {
        DecoderType::Pcmi8
    } else if code == 2 {
        DecoderType::Adpcm
    } else if code == 3 {
        DecoderType::Pcmf32
    } else {
        DecoderType::Unknown
    }
}

/// The sample-info record held in `s` from `at` on (all fields little-endian).
pub open spec fn sample_info_of(s: Seq<u8>, at: int) -> SampleInfo {
    SampleInfo {
        format: format_of(s[at]),
        channels: s[at + 1],
        sample_rate: u16_at(s, at + 2) as u16,
        blocks: i32_at(s, at + 4) as i32,
        block_bytes: u16_at(s, at + 8) as u16,
        block_frames: u16_at(s, at + 10) as u16,
        volume: u16_at(s, at + 12) as u16,
        pan: i16_at(s, at + 14) as i16,
        loop_start: u32_at(s, at + 16) as u32,
        loop_end: u32_at(s, at + 20) as u32,
        loop_count: i16_at(s, at + 24) as i16,
    }
}

fn format_from_code(code: u8) -> (r: DecoderType)
    ensures
        r == format_of(code),
{
    match code {
        0 => DecoderType::Pcmi16,
        1 => DecoderType::Pcmi8,
        2 => DecoderType::Adpcm,
        3 => DecoderType::Pcmf32,
        _ => DecoderType::Unknown,
    }
}

impl SampleInfo {
    /// Parses the 28-byte record that starts at `at` in `bytes`; its last two bytes are
    /// reserved.
    pub fn new(bytes: &Vec<u8>, at: usize) -> (r: SampleInfo)
        requires
            at + SAMPLE_INFO_BYTES <= bytes.len(),
        ensures
            r == sample_info_of(bytes@, at as int),
    {
        SampleInfo {
            format: format_from_code(read_to_u8(bytes, at)),
            channels: read_to_u8(bytes, at + 1),
            sample_rate: read_to_u16(bytes, at + 2),
            blocks: read_to_i32(bytes, at + 4),
            block_bytes: read_to_u16(bytes, at + 8),
            block_frames: read_to_u16(bytes, at + 10),
            volume: read_to_u16(bytes, at + 12),
            pan: read_to_i16(bytes, at + 14),
            loop_start: read_to_u32(bytes, at + 16),
            loop_end: read_to_u32(bytes, at + 20),
            loop_count: read_to_i16(bytes, at + 24),
        }
    }

    /// The record with every field at its default: unknown format, no channels or blocks,
    /// full volume, centred, and a loop over everything.
    pub fn reset(self) -> (r: SampleInfo)
        ensures
            r == (SampleInfo {
                format: DecoderType::Unknown,
                channels: 0,
                sample_rate: 0,
                blocks: 0,
                block_bytes: 0,
                block_frames: 0,
                volume: u16::MAX,
                pan: 0,
                loop_start: 0,
                loop_end: u32::MAX,
                loop_count: 0,
            }),
    {
        SampleInfo {
            format: DecoderType::Unknown,
            channels: 0,
            sample_rate: 0,
            blocks: 0,
            block_bytes: 0,
            block_frames: 0,
            volume: u16::MAX,
            pan: 0,
            loop_start: 0,
            loop_end: u32::MAX,
            loop_count: 0,
        }
    }
}

} // verus!
