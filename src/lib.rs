use vstd::prelude::*;

pub mod error;
pub mod bytes;
pub mod adpcm;
pub mod reader;
pub mod audio_util;
pub mod file_header;
pub mod sample_info;
pub mod decoder;
pub mod decoder_core;

verus! {

/// A caller-owned output buffer; its variant selects the sample type that a decode
/// writes.
#[derive(Debug, PartialEq, Eq)]
pub enum FormatType {
    Int16(Vec<i16>),
    Int32(Vec<i32>),
}

impl FormatType {
    /// Number of samples held.
    pub fn len(&self) -> (r: usize)
        ensures
            r == (match self {
                FormatType::Int16(v) => v@.len(),
                FormatType::Int32(v) => v@.len(),
            }),
    {
        match self {
            FormatType::Int16(v) => v.len(),
            FormatType::Int32(v) => v.len(),
        }
    }

    pub fn is_empty(&self) -> (r: bool)
        ensures
            r == (match self {
                FormatType::Int16(v) => v@.len() == 0,
                FormatType::Int32(v) => v@.len() == 0,
            }),
    {
        self.len() == 0
    }

    /// An int16 buffer of 72 zero samples: one decoded stereo ADPCM block.
    pub fn new_int16() -> (r: FormatType)
        ensures
            r is Int16,
            r->Int16_0@ == Seq::new(72, |i: int| 0i16),
    {
        let v_size: usize = crate::adpcm::BYTES_PER_BLOCK_DEFAULT * 4 - 24;
        let v = vec![0i16; v_size];
        assert(v@ =~= Seq::new(72, |i: int| 0i16));
        FormatType::Int16(v)
    }

    /// An int32 buffer of 48 zero samples.
    pub fn new_int32() -> (r: FormatType)
        ensures
            r is Int32,
            r->Int32_0@ == Seq::new(48, |i: int| 0i32),
    {
        let v_size: usize = crate::adpcm::BYTES_PER_BLOCK_DEFAULT * 2;
        let v = vec![0i32; v_size];
        assert(v@ =~= Seq::new(48, |i: int| 0i32));
        FormatType::Int32(v)
    }
}

} // verus!
