use vstd::prelude::*;

verus! {

/// Errors reported while opening or reading a container.
#[derive(Debug, Clone, Copy, PartialEq, Eq, Structural)]
pub enum CksError {
    FileRead,
    NotCksFile,
    UnknownFormat,
    UnsupportedDecType,
    Io,
    InsufficientData,
    SkippedData,
    EoF,
}

/// Errors reported by the per-channel ADPCM block decoder.
#[derive(Debug, Clone, Copy, PartialEq, Eq, Structural)]
pub enum AdpcmError {
    InvalidStride,
    NoEnoughInputBytes,
    InvalidPredictor,
}

} // verus!
