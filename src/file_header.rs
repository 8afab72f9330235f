use vstd::prelude::*;
use crate::bytes::{le_u32, u32_at};
use crate::error::CksError;

verus! {

/// Bytes in the container's fixed header.
pub const HEADER_BYTES: usize = 16;

/// The container's fixed header: a four-byte marker and three little-endian 32-bit fields.
pub struct FileHeader {
    pub marker: [u8; 4],
    pub targets: u32,
    pub file_type: u32,
    pub file_version: u32,
}

/// The header held in the first 16 bytes of `s`.
pub open spec fn header_of(s: Seq<u8>) -> FileHeader {
    FileHeader {
        marker: [s[0], s[1], s[2], s[3]],
        targets: u32_at(s, 4) as u32,
        file_type: u32_at(s, 8) as u32,
        file_version: u32_at(s, 12) as u32,
    }
}

impl FileHeader {
    /// Parses the header at the start of `bytes`; fails with `FileRead` when fewer than
    /// 16 bytes are there.
    pub fn new(bytes: &Vec<u8>) -> (r: Result<FileHeader, CksError>)
        ensures
            bytes@.len() < HEADER_BYTES ==> r == Err::<FileHeader, CksError>(CksError::FileRead),
            bytes@.len() >= HEADER_BYTES ==> r is Ok && r->Ok_0 == header_of(bytes@),
    {
        if bytes.len() < HEADER_BYTES {
            return Err(CksError::FileRead);
        }
        let marker = [bytes[0], bytes[1], bytes[2], bytes[3]];
        let mut targets: u32 = 0;
        let mut file_type: u32 = 0;
        let mut file_version: u32 = 0;
        write_header_info(&[bytes[4], bytes[5], bytes[6], bytes[7]], &mut targets);
        write_header_info(&[bytes[8], bytes[9], bytes[10], bytes[11]], &mut file_type);
        write_header_info(&[bytes[12], bytes[13], bytes[14], bytes[15]], &mut file_version);
        let r = FileHeader { marker, targets, file_type, file_version };
        assert(r.marker@ =~= header_of(bytes@).marker@);
        Ok(r)
    }
}

/// Stores the little-endian value of four bytes in `target`.
fn write_header_info(buf_read: &[u8; 4], target: &mut u32)
    ensures
        *final(target) == le_u32(buf_read@[0], buf_read@[1], buf_read@[2], buf_read@[3]),
{
    *target = (buf_read[0] as u32) + (buf_read[1] as u32) * 256 + (buf_read[2] as u32) * 65536
        + (buf_read[3] as u32) * 16777216;
}

} // verus!
