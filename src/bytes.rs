use vstd::prelude::*;

verus! {

/// Unsigned value of two bytes in little-endian order.
pub open spec fn le_u16(b0: u8, b1: u8) -> int {
    b0 + 256 * b1
}

/// Unsigned value of four bytes in little-endian order.
pub open spec fn le_u32(b0: u8, b1: u8, b2: u8, b3: u8) -> int {
    b0 + 256 * b1 + 65536 * b2 + 16777216 * b3
}

/// Two's complement reading of a 16-bit unsigned value.
pub open spec fn as_signed16(u: int) -> int {
    if u >= 32768 { u - 65536 } else { u }
}

/// Two's complement reading of a 32-bit unsigned value.
pub open spec fn as_signed32(u: int) -> int {
    if u >= 2147483648 { u - 4294967296 } else { u }
}

/// Little-endian `u16` at `at` in `s`.
pub open spec fn u16_at(s: Seq<u8>, at: int) -> int {
    le_u16(s[at], s[at + 1])
}

/// Little-endian `i16` at `at` in `s`.
pub open spec fn i16_at(s: Seq<u8>, at: int) -> int {
    as_signed16(u16_at(s, at))
}

/// Little-endian `u32` at `at` in `s`.
pub open spec fn u32_at(s: Seq<u8>, at: int) -> int {
    le_u32(s[at], s[at + 1], s[at + 2], s[at + 3])
}

/// Little-endian `i32` at `at` in `s`.
pub open spec fn i32_at(s: Seq<u8>, at: int) -> int {
    as_signed32(u32_at(s, at))
}

pub fn read_to_u8(s: &Vec<u8>, at: usize) -> (r: u8)
    requires
        at < s.len(),
    ensures
        r == s@[at as int],
{
    s[at]
}

pub fn read_to_u16(s: &Vec<u8>, at: usize) -> (r: u16)
    requires
        at + 2 <= s.len(),
    ensures
        r == u16_at(s@, at as int),
{
    (s[at] as u16) + (s[at + 1] as u16) * 256
}

pub fn read_to_i16(s: &Vec<u8>, at: usize) -> (r: i16)
    requires
        at + 2 <= s.len(),
    ensures
        r == i16_at(s@, at as int),
{
    let u = read_to_u16(s, at);
    if u >= 32768 {
        (u as i32 - 65536) as i16
    } else {
        u as i16
    }
}

pub fn read_to_u32(s: &Vec<u8>, at: usize) -> (r: u32)
    requires
        at + 4 <= s.len(),
    ensures
        r == u32_at(s@, at as int),
{
    (s[at] as u32) + (s[at + 1] as u32) * 256 + (s[at + 2] as u32) * 65536 + (s[at + 3] as u32)
        * 16777216
}

pub fn read_to_i32(s: &Vec<u8>, at: usize) -> (r: i32)
    requires
        at + 4 <= s.len(),
    ensures
        r == i32_at(s@, at as int),
{
    let u = read_to_u32(s, at);
    if u >= 2147483648 {
        (u as i64 - 4294967296) as i32
    } else {
        u as i32
    }
}

} // verus!
