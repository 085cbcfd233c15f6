//! Fixed-width integers and pooled strings read from bytes.
use vstd::prelude::*;
use vstd::utf8::{decode_utf8, valid_utf8};

verus! {

/// The little-endian unsigned value of the four bytes of `b` from `i` on.
pub open spec fn le_u32_at(b: Seq<u8>, i: int) -> int {
    b[i] as int + 256 * b[i + 1] as int + 65536 * b[i + 2] as int + 16777216 * b[i + 3] as int
}

/// The four bytes of `bytes`, read as a little-endian unsigned integer.
pub fn four_byte_int(bytes: &[u8]) -> (r: u64)
    requires
        bytes@.len() == 4,
    ensures
        r == le_u32_at(bytes@, 0),
        r < 0x1_0000_0000,
{
    bytes[0] as u64 + 256 * (bytes[1] as u64) + 65536 * (bytes[2] as u64) + 16777216 * (
    bytes[3] as u64)
}

/// The four little-endian bytes of `v`.
pub open spec fn le_bytes(v: u32) -> Seq<u8> {
    seq![(v % 0x100) as u8, ((v / 0x100) % 0x100) as u8, ((v / 0x1_0000) % 0x100) as u8, (v / 0x100_0000) as u8]
}

/// Reading back the four little-endian bytes of a value gives the value.
pub proof fn le_u32_round_trip(v: u32)
    ensures
        le_u32_at(le_bytes(v), 0) == v,
{
}

/// The characters of `b`, where `b` is UTF-8.
pub open spec fn utf8_text(b: Seq<u8>) -> Option<Seq<char>> {
    if valid_utf8(b) {
        Some(decode_utf8(b))
    } else {
        None
    }
}

/// Relies on `std::str::from_utf8`: it succeeds exactly on valid UTF-8, and
/// the text it returns is what those bytes encode.
#[verifier::external_body]
pub(crate) fn utf8_str(b: &[u8]) -> (r: Option<&str>)
    ensures
        r matches Some(s) ==> utf8_text(b@) == Some(s@),
        r is None ==> utf8_text(b@) is None,
{
    std::str::from_utf8(b).ok()
}

/// The string stored at `start` of the pool: one length byte, then that many
/// bytes of UTF-8.
pub open spec fn pool_string(data: Seq<u8>, start: int) -> Option<Seq<char>> {
    if 0 <= start < data.len() && start + 1 + data[start] <= data.len() {
        utf8_text(data.subrange(start + 1, start + 1 + data[start]))
    } else {
        None
    }
}

/// Reads the length-prefixed string at the front of `data`.
pub fn parse_string(data: &[u8]) -> (r: Option<&str>)
    ensures
        r matches Some(s) ==> pool_string(data@, 0) == Some(s@),
        r is None ==> pool_string(data@, 0) is None,
{
    if data.len() == 0 {
        return None;
    }
    let size = data[0] as usize;
    if 1 + size > data.len() {
        return None;
    }
    utf8_str(&data[1..1 + size])
}

} // verus!
