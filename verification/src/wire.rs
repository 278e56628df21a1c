//! Fixed-layout payload decoding. The platform hands back result payloads as
//! raw byte buffers whose field order and width are part of its ABI; this
//! module decodes them with explicit bounds checks.
//!
//! A purchase result payload is 20 bytes, little-endian:
//! `{ result_code: 4 bytes, order_id: 8 bytes, transaction_id: 8 bytes }`.

use vstd::prelude::*;

use crate::error::RESULT_OK;
use crate::error::SteamError;
use crate::error::spec_error_for_code;
use crate::items::SteamPurchase;

verus! {

/// Byte length of a purchase result payload.
pub const PURCHASE_PAYLOAD_LEN: usize = 20;

/// The unsigned value of the 4 little-endian bytes of `s` starting at `i`.
pub open spec fn le_u32_at(s: Seq<u8>, i: int) -> int
    recommends
        0 <= i,
        i + 4 <= s.len(),
{
    s[i] + s[i + 1] * 0x100 + s[i + 2] * 0x1_0000 + s[i + 3] * 0x100_0000
}

/// The unsigned value of the 8 little-endian bytes of `s` starting at `i`.
pub open spec fn le_u64_at(s: Seq<u8>, i: int) -> int
    recommends
        0 <= i,
        i + 8 <= s.len(),
{
    s[i] + s[i + 1] * 0x100 + s[i + 2] * 0x1_0000 + s[i + 3] * 0x100_0000 + s[i + 4]
        * 0x1_0000_0000 + s[i + 5] * 0x100_0000_0000 + s[i + 6] * 0x1_0000_0000_0000 + s[i + 7]
        * 0x100_0000_0000_0000
}

/// What decoding a purchase result payload yields: a receipt copied verbatim
/// from the payload when the embedded result code is the success code, the
/// mapped domain error for any other code, and an I/O failure for a buffer
/// that does not have the fixed 20-byte layout.
pub open spec fn spec_decode_purchase(s: Seq<u8>) -> Result<SteamPurchase, SteamError> {
    if s.len() != PURCHASE_PAYLOAD_LEN {
        Err(SteamError::IOFailure)
    } else if le_u32_at(s, 0) == RESULT_OK {
        Ok(
            SteamPurchase {
                order_id: le_u64_at(s, 4) as u64,
                transaction_id: le_u64_at(s, 12) as u64,
            },
        )
    } else {
        Err(spec_error_for_code(le_u32_at(s, 0) as u32))
    }
}

/// Reads the 4 little-endian bytes of `b` at `off`.
fn read_le_u32(b: &[u8], off: usize) -> (r: u32)
    requires
        off + 4 <= b@.len(),
    ensures
        r == le_u32_at(b@, off as int),
{
    (b[off] as u32) + (b[off + 1] as u32) * 0x100 + (b[off + 2] as u32) * 0x1_0000 + (b[off
        + 3] as u32) * 0x100_0000
}

/// Reads the 8 little-endian bytes of `b` at `off`.
fn read_le_u64(b: &[u8], off: usize) -> (r: u64)
    requires
        off + 8 <= b@.len(),
    ensures
        r == le_u64_at(b@, off as int),
{
    (b[off] as u64) + (b[off + 1] as u64) * 0x100 + (b[off + 2] as u64) * 0x1_0000 + (b[off
        + 3] as u64) * 0x100_0000 + (b[off + 4] as u64) * 0x1_0000_0000 + (b[off + 5] as u64)
        * 0x100_0000_0000 + (b[off + 6] as u64) * 0x1_0000_0000_0000 + (b[off + 7] as u64)
        * 0x100_0000_0000_0000
}

/// Decodes a purchase result payload: `Ok` with the receipt fields copied
/// verbatim when the embedded result code is the success code, the mapped
/// error kind for any other code, and `IOFailure` for a malformed buffer.
pub fn decode_purchase_result(payload: &[u8]) -> (r: Result<SteamPurchase, SteamError>)
    ensures
        r == spec_decode_purchase(payload@),
{
    if payload.len() != PURCHASE_PAYLOAD_LEN {
        return Err(SteamError::IOFailure);
    }
    let code: u32 = read_le_u32(payload, 0);
    if code == RESULT_OK {
        let order_id: u64 = read_le_u64(payload, 4);
        let transaction_id: u64 = read_le_u64(payload, 12);
        Ok(SteamPurchase { order_id, transaction_id })
    } else {
        Err(crate::error::error_from_code(code))
    }
}

} // verus!
