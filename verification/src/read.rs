use scroll::Pread;
use vstd::prelude::*;

use crate::error::DexError;

verus! {

/// Byte order of the multi-byte integers of a file.
#[derive(Debug, Clone, Copy, PartialEq, Eq, Structural)]
pub enum Endian {
    Little,
    Big,
}

/// The `u16` stored at `off` in `b` with byte order `e`.
pub open spec fn spec_u16(b: Seq<u8>, off: int, e: Endian) -> u16 {
    match e {
        Endian::Little => (b[off] + 256 * b[off + 1]) as u16,
        Endian::Big => (256 * b[off] + b[off + 1]) as u16,
    }
}

/// The `u32` stored at `off` in `b` with byte order `e`.
pub open spec fn spec_u32(b: Seq<u8>, off: int, e: Endian) -> u32 {
    match e {
        Endian::Little => (b[off] + 256 * b[off + 1] + 65536 * b[off + 2] + 16777216 * b[off
            + 3]) as u32,
        Endian::Big => (16777216 * b[off] + 65536 * b[off + 1] + 256 * b[off + 2] + b[off
            + 3]) as u32,
    }
}

/// The error of a read of `size` bytes at `off` that runs past the end of `b`.
pub open spec fn read_error(b: Seq<u8>, off: int, size: int) -> DexError {
    DexError::Read { offset: off as u64, size: size as u64, len: b.len() as u64 }
}

/// Reading a `u16` at `off`: its value, or the error of a read past the end.
pub open spec fn spec_read_u16(b: Seq<u8>, off: int, e: Endian) -> Result<u16, DexError> {
    if off + 2 <= b.len() {
        Ok(spec_u16(b, off, e))
    } else {
        Err(read_error(b, off, 2))
    }
}

/// Reading a `u32` at `off`: its value, or the error of a read past the end.
pub open spec fn spec_read_u32(b: Seq<u8>, off: int, e: Endian) -> Result<u32, DexError> {
    if off + 4 <= b.len() {
        Ok(spec_u32(b, off, e))
    } else {
        Err(read_error(b, off, 4))
    }
}

/// Reading one byte at `off`.
pub open spec fn spec_read_u8(b: Seq<u8>, off: int) -> Result<u8, DexError> {
    if off < b.len() {
        Ok(b[off])
    } else {
        Err(read_error(b, off, 1))
    }
}

/// `scroll::Pread::pread_with::<u16>` on a byte slice. It fails exactly when the two
/// bytes at `offset` are not all inside the slice (a `BadOffset` when `offset` is past
/// the end, a `TooBig` otherwise); on success the value is the two bytes read in the
/// given byte order.
#[verifier::external_body]
fn scroll_pread_u16(bytes: &[u8], offset: usize, endian: Endian) -> (r: Result<
    u16,
    scroll::Error,
>)
    ensures
        r is Ok <==> offset + 2 <= bytes@.len(),
        r matches Ok(v) ==> v == spec_u16(bytes@, offset as int, endian),
{
    let ctx = match endian {
        Endian::Little => scroll::LE,
        Endian::Big => scroll::BE,
    };
    bytes.pread_with::<u16>(offset, ctx)
}

/// `scroll::Pread::pread_with::<u32>` on a byte slice. It fails exactly when the four
/// bytes at `offset` are not all inside the slice; on success the value is the four
/// bytes read in the given byte order.
#[verifier::external_body]
fn scroll_pread_u32(bytes: &[u8], offset: usize, endian: Endian) -> (r: Result<
    u32,
    scroll::Error,
>)
    ensures
        r is Ok <==> offset + 4 <= bytes@.len(),
        r matches Ok(v) ==> v == spec_u32(bytes@, offset as int, endian),
{
    let ctx = match endian {
        Endian::Little => scroll::LE,
        Endian::Big => scroll::BE,
    };
    bytes.pread_with::<u32>(offset, ctx)
}

/// Reads the `u16` at byte offset `off` of `bytes`.
pub fn read_u16(bytes: &[u8], off: u64, endian: Endian) -> (r: Result<u16, DexError>)
    ensures
        r == spec_read_u16(bytes@, off as int, endian),
{
    let len = bytes.len() as u64;
    if off >= len || len - off < 2 {
        return Err(DexError::Read { offset: off, size: 2, len });
    }
    match scroll_pread_u16(bytes, off as usize, endian) {
        Ok(v) => Ok(v),
        Err(_) => Err(DexError::Read { offset: off, size: 2, len }),
    }
}

/// Reads the `u32` at byte offset `off` of `bytes`.
pub fn read_u32(bytes: &[u8], off: u64, endian: Endian) -> (r: Result<u32, DexError>)
    ensures
        r == spec_read_u32(bytes@, off as int, endian),
{
    let len = bytes.len() as u64;
    if off >= len || len - off < 4 {
        return Err(DexError::Read { offset: off, size: 4, len });
    }
    match scroll_pread_u32(bytes, off as usize, endian) {
        Ok(v) => Ok(v),
        Err(_) => Err(DexError::Read { offset: off, size: 4, len }),
    }
}

/// Reads the byte at offset `off` of `bytes`.
pub fn read_u8(bytes: &[u8], off: u64) -> (r: Result<u8, DexError>)
    ensures
        r == spec_read_u8(bytes@, off as int),
{
    let len = bytes.len() as u64;
    if off >= len {
        return Err(DexError::Read { offset: off, size: 1, len });
    }
    Ok(bytes[off as usize])
}

} // verus!
