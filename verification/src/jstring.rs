use vstd::prelude::*;

use crate::error::{DexError, Malformed};
use crate::read::read_error;

verus! {

/// The weight of the `k`-th group of seven bits of an unsigned LEB128 number.
pub open spec fn uleb128_weight(k: int) -> int {
    if k == 0 {
        1
    } else if k == 1 {
        128
    } else if k == 2 {
        16384
    } else if k == 3 {
        2097152
    } else {
        268435456
    }
}

/// Decoding the unsigned LEB128 number at byte offset `p` of `b`, its first `k` bytes
/// having given `acc`: the value and the number of bytes it takes. A number takes at most
/// five bytes; the last byte is the first one below 0x80. A number that runs past the end
/// of `b` is a failed read of its first `k + 1` bytes.
pub open spec fn spec_uleb128_from(b: Seq<u8>, p: int, k: int, acc: int) -> Result<(u64, int), DexError>
    decreases 5 - k,
{
    if k >= 5 {
        Err(DexError::MalFormed(Malformed::Uleb128TooLong))
    } else if p + k >= b.len() {
        Err(read_error(b, p, k + 1))
    } else {
        let byte = b[p + k];
        let acc2 = acc + (byte % 128) * uleb128_weight(k);
        if byte < 128 {
            Ok((acc2 as u64, k + 1))
        } else {
            spec_uleb128_from(b, p, k + 1, acc2)
        }
    }
}

/// Decoding the unsigned LEB128 number at byte offset `p` of `b`.
pub open spec fn spec_uleb128(b: Seq<u8>, p: int) -> Result<(u64, int), DexError> {
    spec_uleb128_from(b, p, 0, 0)
}

/// A decoded number takes one to five bytes, all inside `b`.
pub proof fn lemma_uleb128_bounds(b: Seq<u8>, p: int)
    ensures
        spec_uleb128(b, p) matches Ok((v, k)) ==> 1 <= k <= 5 && p + k <= b.len(),
{
    lemma_uleb128_from_bounds(b, p, 0, 0);
}

proof fn lemma_uleb128_from_bounds(b: Seq<u8>, p: int, k: int, acc: int)
    requires
        0 <= k,
    ensures
        spec_uleb128_from(b, p, k, acc) matches Ok((v, n)) ==> k + 1 <= n <= 5 && p + n <= b.len(),
    decreases 5 - k,
{
    if k < 5 && p + k < b.len() {
        let byte = b[p + k];
        if byte >= 128 {
            lemma_uleb128_from_bounds(b, p, k + 1, acc + (byte % 128) * uleb128_weight(k));
        }
    }
}

/// The index of the first NUL byte of `b` at or after `i`, or the length of `b` if there is none.
pub open spec fn spec_nul_from(b: Seq<u8>, i: int) -> int
    decreases b.len() - i,
{
    if i >= b.len() {
        b.len() as int
    } else if b[i] == 0 {
        i
    } else {
        spec_nul_from(b, i + 1)
    }
}

/// The contents of a string: its length in UTF-16 code units, as the file states it, and
/// its MUTF-8 bytes without the terminating NUL.
pub struct JStringView {
    pub utf16_size: u64,
    pub data: Seq<u8>,
}

/// Reading the `string_data_item` at byte offset `p` of `b`: an unsigned LEB128 length in
/// UTF-16 code units, then the MUTF-8 bytes up to a NUL byte.
pub open spec fn spec_string_data(b: Seq<u8>, p: int) -> Result<JStringView, DexError> {
    match spec_uleb128(b, p) {
        Err(e) => Err(e),
        Ok((v, n)) => {
            let s = p + n;
            let k = spec_nul_from(b, s);
            if k >= b.len() {
                Err(DexError::MalFormed(Malformed::UnterminatedString))
            } else {
                Ok(JStringView { utf16_size: v, data: b.subrange(s, k) })
            }
        },
    }
}

/// A string of a DEX file, kept as its MUTF-8 bytes.
pub struct JString {
    utf16_size: u64,
    data: Vec<u8>,
}

impl View for JString {
    type V = JStringView;

    closed spec fn view(&self) -> JStringView {
        JStringView { utf16_size: self.utf16_size, data: self.data@ }
    }
}

impl JString {
    /// The length of the string in UTF-16 code units, as the file states it.
    pub fn utf16_size(&self) -> (r: u64)
        ensures
            r == self@.utf16_size,
    {
        self.utf16_size
    }

    /// The MUTF-8 bytes of the string, without the terminating NUL.
    pub fn as_bytes(&self) -> (r: &[u8])
        ensures
            r@ == self@.data,
    {
        self.data.as_slice()
    }
}

/// Decodes the unsigned LEB128 number at byte offset `p` of `bytes`.
pub fn read_uleb128(bytes: &[u8], p: u64) -> (r: Result<(u64, u64), DexError>)
    ensures
        r matches Ok((v, n)) ==> spec_uleb128(bytes@, p as int) == Ok::<(u64, int), DexError>((v, n as int)),
        r matches Ok((v, n)) ==> 1 <= n <= 5 && p + n <= bytes@.len(),
        r matches Err(e) ==> spec_uleb128(bytes@, p as int) == Err::<(u64, int), DexError>(e),
{
    let len = bytes.len() as u64;
    let mut acc: u64 = 0;
    let mut k: u64 = 0;
    let mut weight: u64 = 1;
    while k < 5
        invariant
            k <= 5,
            k < 5 ==> weight == uleb128_weight(k as int),
            k < 5 ==> acc < weight,
            k == 5 ==> acc < 34359738368,
            len == bytes@.len(),
            spec_uleb128(bytes@, p as int) == spec_uleb128_from(bytes@, p as int, k as int, acc as int),
        decreases 5 - k,
    {
        if p >= len || k >= len - p {
            return Err(DexError::Read { offset: p, size: k + 1, len });
        }
        let byte = bytes[(p + k) as usize];
        let low = (byte % 128) as u64;
        assert(low * weight <= 127 * weight) by (nonlinear_arith)
            requires
                low <= 127,
        ;
        let acc2 = acc + low * weight;
        if byte < 128 {
            return Ok((acc2, k + 1));
        }
        acc = acc2;
        k = k + 1;
        if k < 5 {
            weight = weight * 128;
        }
    }
    Err(DexError::MalFormed(Malformed::Uleb128TooLong))
}

/// Reads the string data item at byte offset `p` of `bytes`.
pub fn read_string_data(bytes: &[u8], p: u64) -> (r: Result<JString, DexError>)
    ensures
        r matches Ok(s) ==> spec_string_data(bytes@, p as int) == Ok::<JStringView, DexError>(s@),
        r matches Err(e) ==> spec_string_data(bytes@, p as int) == Err::<JStringView, DexError>(e),
{
    let (utf16_size, n) = read_uleb128(bytes, p)?;
    let len = bytes.len() as u64;
    let start = p + n;
    let mut data: Vec<u8> = Vec::new();
    let mut i = start;
    while i < len && bytes[i as usize] != 0
        invariant
            start <= i,
            len == bytes@.len(),
            start == p + n,
            i <= len || i == start,
            spec_nul_from(bytes@, start as int) == spec_nul_from(bytes@, i as int),
            data@ == bytes@.subrange(start as int, i as int) || i > len,
            i <= len ==> data@ == bytes@.subrange(start as int, i as int),
        decreases len - i,
    {
        data.push(bytes[i as usize]);
        i = i + 1;
    }
    if i >= len {
        return Err(DexError::MalFormed(Malformed::UnterminatedString));
    }
    Ok(JString { utf16_size, data })
}

} // verus!
