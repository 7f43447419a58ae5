use vstd::prelude::*;

verus! {

/// Why a DEX file is structurally unusable.
#[derive(Debug, Clone, Copy, PartialEq, Eq, Structural)]
pub enum Malformed {
    /// The file is not longer than the fixed prefix that holds the endian tag.
    TooShort,
    /// The file does not start with the DEX magic `dex\n<version>\0`.
    BadMagic,
    /// The endian tag is neither the little-endian nor the big-endian constant.
    BadEndianTag,
    /// An unsigned LEB128 number runs over five bytes.
    Uleb128TooLong,
    /// A string's data has no terminating NUL byte before the end of the file.
    UnterminatedString,
    /// A field or method index, summed from the differences of class data, exceeds `u64`.
    IdOverflow,
    /// An encoded value has a type that the format does not define.
    EncodedValueType(u8),
    /// An encoded value's argument is out of range for its type.
    EncodedValueArg(u8),
}

/// Which kind of index was out of range or unknown.
#[derive(Debug, Clone, Copy, PartialEq, Eq, Structural)]
pub enum InvalidId {
    StringId(u32),
    TypeId(u32),
    FieldId(u64),
    ProtoId(u64),
    MethodId(u64),
    MethodHandleId(u32),
    MapItemType(u16),
}

/// Errors produced while reading a DEX file.
#[derive(Debug, Clone, Copy, PartialEq, Eq, Structural)]
pub enum DexError {
    /// A read of `size` bytes at `offset` does not fit in a buffer of `len` bytes.
    Read { offset: u64, size: u64, len: u64 },
    /// The file breaks the DEX format.
    MalFormed(Malformed),
    /// An index does not name an item of the file.
    InvalidId(InvalidId),
}

} // verus!
