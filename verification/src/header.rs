use vstd::prelude::*;

use crate::error::DexError;
use crate::read::{read_error, read_u32, read_u8, spec_u32, Endian};

verus! {

/// Size in bytes of the DEX header.
pub const HEADER_SIZE: u64 = 112;

/// Dex file header
pub struct Header {
    /// Magic value that must appear at the beginning of the header section
    /// Contains dex\n<version>\0
    magic: [u8; 8],
    /// Adler32 checksum of the rest of the file (everything but magic and this field)
    checksum: u32,
    /// SHA-1 signature of the rest of the file (everything but magic, checksum, and this field)
    signature: [u8; 20],
    /// Size of the entire file (including the header), in bytes.
    file_size: u32,
    /// Size of the header in bytes. Usually 0x70.
    header_size: u32,
    /// Endianness tag
    endian_tag: [u8; 4],
    /// Size of the link section, or 0 if this file isn't statically linked
    link_size: u32,
    /// Offset from the start of the file to the link section
    link_off: u32,
    /// Offset from the start of the file to the map item.
    map_off: u32,
    /// Count of strings in the string identifiers list.
    string_ids_size: u32,
    /// Offset from the start of the file to the string identifiers list
    string_ids_off: u32,
    /// Count of elements in the type identifiers list, at most 65535.
    type_ids_size: u32,
    /// Offset from the start of the file to the type identifiers list
    type_ids_off: u32,
    /// Count of elements in the prototype identifiers list, at most 65535.
    proto_ids_size: u32,
    /// Offset from the start of the file to the prototype identifiers list.
    proto_ids_off: u32,
    /// Count of elements in the field identifiers list
    field_ids_size: u32,
    /// Offset from the start of the file to the field identifiers list
    field_ids_off: u32,
    /// Count of elements in the method identifiers list
    method_ids_size: u32,
    /// Offset from the start of the file to the method identifiers list.
    method_ids_off: u32,
    /// Count of elements in the class definitions list
    class_defs_size: u32,
    /// Offset from the start of the file to the class definitions list.
    class_defs_off: u32,
    /// Size of data section in bytes. Must be an even multiple of sizeof(uint).
    data_size: u32,
    /// Offset from the start of the file to the start of the data section.
    data_off: u32,
}

/// The contents of a header, with its byte arrays as sequences.
pub struct HeaderView {
    pub magic: Seq<u8>,
    pub checksum: u32,
    pub signature: Seq<u8>,
    pub file_size: u32,
    pub header_size: u32,
    pub endian_tag: Seq<u8>,
    pub link_size: u32,
    pub link_off: u32,
    pub map_off: u32,
    pub string_ids_size: u32,
    pub string_ids_off: u32,
    pub type_ids_size: u32,
    pub type_ids_off: u32,
    pub proto_ids_size: u32,
    pub proto_ids_off: u32,
    pub field_ids_size: u32,
    pub field_ids_off: u32,
    pub method_ids_size: u32,
    pub method_ids_off: u32,
    pub class_defs_size: u32,
    pub class_defs_off: u32,
    pub data_size: u32,
    pub data_off: u32,
}

impl View for Header {
    type V = HeaderView;

    closed spec fn view(&self) -> HeaderView {
        HeaderView {
            magic: self.magic@,
            checksum: self.checksum,
            signature: self.signature@,
            file_size: self.file_size,
            header_size: self.header_size,
            endian_tag: self.endian_tag@,
            link_size: self.link_size,
            link_off: self.link_off,
            map_off: self.map_off,
            string_ids_size: self.string_ids_size,
            string_ids_off: self.string_ids_off,
            type_ids_size: self.type_ids_size,
            type_ids_off: self.type_ids_off,
            proto_ids_size: self.proto_ids_size,
            proto_ids_off: self.proto_ids_off,
            field_ids_size: self.field_ids_size,
            field_ids_off: self.field_ids_off,
            method_ids_size: self.method_ids_size,
            method_ids_off: self.method_ids_off,
            class_defs_size: self.class_defs_size,
            class_defs_off: self.class_defs_off,
            data_size: self.data_size,
            data_off: self.data_off,
        }
    }
}

/// The header stored at the start of `b`, read with byte order `e`
/// (meaningful when `b` holds at least `HEADER_SIZE` bytes).
pub open spec fn spec_header(b: Seq<u8>, e: Endian) -> HeaderView {
    HeaderView {
        magic: b.subrange(0, 8),
        checksum: spec_u32(b, 8, e),
        signature: b.subrange(12, 32),
        file_size: spec_u32(b, 32, e),
        header_size: spec_u32(b, 36, e),
        endian_tag: b.subrange(40, 44),
        link_size: spec_u32(b, 44, e),
        link_off: spec_u32(b, 48, e),
        map_off: spec_u32(b, 52, e),
        string_ids_size: spec_u32(b, 56, e),
        string_ids_off: spec_u32(b, 60, e),
        type_ids_size: spec_u32(b, 64, e),
        type_ids_off: spec_u32(b, 68, e),
        proto_ids_size: spec_u32(b, 72, e),
        proto_ids_off: spec_u32(b, 76, e),
        field_ids_size: spec_u32(b, 80, e),
        field_ids_off: spec_u32(b, 84, e),
        method_ids_size: spec_u32(b, 88, e),
        method_ids_off: spec_u32(b, 92, e),
        class_defs_size: spec_u32(b, 96, e),
        class_defs_off: spec_u32(b, 100, e),
        data_size: spec_u32(b, 104, e),
        data_off: spec_u32(b, 108, e),
    }
}

/// The offset and size of the first field of the header that does not fit in a file of
/// `len` bytes (`len < HEADER_SIZE`). The byte arrays are read one byte at a time, the
/// other fields as four-byte integers.
pub open spec fn header_short_field(len: int) -> (int, int) {
    if len < 8 {
        (len, 1)
    } else if len < 12 {
        (8, 4)
    } else if len < 32 {
        (len, 1)
    } else if len < 40 {
        (32 + 4 * ((len - 32) / 4), 4)
    } else if len < 44 {
        (len, 1)
    } else {
        (44 + 4 * ((len - 44) / 4), 4)
    }
}

/// Reading the header at the start of `b` with byte order `e`.
pub open spec fn spec_parse_header(b: Seq<u8>, e: Endian) -> Result<HeaderView, DexError> {
    if b.len() >= HEADER_SIZE {
        Ok(spec_header(b, e))
    } else {
        let (off, size) = header_short_field(b.len() as int);
        Err(read_error(b, off, size))
    }
}

/// Reads the four-byte fields at offsets `from`, `from + 4`, ... below `to`; each read
/// must succeed before the next one is tried.
fn check_u32_fields(bytes: &[u8], from: u64, to: u64, endian: Endian) -> (r: Result<(), DexError>)
    requires
        from <= to <= HEADER_SIZE,
        from <= bytes@.len(),
        (to - from) % 4 == 0,
    ensures
        r is Ok <==> to <= bytes@.len(),
        r matches Err(e) ==> e == read_error(bytes@, from + 4 * ((bytes@.len() - from) / 4), 4),
    decreases to - from,
{
    if from == to {
        return Ok(());
    }
    let _ = read_u32(bytes, from, endian)?;
    check_u32_fields(bytes, from + 4, to, endian)
}

/// Checks that the `n` bytes at `from` are inside `bytes`, reading them in order.
fn check_bytes(bytes: &[u8], from: u64, n: u64) -> (r: Result<(), DexError>)
    requires
        from + n <= HEADER_SIZE,
        from <= bytes@.len(),
    ensures
        r is Ok <==> from + n <= bytes@.len(),
        r matches Err(e) ==> e == read_error(bytes@, bytes@.len() as int, 1),
{
    if (bytes.len() as u64) < from + n {
        let _ = read_u8(bytes, bytes.len() as u64)?;
    }
    Ok(())
}

impl Header {
    /// Reads the header at the start of `bytes`, its integers in byte order `endian`.
    /// The fields are read in order, and the first that runs past the end of `bytes`
    /// gives the error.
    pub fn try_from_bytes(bytes: &[u8], endian: Endian) -> (r: Result<Header, DexError>)
        ensures
            r is Ok <==> spec_parse_header(bytes@, endian) is Ok,
            r matches Ok(h) ==> h@ == spec_header(bytes@, endian),
            r matches Err(e) ==> (spec_parse_header(bytes@, endian) == Err::<HeaderView, DexError>(e)),
    {
        let b = bytes;
        check_bytes(b, 0, 8)?;
        check_u32_fields(b, 8, 12, endian)?;
        check_bytes(b, 12, 20)?;
        check_u32_fields(b, 32, 40, endian)?;
        check_bytes(b, 40, 4)?;
        check_u32_fields(b, 44, HEADER_SIZE, endian)?;
        let h = Header {
            magic: [b[0], b[1], b[2], b[3], b[4], b[5], b[6], b[7]],
            checksum: read_u32(b, 8, endian)?,
            signature: [
                b[12], b[13], b[14], b[15], b[16], b[17], b[18], b[19], b[20], b[21],
                b[22], b[23], b[24], b[25], b[26], b[27], b[28], b[29], b[30], b[31],
            ],
            file_size: read_u32(b, 32, endian)?,
            header_size: read_u32(b, 36, endian)?,
            endian_tag: [b[40], b[41], b[42], b[43]],
            link_size: read_u32(b, 44, endian)?,
            link_off: read_u32(b, 48, endian)?,
            map_off: read_u32(b, 52, endian)?,
            string_ids_size: read_u32(b, 56, endian)?,
            string_ids_off: read_u32(b, 60, endian)?,
            type_ids_size: read_u32(b, 64, endian)?,
            type_ids_off: read_u32(b, 68, endian)?,
            proto_ids_size: read_u32(b, 72, endian)?,
            proto_ids_off: read_u32(b, 76, endian)?,
            field_ids_size: read_u32(b, 80, endian)?,
            field_ids_off: read_u32(b, 84, endian)?,
            method_ids_size: read_u32(b, 88, endian)?,
            method_ids_off: read_u32(b, 92, endian)?,
            class_defs_size: read_u32(b, 96, endian)?,
            class_defs_off: read_u32(b, 100, endian)?,
            data_size: read_u32(b, 104, endian)?,
            data_off: read_u32(b, 108, endian)?,
        };
        assert(h@.magic =~= b@.subrange(0, 8));
        assert(h@.signature =~= b@.subrange(12, 32));
        assert(h@.endian_tag =~= b@.subrange(40, 44));
        Ok(h)
    }
}

impl Header {
    /// The `magic` field of the header.
    pub fn magic(&self) -> (r: [u8; 8])
        ensures
            r@ == self@.magic,
    {
        self.magic
    }

    /// The `checksum` field of the header.
    pub fn checksum(&self) -> (r: u32)
        ensures
            r == self@.checksum,
    {
        self.checksum
    }

    /// The `signature` field of the header.
    pub fn signature(&self) -> (r: [u8; 20])
        ensures
            r@ == self@.signature,
    {
        self.signature
    }

    /// The `file_size` field of the header.
    pub fn file_size(&self) -> (r: u32)
        ensures
            r == self@.file_size,
    {
        self.file_size
    }

    /// The `header_size` field of the header.
    pub fn header_size(&self) -> (r: u32)
        ensures
            r == self@.header_size,
    {
        self.header_size
    }

    /// The `endian_tag` field of the header.
    pub fn endian_tag(&self) -> (r: [u8; 4])
        ensures
            r@ == self@.endian_tag,
    {
        self.endian_tag
    }

    /// The `link_size` field of the header.
    pub fn link_size(&self) -> (r: u32)
        ensures
            r == self@.link_size,
    {
        self.link_size
    }

    /// The `link_off` field of the header.
    pub fn link_off(&self) -> (r: u32)
        ensures
            r == self@.link_off,
    {
        self.link_off
    }

    /// The `map_off` field of the header.
    pub fn map_off(&self) -> (r: u32)
        ensures
            r == self@.map_off,
    {
        self.map_off
    }

    /// The `string_ids_size` field of the header.
    pub fn string_ids_size(&self) -> (r: u32)
        ensures
            r == self@.string_ids_size,
    {
        self.string_ids_size
    }

    /// The `string_ids_off` field of the header.
    pub fn string_ids_off(&self) -> (r: u32)
        ensures
            r == self@.string_ids_off,
    {
        self.string_ids_off
    }

    /// The `type_ids_size` field of the header.
    pub fn type_ids_size(&self) -> (r: u32)
        ensures
            r == self@.type_ids_size,
    {
        self.type_ids_size
    }

    /// The `type_ids_off` field of the header.
    pub fn type_ids_off(&self) -> (r: u32)
        ensures
            r == self@.type_ids_off,
    {
        self.type_ids_off
    }

    /// The `proto_ids_size` field of the header.
    pub fn proto_ids_size(&self) -> (r: u32)
        ensures
            r == self@.proto_ids_size,
    {
        self.proto_ids_size
    }

    /// The `proto_ids_off` field of the header.
    pub fn proto_ids_off(&self) -> (r: u32)
        ensures
            r == self@.proto_ids_off,
    {
        self.proto_ids_off
    }

    /// The `field_ids_size` field of the header.
    pub fn field_ids_size(&self) -> (r: u32)
        ensures
            r == self@.field_ids_size,
    {
        self.field_ids_size
    }

    /// The `field_ids_off` field of the header.
    pub fn field_ids_off(&self) -> (r: u32)
        ensures
            r == self@.field_ids_off,
    {
        self.field_ids_off
    }

    /// The `method_ids_size` field of the header.
    pub fn method_ids_size(&self) -> (r: u32)
        ensures
            r == self@.method_ids_size,
    {
        self.method_ids_size
    }

    /// The `method_ids_off` field of the header.
    pub fn method_ids_off(&self) -> (r: u32)
        ensures
            r == self@.method_ids_off,
    {
        self.method_ids_off
    }

    /// The `class_defs_size` field of the header.
    pub fn class_defs_size(&self) -> (r: u32)
        ensures
            r == self@.class_defs_size,
    {
        self.class_defs_size
    }

    /// The `class_defs_off` field of the header.
    pub fn class_defs_off(&self) -> (r: u32)
        ensures
            r == self@.class_defs_off,
    {
        self.class_defs_off
    }

    /// The `data_size` field of the header.
    pub fn data_size(&self) -> (r: u32)
        ensures
            r == self@.data_size,
    {
        self.data_size
    }

    /// The `data_off` field of the header.
    pub fn data_off(&self) -> (r: u32)
        ensures
            r == self@.data_off,
    {
        self.data_off
    }
}

} // verus!
