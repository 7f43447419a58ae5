use vstd::prelude::*;

use crate::error::{DexError, InvalidId};
use crate::read::{read_u16, read_u32, spec_read_u16, spec_read_u32, Endian};

verus! {

/// ItemType that appear in MapList
#[derive(Debug, Clone, Copy, PartialEq, Eq, Structural)]
pub enum ItemType {
    Header,
    StringIdItem,
    TypeIdItem,
    ProtoIdItem,
    FieldIdItem,
    MethodIdItem,
    ClassDefItem,
    CallSiteIdItem,
    MethodHandleItem,
    MapList,
    TypeList,
    AnnotationSetRefList,
    AnnotationSetItem,
    ClassDataItem,
    CodeItem,
    StringDataItem,
    DebugInfoItem,
    AnnotationItem,
    EncodedArrayItem,
    AnnotationsDirectoryItem,
}

impl ItemType {
    /// The code of an item type in a map list.
    pub open spec fn spec_code(self) -> u16 {
        match self {
            ItemType::Header => 0x0,
            ItemType::StringIdItem => 0x1,
            ItemType::TypeIdItem => 0x2,
            ItemType::ProtoIdItem => 0x3,
            ItemType::FieldIdItem => 0x4,
            ItemType::MethodIdItem => 0x5,
            ItemType::ClassDefItem => 0x6,
            ItemType::CallSiteIdItem => 0x7,
            ItemType::MethodHandleItem => 0x8,
            ItemType::MapList => 0x1000,
            ItemType::TypeList => 0x1001,
            ItemType::AnnotationSetRefList => 0x1002,
            ItemType::AnnotationSetItem => 0x1003,
            ItemType::ClassDataItem => 0x2000,
            ItemType::CodeItem => 0x2001,
            ItemType::StringDataItem => 0x2002,
            ItemType::DebugInfoItem => 0x2003,
            ItemType::AnnotationItem => 0x2004,
            ItemType::EncodedArrayItem => 0x2005,
            ItemType::AnnotationsDirectoryItem => 0x2006,
        }
    }

    /// The item type with code `v`, if there is one.
    pub open spec fn spec_from_u16(v: u16) -> Option<ItemType> {
        if v == 0x0 {
            Some(ItemType::Header)
        } else if v == 0x1 {
            Some(ItemType::StringIdItem)
        } else if v == 0x2 {
            Some(ItemType::TypeIdItem)
        } else if v == 0x3 {
            Some(ItemType::ProtoIdItem)
        } else if v == 0x4 {
            Some(ItemType::FieldIdItem)
        } else if v == 0x5 {
            Some(ItemType::MethodIdItem)
        } else if v == 0x6 {
            Some(ItemType::ClassDefItem)
        } else if v == 0x7 {
            Some(ItemType::CallSiteIdItem)
        } else if v == 0x8 {
            Some(ItemType::MethodHandleItem)
        } else if v == 0x1000 {
            Some(ItemType::MapList)
        } else if v == 0x1001 {
            Some(ItemType::TypeList)
        } else if v == 0x1002 {
            Some(ItemType::AnnotationSetRefList)
        } else if v == 0x1003 {
            Some(ItemType::AnnotationSetItem)
        } else if v == 0x2000 {
            Some(ItemType::ClassDataItem)
        } else if v == 0x2001 {
            Some(ItemType::CodeItem)
        } else if v == 0x2002 {
            Some(ItemType::StringDataItem)
        } else if v == 0x2003 {
            Some(ItemType::DebugInfoItem)
        } else if v == 0x2004 {
            Some(ItemType::AnnotationItem)
        } else if v == 0x2005 {
            Some(ItemType::EncodedArrayItem)
        } else if v == 0x2006 {
            Some(ItemType::AnnotationsDirectoryItem)
        } else {
            None
        }
    }

    /// The code of this item type in a map list.
    pub fn code(&self) -> (r: u16)
        ensures
            r == self.spec_code(),
    {
        match self {
            ItemType::Header => 0x0,
            ItemType::StringIdItem => 0x1,
            ItemType::TypeIdItem => 0x2,
            ItemType::ProtoIdItem => 0x3,
            ItemType::FieldIdItem => 0x4,
            ItemType::MethodIdItem => 0x5,
            ItemType::ClassDefItem => 0x6,
            ItemType::CallSiteIdItem => 0x7,
            ItemType::MethodHandleItem => 0x8,
            ItemType::MapList => 0x1000,
            ItemType::TypeList => 0x1001,
            ItemType::AnnotationSetRefList => 0x1002,
            ItemType::AnnotationSetItem => 0x1003,
            ItemType::ClassDataItem => 0x2000,
            ItemType::CodeItem => 0x2001,
            ItemType::StringDataItem => 0x2002,
            ItemType::DebugInfoItem => 0x2003,
            ItemType::AnnotationItem => 0x2004,
            ItemType::EncodedArrayItem => 0x2005,
            ItemType::AnnotationsDirectoryItem => 0x2006,
        }
    }

    /// The item type whose code is `v`, or `None` where no item type has that code.
    pub fn from_u16(v: u16) -> (r: Option<ItemType>)
        ensures
            r == ItemType::spec_from_u16(v),
    {
        if v == 0x0 {
            Some(ItemType::Header)
        } else if v == 0x1 {
            Some(ItemType::StringIdItem)
        } else if v == 0x2 {
            Some(ItemType::TypeIdItem)
        } else if v == 0x3 {
            Some(ItemType::ProtoIdItem)
        } else if v == 0x4 {
            Some(ItemType::FieldIdItem)
        } else if v == 0x5 {
            Some(ItemType::MethodIdItem)
        } else if v == 0x6 {
            Some(ItemType::ClassDefItem)
        } else if v == 0x7 {
            Some(ItemType::CallSiteIdItem)
        } else if v == 0x8 {
            Some(ItemType::MethodHandleItem)
        } else if v == 0x1000 {
            Some(ItemType::MapList)
        } else if v == 0x1001 {
            Some(ItemType::TypeList)
        } else if v == 0x1002 {
            Some(ItemType::AnnotationSetRefList)
        } else if v == 0x1003 {
            Some(ItemType::AnnotationSetItem)
        } else if v == 0x2000 {
            Some(ItemType::ClassDataItem)
        } else if v == 0x2001 {
            Some(ItemType::CodeItem)
        } else if v == 0x2002 {
            Some(ItemType::StringDataItem)
        } else if v == 0x2003 {
            Some(ItemType::DebugInfoItem)
        } else if v == 0x2004 {
            Some(ItemType::AnnotationItem)
        } else if v == 0x2005 {
            Some(ItemType::EncodedArrayItem)
        } else if v == 0x2006 {
            Some(ItemType::AnnotationsDirectoryItem)
        } else {
            None
        }
    }
}

/// Law: an item type is found again from its code, and a code names at most one item type.
pub proof fn law_item_type_code_roundtrip(t: ItemType, v: u16)
    ensures
        ItemType::spec_from_u16(t.spec_code()) == Some(t),
        ItemType::spec_from_u16(v) == Some(t) ==> t.spec_code() == v,
{
}

/// One entry of the map list: the type, count and file offset of a section.
#[derive(Debug, Clone, Copy, PartialEq, Eq, Structural)]
pub struct MapItem {
    /// Type of the current item
    pub item_type: ItemType,
    /// Count of the number of items to be found at the indicated offset
    pub size: u32,
    /// Offset from the start of the file to the current item type
    pub offset: u32,
}

/// Size in bytes of one map item.
pub const MAP_ITEM_SIZE: u64 = 12;

/// Reading the map item at byte offset `p` of `b`: its type code, an unused `u16`, the
/// count and the offset, in that order; an unknown type code is refused before the rest
/// is read.
pub open spec fn spec_map_item(b: Seq<u8>, p: int, e: Endian) -> Result<MapItem, DexError> {
    match spec_read_u16(b, p, e) {
        Err(err) => Err(err),
        Ok(code) => match ItemType::spec_from_u16(code) {
            None => Err(DexError::InvalidId(InvalidId::MapItemType(code))),
            Some(t) => match spec_read_u16(b, p + 2, e) {
                Err(err) => Err(err),
                Ok(_) => match spec_read_u32(b, p + 4, e) {
                    Err(err) => Err(err),
                    Ok(size) => match spec_read_u32(b, p + 8, e) {
                        Err(err) => Err(err),
                        Ok(offset) => Ok(MapItem { item_type: t, size, offset }),
                    },
                },
            },
        },
    }
}

/// Reading `n` consecutive map items starting at byte offset `start` of `b`; the first
/// item that cannot be read gives the error.
pub open spec fn spec_map_items(b: Seq<u8>, start: int, n: nat, e: Endian) -> Result<
    Seq<MapItem>,
    DexError,
>
    decreases n,
{
    if n == 0 {
        Ok(Seq::empty())
    } else {
        match spec_map_items(b, start, (n - 1) as nat, e) {
            Err(err) => Err(err),
            Ok(items) => match spec_map_item(b, start + 12 * (n - 1), e) {
                Err(err) => Err(err),
                Ok(item) => Ok(items.push(item)),
            },
        }
    }
}

/// Reading the map list at byte offset `off` of `b`: a `u32` count followed by that
/// many map items.
pub open spec fn spec_map_list(b: Seq<u8>, off: int, e: Endian) -> Result<Seq<MapItem>, DexError> {
    match spec_read_u32(b, off, e) {
        Err(err) => Err(err),
        Ok(n) => spec_map_items(b, off + 4, n as nat, e),
    }
}

/// The first map item of type `t` among `items`.
pub open spec fn spec_find_item(items: Seq<MapItem>, t: ItemType) -> Option<MapItem>
    decreases items.len(),
{
    if items.len() == 0 {
        None
    } else if items[0].item_type == t {
        Some(items[0])
    } else {
        spec_find_item(items.drop_first(), t)
    }
}

/// An error while reading the first `i` map items is the error of reading `n >= i` items.
proof fn lemma_map_items_err_prefix(b: Seq<u8>, start: int, i: nat, n: nat, e: Endian)
    requires
        i <= n,
        spec_map_items(b, start, i, e) is Err,
    ensures
        spec_map_items(b, start, n, e) == spec_map_items(b, start, i, e),
    decreases n,
{
    if n > i {
        lemma_map_items_err_prefix(b, start, i, (n - 1) as nat, e);
    }
}

/// Reads one map item at byte offset `p` of `bytes`.
fn read_map_item(bytes: &[u8], p: u64, endian: Endian) -> (r: Result<MapItem, DexError>)
    requires
        p <= bytes@.len(),
    ensures
        r == spec_map_item(bytes@, p as int, endian),
{
    let len: usize = bytes.len();
    assert(bytes@.len() <= u64::MAX);
    let code = read_u16(bytes, p, endian)?;
    let item_type = match ItemType::from_u16(code) {
        Some(t) => t,
        None => return Err(DexError::InvalidId(InvalidId::MapItemType(code))),
    };
    // Each read that succeeded keeps the next offset inside the slice.
    let _ = read_u16(bytes, p + 2, endian)?;
    let size = read_u32(bytes, p + 4, endian)?;
    let offset = read_u32(bytes, p + 8, endian)?;
    Ok(MapItem { item_type, size, offset })
}

/// List of the entire contents of a file, in order. A given type must appear at most
/// once in a map, entries must be ordered by initial offset and must not overlap.
pub struct MapList {
    map_items: Vec<MapItem>,
}

impl View for MapList {
    type V = Seq<MapItem>;

    closed spec fn view(&self) -> Seq<MapItem> {
        self.map_items@
    }
}

impl MapList {
    /// Reads the map list stored at byte offset `off` of `bytes`.
    pub fn try_from_bytes(bytes: &[u8], off: u64, endian: Endian) -> (r: Result<MapList, DexError>)
        ensures
            r is Ok <==> spec_map_list(bytes@, off as int, endian) is Ok,
            r matches Ok(m) ==> (spec_map_list(bytes@, off as int, endian) == Ok::<Seq<MapItem>, DexError>(m@)),
            r matches Err(e) ==> (spec_map_list(bytes@, off as int, endian) == Err::<Seq<MapItem>, DexError>(e)),
    {
        let len = bytes.len() as u64;
        let n = read_u32(bytes, off, endian)?;
        let start = off + 4;
        let mut items: Vec<MapItem> = Vec::new();
        let mut i: u32 = 0;
        while i < n
            invariant
                i <= n,
                start == off + 4,
                off + 4 <= bytes@.len(),
                start + 12 * i <= bytes@.len(),
                len == bytes@.len(),
                spec_map_items(bytes@, start as int, i as nat, endian) == Ok::<Seq<MapItem>, DexError>(items@),
                spec_read_u32(bytes@, off as int, endian) == Ok::<u32, DexError>(n),
            decreases n - i,
        {
            let p = start + 12 * (i as u64);
            let item = match read_map_item(bytes, p, endian) {
                Ok(item) => item,
                Err(e) => {
                    proof {
                        lemma_map_items_err_prefix(bytes@, start as int, (i + 1) as nat, n as nat, endian);
                    }
                    return Err(e);
                },
            };
            items.push(item);
            i = i + 1;
        }
        Ok(MapList { map_items: items })
    }

    /// The first map item of the given type.
    fn get(&self, item_type: ItemType) -> (r: Option<MapItem>)
        ensures
            r == spec_find_item(self@, item_type),
    {
        let mut k: usize = 0;
        assert(self@.skip(0) =~= self@);
        while k < self.map_items.len()
            invariant
                k <= self.map_items@.len(),
                spec_find_item(self@, item_type) == spec_find_item(self@.skip(k as int), item_type),
            decreases self.map_items@.len() - k,
        {
            assert(self@.skip(k as int).drop_first() =~= self@.skip(k + 1));
            if self.map_items[k].item_type == item_type {
                return Some(self.map_items[k]);
            }
            k = k + 1;
        }
        assert(self@.skip(k as int).len() == 0);
        None
    }

    /// The offset of the section of the given type, if the map lists one.
    pub fn get_offset(&self, item_type: ItemType) -> (r: Option<u32>)
        ensures
            r == (match spec_find_item(self@, item_type) {
                Some(it) => Some(it.offset),
                None => None::<u32>,
            }),
    {
        match self.get(item_type) {
            Some(it) => Some(it.offset),
            None => None,
        }
    }

    /// The number of items in the section of the given type, if the map lists one.
    pub fn get_len(&self, item_type: ItemType) -> (r: Option<u32>)
        ensures
            r == (match spec_find_item(self@, item_type) {
                Some(it) => Some(it.size),
                None => None::<u32>,
            }),
    {
        match self.get(item_type) {
            Some(it) => Some(it.size),
            None => None,
        }
    }
}

} // verus!
