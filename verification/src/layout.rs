//! Laws on where each part of a DEX file is read from: the byte offsets of the header's
//! fields and of the items of the id sections, stated over the bytes of the file.
use vstd::prelude::*;

use crate::annotations::spec_annotations_directory;
use crate::dex::{
    spec_class_at, spec_get_field, spec_get_method, spec_get_interfaces, spec_get_types, NO_INDEX, spec_get_field_item, spec_get_method_handle_item, spec_get_method_item, spec_get_proto_item,
    spec_get_string, spec_get_type, spec_class_def_at, spec_parse_inner, DexView,
    TypeView,
};
use crate::error::{DexError, InvalidId};
use crate::items::{
    spec_u16_run, spec_u32_run, ClassDefItem, FieldIdItem, MethodHandleItem, MethodIdItem,
    ProtoIdItem,
};
use crate::encoded_value::spec_encoded_array;
use crate::class_data::{EncodedField, EncodedMethod};
use crate::jstring::{spec_nul_from, spec_string_data, spec_uleb128};
use crate::map::{law_item_type_code_roundtrip, spec_find_item, spec_map_items, spec_map_list, ItemType};
use crate::code::{spec_code_item, spec_try_items, TryItem};
use crate::read::{spec_u16, spec_u32, Endian};

verus! {

/// Law: field id `i` of the section is the eight bytes at `field_ids_off + 8 * i`: the
/// class index is the `u16` there, the type index the `u16` at `+ 2` and the name index
/// the `u32` at `+ 4`, in the file's byte order. An item that runs past the end of the file
/// is an error, and so is an id past the section.
pub proof fn law_field_item_layout(d: DexView, i: u64)
    ensures
        ({
            let b = d.bytes;
            let o = d.header.field_ids_off + 8 * i;
            &&& i < d.header.field_ids_size && o + 8 <= b.len() ==> spec_get_field_item(d, i)
                == Ok::<FieldIdItem, DexError>(
                FieldIdItem {
                    class_idx: spec_u16(b, o, d.endian),
                    type_idx: spec_u16(b, o + 2, d.endian),
                    name_idx: spec_u32(b, o + 4, d.endian),
                },
            )
            &&& i < d.header.field_ids_size && o + 8 > b.len() ==> spec_get_field_item(d, i) is Err
            &&& i >= d.header.field_ids_size ==> spec_get_field_item(d, i) == Err::<FieldIdItem, DexError>(
                DexError::InvalidId(InvalidId::FieldId(i)),
            )
        }),
{
}

/// Law: method id `i` of the section is the eight bytes at `method_ids_off + 8 * i`: the
/// class index is the `u16` there, the prototype index the `u16` at `+ 2` and the name
/// index the `u32` at `+ 4`, in the file's byte order. An item that runs past the end of
/// the file is an error, and so is an id past the section.
pub proof fn law_method_item_layout(d: DexView, i: u64)
    ensures
        ({
            let b = d.bytes;
            let o = d.header.method_ids_off + 8 * i;
            &&& i < d.header.method_ids_size && o + 8 <= b.len() ==> spec_get_method_item(d, i)
                == Ok::<MethodIdItem, DexError>(
                MethodIdItem {
                    class_idx: spec_u16(b, o, d.endian),
                    proto_idx: spec_u16(b, o + 2, d.endian),
                    name_idx: spec_u32(b, o + 4, d.endian),
                },
            )
            &&& i < d.header.method_ids_size && o + 8 > b.len() ==> spec_get_method_item(d, i) is Err
            &&& i >= d.header.method_ids_size ==> spec_get_method_item(d, i) == Err::<MethodIdItem, DexError>(
                DexError::InvalidId(InvalidId::MethodId(i)),
            )
        }),
{
}

/// Law: proto id `i` of the section is the three `u32`s at `proto_ids_off + 12 * i`,
/// `+ 4` and `+ 8`: the shorty's string index, the return type's index and the offset of
/// the parameter list, in the file's byte order. An item that runs past the end of the file
/// is an error, and so is an id past the section.
pub proof fn law_proto_item_layout(d: DexView, i: u64)
    ensures
        ({
            let b = d.bytes;
            let o = d.header.proto_ids_off + 12 * i;
            &&& i < d.header.proto_ids_size && o + 12 <= b.len() ==> spec_get_proto_item(d, i)
                == Ok::<ProtoIdItem, DexError>(
                ProtoIdItem {
                    shorty: spec_u32(b, o, d.endian),
                    return_type: spec_u32(b, o + 4, d.endian),
                    params_off: spec_u32(b, o + 8, d.endian),
                },
            )
            &&& i < d.header.proto_ids_size && o + 12 > b.len() ==> spec_get_proto_item(d, i) is Err
            &&& i >= d.header.proto_ids_size ==> spec_get_proto_item(d, i) == Err::<ProtoIdItem, DexError>(
                DexError::InvalidId(InvalidId::ProtoId(i)),
            )
        }),
{
}

/// Law: method handle `i` is the eight bytes at `8 * i` past the start of the method
/// handles that the map list names: its kind is the `u16` there and the field or method it
/// refers to the `u16` at `+ 4`. Without such an entry in the map list, or for an id past
/// its count, the id is refused.
pub proof fn law_method_handle_item_layout(d: DexView, i: u32)
    ensures
        ({
            let b = d.bytes;
            match spec_find_item(d.map_items, ItemType::MethodHandleItem) {
                None => spec_get_method_handle_item(d, i) == Err::<MethodHandleItem, DexError>(
                    DexError::InvalidId(InvalidId::MethodHandleId(i)),
                ),
                Some(it) => {
                    let o = it.offset + 8 * i;
                    &&& i < it.size && o + 8 <= b.len() ==> spec_get_method_handle_item(d, i)
                        == Ok::<MethodHandleItem, DexError>(
                        MethodHandleItem {
                            handle_type: spec_u16(b, o, d.endian),
                            field_or_method_id: spec_u16(b, o + 4, d.endian),
                        },
                    )
                    &&& i >= it.size ==> spec_get_method_handle_item(d, i) == Err::<
                        MethodHandleItem,
                        DexError,
                    >(DexError::InvalidId(InvalidId::MethodHandleId(i)))
                },
            }
        }),
{
    if let Some(it) = spec_find_item(d.map_items, ItemType::MethodHandleItem) {
        let o = it.offset + 8 * i;
        if i < it.size && o + 8 <= d.bytes.len() {
            reveal_with_fuel(spec_u16_run, 5);
            let s = spec_u16_run(d.bytes, o, 4, d.endian)->Ok_0;
            assert(s[0] == spec_u16(d.bytes, o, d.endian));
            assert(s[2] == spec_u16(d.bytes, o + 4, d.endian));
        }
    }
}

/// Law: class definition `k` is the 32 bytes at `class_defs_off + 32 * k`, eight `u32`s in
/// the file's byte order: class index, access flags, superclass index, interfaces offset,
/// source file index, annotations offset, class data offset and static values offset.
pub proof fn law_class_def_layout(d: DexView, k: int)
    requires
        0 <= k,
    ensures
        ({
            let b = d.bytes;
            let e = d.endian;
            let o = d.header.class_defs_off + 32 * k;
            &&& o + 32 <= b.len() ==> spec_class_def_at(d, k) == Ok::<ClassDefItem, DexError>(
                ClassDefItem {
                    class_idx: spec_u32(b, o, e),
                    access_flags: spec_u32(b, o + 4, e),
                    superclass_idx: spec_u32(b, o + 8, e),
                    interfaces_off: spec_u32(b, o + 12, e),
                    source_file_idx: spec_u32(b, o + 16, e),
                    annotations_off: spec_u32(b, o + 20, e),
                    class_data_off: spec_u32(b, o + 24, e),
                    static_values_off: spec_u32(b, o + 28, e),
                },
            )
            &&& o + 32 > b.len() ==> spec_class_def_at(d, k) is Err
        }),
{
    let o = d.header.class_defs_off + 32 * k;
    reveal_with_fuel(spec_u32_run, 9);
    if o + 32 <= d.bytes.len() {
        let s = spec_u32_run(d.bytes, o, 8, d.endian);
        assert(s is Ok);
    } else {
        let s = spec_u32_run(d.bytes, o, 8, d.endian);
        assert(s is Err);
    }
}

/// Law: the string with id `i` is the string data at the offset stored as the `u32` at
/// `string_ids_off + 4 * i`, in the file's byte order.
pub proof fn law_string_layout(d: DexView, i: u32)
    ensures
        ({
            let o = d.header.string_ids_off + 4 * i;
            i < d.header.string_ids_size && o + 4 <= d.bytes.len() ==> spec_get_string(d, i)
                == spec_string_data(d.bytes, spec_u32(d.bytes, o, d.endian) as int)
        }),
{
}

/// Law: the type with id `t` is `t` together with the string whose id is stored as the
/// `u32` at `type_ids_off + 4 * t`, in the file's byte order.
pub proof fn law_type_layout(d: DexView, t: u32)
    ensures
        ({
            let o = d.header.type_ids_off + 4 * t;
            let sid = spec_u32(d.bytes, o, d.endian);
            &&& t < d.header.type_ids_size && o + 4 <= d.bytes.len() && spec_get_string(d, sid) is Ok
                ==> spec_get_type(d, t) == Ok::<TypeView, DexError>(
                TypeView { id: t, descriptor: spec_get_string(d, sid)->Ok_0 },
            )
            &&& t < d.header.type_ids_size && o + 4 <= d.bytes.len() && spec_get_string(d, sid) is Err
                ==> spec_get_type(d, t) == Err::<TypeView, DexError>(spec_get_string(d, sid)->Err_0)
            &&& t >= d.header.type_ids_size ==> spec_get_type(d, t) == Err::<TypeView, DexError>(
                DexError::InvalidId(InvalidId::TypeId(t)),
            )
        }),
{
}

/// Law: a file that opens is longer than 111 bytes, starts with `dex\n` and has a NUL at
/// byte 7, is read in the byte order its endian tag at bytes 40..44 announces, and its
/// header holds, field after field, the magic (bytes 0..8), the checksum (`u32` at 8), the
/// signature (bytes 12..32), then `u32`s at 32, 36, the endian tag (bytes 40..44), then
/// `u32`s at 44, 48, ..., 108.
pub proof fn law_header_layout(b: Seq<u8>)
    ensures
        spec_parse_inner(b) matches Ok(v) ==> ({
            let e = v.endian;
            let h = v.header;
            &&& b.len() >= 112
            &&& b[0] == 0x64u8 && b[1] == 0x65u8 && b[2] == 0x78u8 && b[3] == 0x0au8 && b[7] == 0u8
            &&& (e == Endian::Little <==> (b[40] == 0x78u8 && b[41] == 0x56u8 && b[42] == 0x34u8
                && b[43] == 0x12u8))
            &&& (e == Endian::Big <==> (b[40] == 0x12u8 && b[41] == 0x34u8 && b[42] == 0x56u8
                && b[43] == 0x78u8))
            &&& h.magic == b.subrange(0, 8)
            &&& h.checksum == spec_u32(b, 8, e)
            &&& h.signature == b.subrange(12, 32)
            &&& h.file_size == spec_u32(b, 32, e)
            &&& h.header_size == spec_u32(b, 36, e)
            &&& h.endian_tag == b.subrange(40, 44)
            &&& h.link_size == spec_u32(b, 44, e)
            &&& h.link_off == spec_u32(b, 48, e)
            &&& h.map_off == spec_u32(b, 52, e)
            &&& h.string_ids_size == spec_u32(b, 56, e)
            &&& h.string_ids_off == spec_u32(b, 60, e)
            &&& h.type_ids_size == spec_u32(b, 64, e)
            &&& h.type_ids_off == spec_u32(b, 68, e)
            &&& h.proto_ids_size == spec_u32(b, 72, e)
            &&& h.proto_ids_off == spec_u32(b, 76, e)
            &&& h.field_ids_size == spec_u32(b, 80, e)
            &&& h.field_ids_off == spec_u32(b, 84, e)
            &&& h.method_ids_size == spec_u32(b, 88, e)
            &&& h.method_ids_off == spec_u32(b, 92, e)
            &&& h.class_defs_size == spec_u32(b, 96, e)
            &&& h.class_defs_off == spec_u32(b, 100, e)
            &&& h.data_size == spec_u32(b, 104, e)
            &&& h.data_off == spec_u32(b, 108, e)
        }),
{
}

/// `n` `u16`s read one after another from `p` are the `u16`s at `p`, `p + 2`, ...
proof fn lemma_u16_run_values(b: Seq<u8>, p: int, n: nat, e: Endian)
    ensures
        spec_u16_run(b, p, n, e) matches Ok(s) ==> s.len() == n && forall|j: int|
            0 <= j < n ==> #[trigger] s[j] == spec_u16(b, p + 2 * j, e),
    decreases n,
{
    if n > 0 {
        lemma_u16_run_values(b, p, (n - 1) as nat, e);
    }
}

/// Looking up a list of type ids gives, position by position, the type of each id.
proof fn lemma_types_values(d: DexView, ids: Seq<u16>)
    ensures
        spec_get_types(d, ids) matches Ok(ts) ==> ts.len() == ids.len() && forall|j: int|
            0 <= j < ids.len() ==> spec_get_type(d, ids[j] as u32) == Ok::<TypeView, DexError>(
                #[trigger] ts[j],
            ),
    decreases ids.len(),
{
    if ids.len() > 0 {
        lemma_types_values(d, ids.drop_last());
        if let Ok(ts) = spec_get_types(d, ids) {
            let ts0 = spec_get_types(d, ids.drop_last())->Ok_0;
            assert forall|j: int| 0 <= j < ids.len() implies spec_get_type(d, ids[j] as u32) == Ok::<
                TypeView,
                DexError,
            >(#[trigger] ts[j]) by {
                if j < ids.len() - 1 {
                    assert(ids.drop_last()[j] == ids[j]);
                    assert(ts[j] == ts0[j]);
                }
            }
        }
    }
}

/// Law: a list of interfaces at a nonzero offset `off` holds as many types as the `u32` at
/// `off` says, and interface `j` is the type whose id is the `u16` at `off + 4 + 2 * j`, in
/// the file's byte order. Offset 0 means no list.
pub proof fn law_interfaces_layout(d: DexView, off: u32)
    ensures
        off == 0 ==> spec_get_interfaces(d, off) == Ok::<Option<Seq<TypeView>>, DexError>(None),
        off != 0 ==> (spec_get_interfaces(d, off) matches Ok(r) ==> (r matches Some(ts) && ts.len()
            == spec_u32(d.bytes, off as int, d.endian) && forall|j: int|
            0 <= j < ts.len() ==> spec_get_type(d, spec_u16(d.bytes, off + 4 + 2 * j, d.endian) as u32)
                == Ok::<TypeView, DexError>(#[trigger] ts[j]))),
{
    if off != 0 {
        if let Ok(Some(ts)) = spec_get_interfaces(d, off) {
            let n = spec_u32(d.bytes, off as int, d.endian);
            lemma_u16_run_values(d.bytes, off + 4, n as nat, d.endian);
            let ids = spec_u16_run(d.bytes, off + 4, n as nat, d.endian)->Ok_0;
            lemma_types_values(d, ids);
            assert forall|j: int| 0 <= j < ts.len() implies spec_get_type(
                d,
                spec_u16(d.bytes, off + 4 + 2 * j, d.endian) as u32,
            ) == Ok::<TypeView, DexError>(#[trigger] ts[j]) by {
                assert(ids[j] == spec_u16(d.bytes, off + 4 + 2 * j, d.endian));
            }
        }
    }
}

/// Law: a class read from class definition `k` is built from that definition: its type is
/// the type of the definition's class index; its superclass is the definition's
/// superclass index, or none for `NO_INDEX`; its source file is the string of the
/// definition's source file index, or none for `NO_INDEX`; its interfaces, annotations
/// directory and static values are read at the definition's offsets (the static values as
/// the encoded array there), each absent exactly when its offset is 0. A class whose
/// static values cannot be read is an error.
pub proof fn law_class_parts(d: DexView, k: int)
    ensures
        spec_class_at(d, k) matches Ok(c) ==> ({
            &&& spec_class_def_at(d, k) == Ok::<ClassDefItem, DexError>(c.def)
            &&& spec_get_type(d, c.def.class_idx) == Ok::<TypeView, DexError>(c.jtype)
            &&& c.super_class == (if c.def.superclass_idx == NO_INDEX {
                None::<u32>
            } else {
                Some(c.def.superclass_idx)
            })
            &&& (c.def.source_file_idx == NO_INDEX ==> c.source_file is None)
            &&& (c.def.source_file_idx != NO_INDEX ==> (spec_get_string(d, c.def.source_file_idx) matches Ok(s)
                && c.source_file == Some(s)))
            &&& (c.def.interfaces_off == 0 <==> c.interfaces is None)
            &&& spec_get_interfaces(d, c.def.interfaces_off) == Ok::<Option<Seq<TypeView>>, DexError>(c.interfaces)
            &&& (c.def.annotations_off == 0 ==> c.annotations is None)
            &&& (c.def.annotations_off != 0 ==> (spec_annotations_directory(
                d.bytes,
                c.def.annotations_off as int,
                d.endian,
            ) matches Ok(a) && c.annotations == Some(a)))
            &&& (c.def.static_values_off == 0 ==> c.static_values is None)
            &&& (c.def.static_values_off != 0 ==> (spec_encoded_array(d.bytes, c.def.static_values_off as int) matches Ok(
                a,
            ) && c.static_values == Some(a)))
        }),
        spec_class_def_at(d, k) matches Ok(def) && def.static_values_off != 0 && spec_encoded_array(
            d.bytes,
            def.static_values_off as int,
        ) is Err ==> spec_class_at(d, k) is Err,
{
}

/// Where a NUL search from `i` stops: at the first NUL at or after `i`, or at the end.
proof fn lemma_nul_from(b: Seq<u8>, i: int)
    requires
        0 <= i <= b.len(),
    ensures
        i <= spec_nul_from(b, i) <= b.len(),
        forall|j: int| i <= j < spec_nul_from(b, i) ==> b[j] != 0,
        spec_nul_from(b, i) < b.len() ==> b[spec_nul_from(b, i)] == 0,
    decreases b.len() - i,
{
    if i < b.len() && b[i] != 0 {
        lemma_nul_from(b, i + 1);
    }
}

/// Law: the string data at `p` is its UTF-16 length, a ULEB128 number at `p`, followed by
/// its bytes, which hold no NUL and are followed by a NUL inside the file.
pub proof fn law_string_data_layout(b: Seq<u8>, p: int)
    requires
        0 <= p,
    ensures
        spec_string_data(b, p) matches Ok(s) ==> (spec_uleb128(b, p) matches Ok((v, n)) && ({
            let start = p + n;
            &&& s.utf16_size == v
            &&& 0 < n
            &&& start + s.data.len() < b.len()
            &&& s.data == b.subrange(start, start + s.data.len())
            &&& b[start + s.data.len()] == 0
            &&& forall|j: int| 0 <= j < s.data.len() ==> #[trigger] s.data[j] != 0
        })),
{
    if let Ok(s) = spec_string_data(b, p) {
        let (v, n) = spec_uleb128(b, p)->Ok_0;
        crate::jstring::lemma_uleb128_bounds(b, p);
        let start = p + n;
        lemma_nul_from(b, start);
        assert forall|j: int| 0 <= j < s.data.len() implies #[trigger] s.data[j] != 0 by {
            assert(s.data[j] == b[start + j]);
        }
    }
}

/// Map items read one after another from `start` are 12 bytes apart: item `j` has the type
/// whose code is the `u16` at `start + 12 * j`, its count is the `u32` at `+ 4` and its
/// offset the `u32` at `+ 8`.
proof fn lemma_map_items_values(b: Seq<u8>, start: int, n: nat, e: Endian)
    ensures
        spec_map_items(b, start, n, e) matches Ok(items) ==> items.len() == n && forall|j: int|
            0 <= j < n ==> {
                &&& (#[trigger] items[j]).item_type.spec_code() == spec_u16(b, start + 12 * j, e)
                &&& items[j].size == spec_u32(b, start + 12 * j + 4, e)
                &&& items[j].offset == spec_u32(b, start + 12 * j + 8, e)
            },
    decreases n,
{
    if n > 0 {
        lemma_map_items_values(b, start, (n - 1) as nat, e);
        if let Ok(items) = spec_map_items(b, start, n, e) {
            let last = items[n - 1];
            law_item_type_code_roundtrip(last.item_type, spec_u16(b, start + 12 * (n - 1), e));
        }
    }
}

/// Law: the map list at `off` is a `u32` count followed by that many 12-byte items; item `j`
/// has the type whose code is the `u16` at `off + 4 + 12 * j`, the count that is the `u32`
/// at `+ 4` and the offset that is the `u32` at `+ 8`, in the file's byte order.
pub proof fn law_map_list_layout(b: Seq<u8>, off: int, e: Endian)
    ensures
        spec_map_list(b, off, e) matches Ok(items) ==> items.len() == spec_u32(b, off, e) && forall|j: int|
            0 <= j < items.len() ==> {
                &&& (#[trigger] items[j]).item_type.spec_code() == spec_u16(b, off + 4 + 12 * j, e)
                &&& items[j].size == spec_u32(b, off + 4 + 12 * j + 4, e)
                &&& items[j].offset == spec_u32(b, off + 4 + 12 * j + 8, e)
            },
{
    lemma_map_items_values(b, off + 4, spec_u32(b, off, e) as nat, e);
}

/// Law: a file that opens has the map list read at the header's `map_off`.
pub proof fn law_map_list_at_map_off(b: Seq<u8>)
    ensures
        spec_parse_inner(b) matches Ok(v) ==> spec_map_list(b, v.header.map_off as int, v.endian)
            == Ok::<Seq<crate::map::MapItem>, DexError>(v.map_items),
{
}

/// Try items read one after another from `q` are 8 bytes apart: the start address is the
/// `u32` at `q + 8 * j`, the instruction count the `u16` at `+ 4` and the handler offset
/// the `u16` at `+ 6`.
proof fn lemma_try_items_values(b: Seq<u8>, q: int, n: nat, e: Endian)
    ensures
        spec_try_items(b, q, n, e) matches Ok(ts) ==> ts.len() == n && forall|j: int|
            0 <= j < n ==> #[trigger] ts[j] == (TryItem {
                start_addr: spec_u32(b, q + 8 * j, e),
                insn_count: spec_u16(b, q + 8 * j + 4, e),
                handler_off: spec_u16(b, q + 8 * j + 6, e),
            }),
    decreases n,
{
    if n > 0 {
        lemma_try_items_values(b, q, (n - 1) as nat, e);
    }
}

/// Law: the code item at `p` holds the register count (`u16` at `p`), the counts of
/// incoming and outgoing argument words (`u16`s at `+ 2` and `+ 4`), the count of try items
/// (`u16` at `+ 6`), the debug info offset (`u32` at `+ 8`) and the count of code units
/// (`u32` at `+ 12`), followed by the code units from `+ 16`; the try items follow the code
/// units, after two bytes of padding where the count of code units is odd, 8 bytes each;
/// there are catch handlers exactly where there are try items.
pub proof fn law_code_item_layout(b: Seq<u8>, p: int, e: Endian)
    ensures
        spec_code_item(b, p, e) matches Ok(c) ==> ({
            let n = spec_u32(b, p + 12, e);
            let q = if c.tries_size != 0 && n % 2 == 1 {
                p + 16 + 2 * n + 2
            } else {
                p + 16 + 2 * n
            };
            &&& c.registers_size == spec_u16(b, p, e)
            &&& c.ins_size == spec_u16(b, p + 2, e)
            &&& c.outs_size == spec_u16(b, p + 4, e)
            &&& c.tries_size == spec_u16(b, p + 6, e)
            &&& c.debug_info_off == spec_u32(b, p + 8, e)
            &&& c.insns.len() == n
            &&& forall|j: int| 0 <= j < n ==> #[trigger] c.insns[j] == spec_u16(b, p + 16 + 2 * j, e)
            &&& c.tries.len() == c.tries_size
            &&& forall|j: int|
                0 <= j < c.tries_size ==> #[trigger] c.tries[j] == (TryItem {
                    start_addr: spec_u32(b, q + 8 * j, e),
                    insn_count: spec_u16(b, q + 8 * j + 4, e),
                    handler_off: spec_u16(b, q + 8 * j + 6, e),
                })
            &&& (c.tries_size == 0 <==> c.handlers is None)
        }),
{
    if let Ok(c) = spec_code_item(b, p, e) {
        reveal_with_fuel(spec_u16_run, 5);
        lemma_u16_run_values(b, p, 4, e);
        let n = spec_u32(b, p + 12, e);
        lemma_u16_run_values(b, p + 16, n as nat, e);
        let h = spec_u16_run(b, p, 4, e)->Ok_0;
        assert(h[0] == spec_u16(b, p + 2 * 0, e));
        assert(h[1] == spec_u16(b, p + 2 * 1, e));
        assert(h[2] == spec_u16(b, p + 2 * 2, e));
        assert(h[3] == spec_u16(b, p + 2 * 3, e));
        let q = crate::code::tries_offset(p, n, h[3]);
        lemma_try_items_values(b, q, h[3] as nat, e);
    }
}

/// Law: the field of an encoded field keeps its index and access flags; its class is the
/// class index of its field id item, its name the string of that item's name index and its
/// type the type of that item's type index.
pub proof fn law_field_parts(d: DexView, ef: EncodedField)
    ensures
        spec_get_field(d, ef) matches Ok(f) ==> (spec_get_field_item(d, ef.field_id) matches Ok(item) && {
            &&& f.id == ef.field_id
            &&& f.access_flags == ef.access_flags
            &&& f.class == item.class_idx
            &&& spec_get_string(d, item.name_idx) == Ok::<crate::jstring::JStringView, DexError>(f.name)
            &&& spec_get_type(d, item.type_idx as u32) == Ok::<TypeView, DexError>(f.jtype)
        }),
{
}

/// Law: the method of an encoded method keeps its index, access flags and code offset; its
/// class is the class index of its method id item and its name the string of that item's
/// name index; its shorty, return type and parameters come from the proto id item of the
/// method id item's prototype index (the shorty's string, the return type's type, and the
/// type list at the parameters offset, none for offset 0); its code is the code item at the
/// code offset, none exactly for offset 0.
pub proof fn law_method_parts(d: DexView, em: EncodedMethod)
    ensures
        spec_get_method(d, em) matches Ok(m) ==> (spec_get_method_item(d, em.method_id) matches Ok(item) && (
        spec_get_proto_item(d, item.proto_idx as u64) matches Ok(proto) && {
            &&& m.id == em.method_id
            &&& m.access_flags == em.access_flags
            &&& m.code_off == em.code_offset
            &&& m.class == item.class_idx
            &&& spec_get_string(d, item.name_idx) == Ok::<crate::jstring::JStringView, DexError>(m.name)
            &&& spec_get_string(d, proto.shorty) == Ok::<crate::jstring::JStringView, DexError>(m.shorty)
            &&& spec_get_type(d, proto.return_type) == Ok::<TypeView, DexError>(m.return_type)
            &&& spec_get_interfaces(d, proto.params_off) == Ok::<Option<Seq<TypeView>>, DexError>(m.params)
            &&& (proto.params_off == 0 <==> m.params is None)
            &&& (em.code_offset == 0 <==> m.code is None)
            &&& (em.code_offset != 0 ==> (spec_code_item(d.bytes, em.code_offset as int, d.endian) matches Ok(c)
                && m.code == Some(c)))
        })),
{
}

} // verus!
