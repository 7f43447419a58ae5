use dex::class_data::read_class_data;
use dex::dex::{DexReader, NO_INDEX};
use dex::error::{DexError, InvalidId, Malformed};
use dex::read::Endian;

const STRINGS: [&str; 6] = [
    "I",
    "La/a/a/a/d;",
    "Ljava/lang/Object;",
    "Ljava/lang/Runnable;",
    "Test.java",
    "foo",
];

fn put_u16(buf: &mut Vec<u8>, v: u16, big: bool) {
    if big {
        buf.extend_from_slice(&v.to_be_bytes());
    } else {
        buf.extend_from_slice(&v.to_le_bytes());
    }
}

fn put_u32(buf: &mut Vec<u8>, v: u32, big: bool) {
    if big {
        buf.extend_from_slice(&v.to_be_bytes());
    } else {
        buf.extend_from_slice(&v.to_le_bytes());
    }
}

fn set_u32(buf: &mut [u8], at: usize, v: u32, big: bool) {
    let b = if big { v.to_be_bytes() } else { v.to_le_bytes() };
    buf[at..at + 4].copy_from_slice(&b);
}

/// A small DEX file: six strings, four types, one proto, one field, one method, two class
/// definitions, a type list, one method handle and a map list.
fn sample_dex(big: bool) -> Vec<u8> {
    let mut b = vec![0u8; 112];
    b[0..8].copy_from_slice(b"dex\n035\0");
    if big {
        b[40..44].copy_from_slice(&[0x12, 0x34, 0x56, 0x78]);
    } else {
        b[40..44].copy_from_slice(&[0x78, 0x56, 0x34, 0x12]);
    }
    let string_ids_off = b.len();
    for _ in 0..STRINGS.len() {
        put_u32(&mut b, 0, big);
    }
    let type_ids_off = b.len();
    for sid in 0..4u32 {
        put_u32(&mut b, sid, big);
    }
    let proto_ids_off = b.len();
    put_u32(&mut b, 0, big);
    put_u32(&mut b, 0, big);
    put_u32(&mut b, 0, big);
    let field_ids_off = b.len();
    put_u16(&mut b, 1, big);
    put_u16(&mut b, 0, big);
    put_u32(&mut b, 5, big);
    let method_ids_off = b.len();
    put_u16(&mut b, 1, big);
    put_u16(&mut b, 0, big);
    put_u32(&mut b, 5, big);
    let class_defs_off = b.len();
    // class La/a/a/a/d; extends Object implements Runnable, in Test.java
    for v in [1u32, 1, 2, 0, 4, 0, 0, 0] {
        put_u32(&mut b, v, big);
    }
    // interface Ljava/lang/Runnable; without superclass or source file
    for v in [3u32, 0x601, NO_INDEX, 0, NO_INDEX, 0, 0, 0] {
        put_u32(&mut b, v, big);
    }
    let data_off = b.len();
    for (i, s) in STRINGS.iter().enumerate() {
        let off = b.len() as u32;
        set_u32(&mut b, string_ids_off + 4 * i, off, big);
        b.push(s.len() as u8);
        b.extend_from_slice(s.as_bytes());
        b.push(0);
    }
    while b.len() % 4 != 0 {
        b.push(0);
    }
    let type_list_off = b.len() as u32;
    put_u32(&mut b, 1, big);
    put_u16(&mut b, 3, big);
    put_u16(&mut b, 0, big);
    set_u32(&mut b, class_defs_off + 12, type_list_off, big);
    let code_off = b.len() as u32;
    put_u16(&mut b, 2, big);
    put_u16(&mut b, 1, big);
    put_u16(&mut b, 0, big);
    put_u16(&mut b, 1, big);
    put_u32(&mut b, 0, big);
    put_u32(&mut b, 3, big);
    for insn in [0x0012u16, 0x000f, 0x0000] {
        put_u16(&mut b, insn, big);
    }
    put_u16(&mut b, 0, big);
    put_u32(&mut b, 0, big);
    put_u16(&mut b, 2, big);
    put_u16(&mut b, 1, big);
    b.extend_from_slice(&[1, 0x7f, 2, 4, 5]);
    while b.len() % 4 != 0 {
        b.push(0);
    }
    let annotations_off = b.len() as u32;
    for v in [0u32, 1, 0, 0, 0, 0x44] {
        put_u32(&mut b, v, big);
    }
    set_u32(&mut b, class_defs_off + 20, annotations_off, big);
    assert!(code_off < 128 * 128);
    let class_data_off = b.len() as u32;
    // one static field (field 0, public static), one direct method (method 0, with code)
    b.extend_from_slice(&[1, 0, 1, 0]);
    b.extend_from_slice(&[0, 0x09]);
    b.extend_from_slice(&[0, 0x81, 0x80, 0x04]);
    b.extend_from_slice(&[(code_off % 128) as u8 | 0x80, (code_off / 128) as u8]);
    set_u32(&mut b, class_defs_off + 24, class_data_off, big);
    while b.len() % 4 != 0 {
        b.push(0);
    }
    let method_handles_off = b.len() as u32;
    put_u16(&mut b, 3, big);
    put_u16(&mut b, 0, big);
    put_u16(&mut b, 0, big);
    put_u16(&mut b, 0, big);
    let map_off = b.len() as u32;
    let items: [(u16, u32, u32); 4] = [
        (0x0, 1, 0),
        (0x1, STRINGS.len() as u32, string_ids_off as u32),
        (0x8, 1, method_handles_off),
        (0x1000, 1, map_off),
    ];
    put_u32(&mut b, items.len() as u32, big);
    for (t, size, off) in items {
        put_u16(&mut b, t, big);
        put_u16(&mut b, 0, big);
        put_u32(&mut b, size, big);
        put_u32(&mut b, off, big);
    }
    let file_size = b.len() as u32;
    let fields = [
        (32, file_size),
        (36, 112),
        (52, map_off),
        (56, STRINGS.len() as u32),
        (60, string_ids_off as u32),
        (64, 4),
        (68, type_ids_off as u32),
        (72, 1),
        (76, proto_ids_off as u32),
        (80, 1),
        (84, field_ids_off as u32),
        (88, 1),
        (92, method_ids_off as u32),
        (96, 2),
        (100, class_defs_off as u32),
        (104, file_size - data_off as u32),
        (108, data_off as u32),
    ];
    for (at, v) in fields {
        set_u32(&mut b, at, v, big);
    }
    b
}

#[test]
fn test_find_class_by_name() {
    let dex = DexReader::from_vec(sample_dex(false)).expect("cannot open dex file");
    let class = dex.find_class_by_name("La/a/a/a/d;");
    assert!(class.is_ok());
    assert!(class.unwrap().is_some());
}

#[test]
fn find_class_by_name_gives_the_class() {
    let dex = DexReader::from_vec(sample_dex(false)).unwrap();
    let class = dex.find_class_by_name("La/a/a/a/d;").unwrap().unwrap();
    assert_eq!(class.id(), 1);
    assert_eq!(class.jtype().type_descriptor().as_bytes(), b"La/a/a/a/d;");
    assert_eq!(class.super_class(), Some(2));
    assert_eq!(class.access_flags(), 1);
    let interfaces = class.interfaces().unwrap();
    assert_eq!(interfaces.len(), 1);
    assert_eq!(interfaces[0].id(), 3);
    assert_eq!(interfaces[0].type_descriptor().as_bytes(), b"Ljava/lang/Runnable;");
    assert_eq!(class.source_file().unwrap().as_bytes(), b"Test.java");
}

#[test]
fn find_class_by_name_absent() {
    let dex = DexReader::from_vec(sample_dex(false)).unwrap();
    // not a string of the file
    assert!(dex.find_class_by_name("Lb;").unwrap().is_none());
    // a string that is not a type
    assert!(dex.find_class_by_name("foo").unwrap().is_none());
    // a type without a class definition
    assert!(dex.find_class_by_name("Ljava/lang/Object;").unwrap().is_none());
    let runnable = dex.find_class_by_name("Ljava/lang/Runnable;").unwrap().unwrap();
    assert_eq!(runnable.super_class(), None);
    assert!(runnable.interfaces().is_none());
    assert!(runnable.source_file().is_none());
}

#[test]
fn big_endian_file_reads_the_same() {
    let dex = DexReader::from_vec(sample_dex(true)).unwrap();
    assert_eq!(dex.get_endian(), Endian::Big);
    let class = dex.find_class_by_name("La/a/a/a/d;").unwrap().unwrap();
    assert_eq!(class.super_class(), Some(2));
    assert_eq!(dex.get_string(4).unwrap().as_bytes(), b"Test.java");
}

#[test]
fn little_endian_tag_gives_little_endian() {
    let dex = DexReader::from_vec(sample_dex(false)).unwrap();
    assert_eq!(dex.get_endian(), Endian::Little);
    assert_eq!(dex.header().header_size(), 112);
    assert_eq!(dex.header().magic(), *b"dex\n035\0");
    assert_eq!(dex.header().string_ids_size(), 6);
    assert_eq!(dex.header().endian_tag(), [0x78, 0x56, 0x34, 0x12]);
}

#[test]
fn get_string_checks_the_id() {
    let dex = DexReader::from_vec(sample_dex(false)).unwrap();
    let s = dex.get_string(5).unwrap();
    assert_eq!(s.as_bytes(), b"foo");
    assert_eq!(s.utf16_size(), 3);
    assert!(matches!(
        dex.get_string(6),
        Err(DexError::InvalidId(InvalidId::StringId(6)))
    ));
}

#[test]
fn get_type_reads_the_descriptor() {
    let dex = DexReader::from_vec(sample_dex(false)).unwrap();
    let t = dex.get_type(2).unwrap();
    assert_eq!(t.id(), 2);
    assert_eq!(t.type_descriptor().as_bytes(), b"Ljava/lang/Object;");
    assert!(matches!(
        dex.get_type(4),
        Err(DexError::InvalidId(InvalidId::TypeId(4)))
    ));
}

#[test]
fn strings_lists_every_string() {
    let dex = DexReader::from_vec(sample_dex(false)).unwrap();
    let all = dex.strings();
    assert_eq!(all.len(), STRINGS.len());
    for (i, s) in all.iter().enumerate() {
        assert_eq!(s.as_ref().unwrap().as_bytes(), STRINGS[i].as_bytes());
        let again = dex.get_string(i as u32).unwrap();
        assert_eq!(again.as_bytes(), s.as_ref().unwrap().as_bytes());
    }
}

#[test]
fn classes_lists_every_class() {
    let dex = DexReader::from_vec(sample_dex(false)).unwrap();
    let all = dex.classes();
    assert_eq!(all.len(), 2);
    assert_eq!(all[0].as_ref().unwrap().id(), 1);
    assert_eq!(all[1].as_ref().unwrap().id(), 3);
    assert_eq!(all[1].as_ref().unwrap().access_flags(), 0x601);
    let found = dex.find_class_by_type(3).unwrap().unwrap();
    assert_eq!(found.class_def(), all[1].as_ref().unwrap().class_def());
    assert!(dex.find_class_by_type(0).unwrap().is_none());
}

#[test]
fn type_and_string_searches() {
    let dex = DexReader::from_vec(sample_dex(false)).unwrap();
    assert_eq!(dex.get_string_id(b"Test.java").unwrap(), Some(4));
    assert_eq!(dex.get_string_id(b"I").unwrap(), Some(0));
    assert_eq!(dex.get_string_id(b"zzz").unwrap(), None);
    assert_eq!(dex.get_string_id(b"").unwrap(), None);
    assert_eq!(dex.get_type_id(3).unwrap(), Some(3));
    assert_eq!(dex.get_type_id(5).unwrap(), None);
}

#[test]
fn id_items() {
    let dex = DexReader::from_vec(sample_dex(false)).unwrap();
    let f = dex.get_field_item(0).unwrap();
    assert_eq!((f.class_idx, f.type_idx, f.name_idx), (1, 0, 5));
    let m = dex.get_method_item(0).unwrap();
    assert_eq!((m.class_idx, m.proto_idx, m.name_idx), (1, 0, 5));
    let p = dex.get_proto_item(0).unwrap();
    assert_eq!((p.shorty, p.return_type, p.params_off), (0, 0, 0));
    assert!(matches!(
        dex.get_field_item(1),
        Err(DexError::InvalidId(InvalidId::FieldId(1)))
    ));
    assert!(matches!(
        dex.get_method_item(7),
        Err(DexError::InvalidId(InvalidId::MethodId(7)))
    ));
    assert!(matches!(
        dex.get_proto_item(1),
        Err(DexError::InvalidId(InvalidId::ProtoId(1)))
    ));
}

#[test]
fn method_handles_come_from_the_map_list() {
    let dex = DexReader::from_vec(sample_dex(false)).unwrap();
    let h = dex.get_method_handle_item(0).unwrap();
    assert_eq!(h.handle_type, 3);
    assert_eq!(h.field_or_method_id, 0);
    assert!(matches!(
        dex.get_method_handle_item(1),
        Err(DexError::InvalidId(InvalidId::MethodHandleId(1)))
    ));
}

#[test]
fn source_file_no_index_is_none() {
    let dex = DexReader::from_vec(sample_dex(false)).unwrap();
    assert!(dex.get_source_file(NO_INDEX).unwrap().is_none());
    assert_eq!(dex.get_source_file(4).unwrap().unwrap().as_bytes(), b"Test.java");
    assert!(dex.get_interfaces(0).unwrap().is_none());
}

#[test]
fn too_short_file_is_malformed() {
    let r = DexReader::from_vec(vec![0u8; 44]);
    assert!(matches!(r, Err(DexError::MalFormed(Malformed::TooShort))));
}

#[test]
fn file_without_magic_is_malformed() {
    let mut b = sample_dex(false);
    for x in b[0..8].iter_mut() {
        *x = 0;
    }
    let r = DexReader::from_vec(b);
    assert!(matches!(r, Err(DexError::MalFormed(Malformed::BadMagic))));
}

#[test]
fn zero_file_reports_the_endian_tag_first() {
    let r = DexReader::from_vec(vec![0u8; 45]);
    assert!(matches!(r, Err(DexError::MalFormed(Malformed::BadEndianTag))));
}

#[test]
fn magic_without_nul_is_malformed() {
    let mut b = sample_dex(false);
    b[7] = b'5';
    let r = DexReader::from_vec(b);
    assert!(matches!(r, Err(DexError::MalFormed(Malformed::BadMagic))));
}

#[test]
fn bad_endian_tag_is_malformed() {
    let mut b = sample_dex(false);
    b[40] = 0;
    let r = DexReader::from_vec(b);
    assert!(matches!(r, Err(DexError::MalFormed(Malformed::BadEndianTag))));
}

#[test]
fn short_header_reports_the_first_missing_field() {
    let b = sample_dex(false)[..50].to_vec();
    let r = DexReader::from_vec(b);
    assert!(matches!(
        r,
        Err(DexError::Read { offset: 48, size: 4, len: 50 })
    ));
}

#[test]
fn unknown_map_item_type_is_an_invalid_id() {
    let mut b = sample_dex(false);
    let map_off = u32::from_le_bytes([b[52], b[53], b[54], b[55]]) as usize;
    b[map_off + 4] = 0x77;
    b[map_off + 5] = 0x00;
    let r = DexReader::from_vec(b);
    assert!(matches!(
        r,
        Err(DexError::InvalidId(InvalidId::MapItemType(0x77)))
    ));
}

#[test]
fn map_list_past_the_end_is_a_read_error() {
    let mut b = sample_dex(false);
    let len = b.len() as u32;
    b[52..56].copy_from_slice(&(len - 2).to_le_bytes());
    let r = DexReader::from_vec(b);
    assert!(matches!(
        r,
        Err(DexError::Read { size: 4, .. })
    ));
}

#[test]
fn class_members_come_from_class_data() {
    let dex = DexReader::from_vec(sample_dex(false)).unwrap();
    let class = dex.find_class_by_name("La/a/a/a/d;").unwrap().unwrap();
    assert_eq!(class.static_fields().len(), 1);
    assert!(class.instance_fields().is_empty());
    assert_eq!(class.direct_methods().len(), 1);
    assert!(class.virtual_methods().is_empty());
    let f = &class.static_fields()[0];
    assert_eq!(f.id(), 0);
    assert_eq!(f.class(), 1);
    assert_eq!(f.name().as_bytes(), b"foo");
    assert_eq!(f.jtype().type_descriptor().as_bytes(), b"I");
    assert_eq!(f.access_flags(), 0x09);
    let m = &class.direct_methods()[0];
    assert_eq!(m.id(), 0);
    assert_eq!(m.access_flags(), 0x10001);
    assert_eq!(m.name().as_bytes(), b"foo");
    assert_eq!(m.shorty().as_bytes(), b"I");
    assert_eq!(m.return_type().id(), 0);
    assert!(m.params().is_none());
    let code = m.code().unwrap();
    assert_eq!(code.registers_size(), 2);
    assert_eq!(code.ins_size(), 1);
    assert_eq!(code.outs_size(), 0);
    assert_eq!(code.tries_size(), 1);
    assert_eq!(code.insns().as_slice(), &[0x0012, 0x000f, 0x0000]);
    assert_eq!(code.tries()[0].start_addr, 0);
    assert_eq!(code.tries()[0].insn_count, 2);
    assert_eq!(code.tries()[0].handler_off, 1);
    let handlers = code.handlers().unwrap();
    assert_eq!(handlers.len(), 1);
    assert_eq!(handlers[0].handlers()[0].type_idx, 2);
    assert_eq!(handlers[0].handlers()[0].addr, 4);
    assert_eq!(handlers[0].catch_all_addr(), Some(5));
    let annotations = class.annotations().unwrap();
    assert_eq!(annotations.class_annotations_off(), 0);
    assert_eq!(annotations.field_annotations()[0].idx, 0);
    assert_eq!(annotations.field_annotations()[0].annotations_off, 0x44);
    assert!(annotations.method_annotations().is_empty());
    assert!(runnable_has_no_annotations(&dex));
    let runnable = dex.find_class_by_name("Ljava/lang/Runnable;").unwrap().unwrap();
    assert!(runnable.static_fields().is_empty());
    assert!(runnable.direct_methods().is_empty());
}

fn runnable_has_no_annotations(dex: &dex::dex::Dex) -> bool {
    let runnable = dex.find_class_by_name("Ljava/lang/Runnable;").unwrap().unwrap();
    runnable.annotations().is_none()
}

#[test]
fn zero_offsets_give_nothing() {
    let dex = DexReader::from_vec(sample_dex(false)).unwrap();
    assert!(dex.get_code_item(0).unwrap().is_none());
    assert!(dex.get_class_data(0).unwrap().is_none());
    assert!(dex.get_annotation_set_item(0).unwrap().is_none());
    assert!(dex.get_annotations_directory_item(0).unwrap().is_none());
    assert!(matches!(
        dex.get_code_item(1 << 40),
        Err(DexError::Read { offset: 1099511627776, size: 2, .. })
    ));
}

#[test]
fn class_data_lists_sum_their_index_differences() {
    // two instance fields 3 and 3 + 4, two virtual methods 10 and 10 + 2
    let b = [0, 2, 0, 2, 3, 1, 4, 2, 10, 1, 0, 2, 1, 0x80, 0x01];
    let cd = read_class_data(&b, 0).unwrap();
    assert!(cd.static_fields().is_empty());
    let ids: Vec<u64> = cd.instance_fields().iter().map(|f| f.field_id).collect();
    assert_eq!(ids, vec![3, 7]);
    let ms: Vec<(u64, u64)> = cd.virtual_methods().iter().map(|m| (m.method_id, m.code_offset)).collect();
    assert_eq!(ms, vec![(10, 0), (12, 128)]);
    assert!(read_class_data(&b[..10], 0).is_err());
}
