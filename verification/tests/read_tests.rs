use dex::annotations::{read_annotation_set_item, read_annotation_set_ref_list};
use dex::code::{read_code_item, read_sleb128};
use dex::error::{DexError, Malformed};
use dex::jstring::{read_string_data, read_uleb128};
use dex::map::ItemType;
use dex::order::{compare_bytes, Order};
use dex::read::{read_u16, read_u32, Endian};

#[test]
fn u32_in_both_byte_orders() {
    let b = [0x78, 0x56, 0x34, 0x12, 0xff];
    assert_eq!(read_u32(&b, 0, Endian::Little).unwrap(), 0x1234_5678);
    assert_eq!(read_u32(&b, 0, Endian::Big).unwrap(), 0x7856_3412);
    assert_eq!(read_u16(&b, 3, Endian::Little).unwrap(), 0xff12);
    assert!(matches!(
        read_u32(&b, 2, Endian::Little),
        Err(DexError::Read { offset: 2, size: 4, len: 5 })
    ));
    assert!(matches!(
        read_u16(&b, 9, Endian::Big),
        Err(DexError::Read { offset: 9, size: 2, len: 5 })
    ));
}

#[test]
fn uleb128_values() {
    assert_eq!(read_uleb128(&[0x00], 0).unwrap(), (0, 1));
    assert_eq!(read_uleb128(&[0x7f], 0).unwrap(), (127, 1));
    assert_eq!(read_uleb128(&[0x80, 0x7f], 0).unwrap(), (16256, 2));
    assert_eq!(read_uleb128(&[0xe5, 0x8e, 0x26], 0).unwrap(), (624485, 3));
    assert!(matches!(
        read_uleb128(&[0x80, 0x80, 0x80, 0x80, 0x80, 0x01], 0),
        Err(DexError::MalFormed(Malformed::Uleb128TooLong))
    ));
    assert!(matches!(
        read_uleb128(&[0x80], 0),
        Err(DexError::Read { offset: 0, size: 2, len: 1 })
    ));
}

#[test]
fn string_data_stops_at_nul() {
    let b = [0x03, b'a', b'b', b'c', 0x00, b'x'];
    let s = read_string_data(&b, 0).unwrap();
    assert_eq!(s.as_bytes(), b"abc");
    assert_eq!(s.utf16_size(), 3);
    assert!(matches!(
        read_string_data(&[0x01, b'a'], 0),
        Err(DexError::MalFormed(Malformed::UnterminatedString))
    ));
}

#[test]
fn item_type_codes_roundtrip() {
    for v in 0..=0x2010u16 {
        if let Some(t) = ItemType::from_u16(v) {
            assert_eq!(t.code(), v);
        }
    }
    assert_eq!(ItemType::from_u16(0x8), Some(ItemType::MethodHandleItem));
    assert_eq!(ItemType::from_u16(0x1000), Some(ItemType::MapList));
    assert_eq!(ItemType::from_u16(0x9), None);
}

#[test]
fn byte_order_comparison() {
    assert_eq!(compare_bytes(b"abc", b"abd"), Order::Less);
    assert_eq!(compare_bytes(b"ab", b"abc"), Order::Less);
    assert_eq!(compare_bytes(b"b", b"abc"), Order::Greater);
    assert_eq!(compare_bytes(b"abc", b"abc"), Order::Equal);
}

#[test]
fn sleb128_values() {
    assert_eq!(read_sleb128(&[0x00], 0).unwrap(), (0, 1));
    assert_eq!(read_sleb128(&[0x01], 0).unwrap(), (1, 1));
    assert_eq!(read_sleb128(&[0x7f], 0).unwrap(), (-1, 1));
    assert_eq!(read_sleb128(&[0x80, 0x7f], 0).unwrap(), (-128, 2));
    assert_eq!(read_sleb128(&[0x3f], 0).unwrap(), (63, 1));
    assert_eq!(read_sleb128(&[0xc0, 0xbb, 0x78], 0).unwrap(), (-123456, 3));
}

#[test]
fn code_item_without_tries() {
    let mut b = vec![];
    for v in [1u16, 1, 1, 0] {
        b.extend_from_slice(&v.to_le_bytes());
    }
    b.extend_from_slice(&7u32.to_le_bytes());
    b.extend_from_slice(&1u32.to_le_bytes());
    b.extend_from_slice(&0x000eu16.to_le_bytes());
    let c = read_code_item(&b, 0, Endian::Little).unwrap();
    assert_eq!(c.debug_info_off(), 7);
    assert_eq!(c.insns().as_slice(), &[0x000e]);
    assert!(c.tries().is_empty());
    assert!(c.handlers().is_none());
    assert!(matches!(
        read_code_item(&b[..17], 0, Endian::Little),
        Err(DexError::Read { offset: 16, size: 2, len: 17 })
    ));
}

#[test]
fn annotation_offset_lists() {
    let mut b = vec![];
    for v in [2u32, 0x10, 0x20] {
        b.extend_from_slice(&v.to_le_bytes());
    }
    let set = read_annotation_set_item(&b, 0, Endian::Little).unwrap();
    assert_eq!(set.entries().as_slice(), &[0x10, 0x20]);
    let list = read_annotation_set_ref_list(&b, 0, Endian::Little).unwrap();
    assert_eq!(list.list().as_slice(), &[0x10, 0x20]);
    assert!(matches!(
        read_annotation_set_item(&b[..8], 0, Endian::Little),
        Err(DexError::Read { offset: 8, size: 4, len: 8 })
    ));
}
