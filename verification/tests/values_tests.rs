use dex::debug_info::{read_debug_info, DebugOp};
use dex::encoded_value::{read_annotation_item, read_encoded_array, read_value, EncodedValue};
use dex::error::{DexError, Malformed};

fn value(bytes: &[u8]) -> EncodedValue {
    let (v, end) = read_value(bytes, 0).unwrap();
    assert_eq!(end as usize, bytes.len());
    v
}

#[test]
fn scalar_values() {
    assert!(matches!(value(&[0x00, 0xff]), EncodedValue::Byte(-1)));
    assert!(matches!(value(&[0x02, 0x80]), EncodedValue::Short(-128)));
    assert!(matches!(value(&[0x22, 0x34, 0x12]), EncodedValue::Short(0x1234)));
    assert!(matches!(value(&[0x03, 0xff]), EncodedValue::Char(0xff)));
    assert!(matches!(value(&[0x64, 0x00, 0x00, 0x00, 0x80]), EncodedValue::Int(i32::MIN)));
    assert!(matches!(value(&[0x04, 0x7f]), EncodedValue::Int(127)));
    assert!(matches!(value(&[0x26, 0xfe, 0xff]), EncodedValue::Long(-2)));
    assert!(matches!(value(&[0x17, 0x05]), EncodedValue::String(5)));
    assert!(matches!(value(&[0x38, 0x01, 0x02]), EncodedValue::Type(0x0201)));
    assert!(matches!(value(&[0x1e]), EncodedValue::Null));
    assert!(matches!(value(&[0x3f]), EncodedValue::Boolean(true)));
    assert!(matches!(value(&[0x1f]), EncodedValue::Boolean(false)));
}

#[test]
fn floating_point_values_keep_their_bits() {
    // 1.0f32 is 0x3f80_0000: only its two high-order bytes are stored
    match value(&[0x30, 0x80, 0x3f]) {
        EncodedValue::Float(bits) => {
            assert_eq!(bits, 0x3f80_0000);
            assert_eq!(f32::from_bits(bits), 1.0f32);
        }
        _ => panic!("not a float"),
    }
    // 2.0f64 is 0x4000_0000_0000_0000
    match value(&[0x11, 0x40]) {
        EncodedValue::Double(bits) => assert_eq!(f64::from_bits(bits), 2.0f64),
        _ => panic!("not a double"),
    }
}

#[test]
fn nested_values() {
    // [1, [true], null]
    let b = [0x1c, 3, 0x04, 0x01, 0x1c, 1, 0x3f, 0x1e];
    match value(&b) {
        EncodedValue::Array(vs) => {
            assert_eq!(vs.len(), 3);
            assert!(matches!(vs[0], EncodedValue::Int(1)));
            match &vs[1] {
                EncodedValue::Array(inner) => assert!(matches!(inner[0], EncodedValue::Boolean(true))),
                _ => panic!("not an array"),
            }
            assert!(matches!(vs[2], EncodedValue::Null));
        }
        _ => panic!("not an array"),
    }
    // annotation of type 7 with element name 2 = 'x'
    let b = [0x1d, 7, 1, 2, 0x03, b'x'];
    match value(&b) {
        EncodedValue::Annotation(a) => {
            assert_eq!(a.type_idx, 7);
            assert_eq!(a.elements.len(), 1);
            assert_eq!(a.elements[0].name_idx, 2);
            assert!(matches!(a.elements[0].value, EncodedValue::Char(0x78)));
        }
        _ => panic!("not an annotation"),
    }
}

#[test]
fn malformed_values() {
    assert!(matches!(
        read_value(&[0x05], 0),
        Err(DexError::MalFormed(Malformed::EncodedValueType(0x05)))
    ));
    assert!(matches!(
        read_value(&[0x20, 0x00], 0),
        Err(DexError::MalFormed(Malformed::EncodedValueArg(0x20)))
    ));
    assert!(matches!(
        read_value(&[0x64, 0x00], 0),
        Err(DexError::Read { offset: 1, size: 4, len: 2 })
    ));
    assert!(matches!(
        read_value(&[0x1c, 2, 0x1e], 0),
        Err(DexError::Read { offset: 3, size: 1, len: 3 })
    ));
}

#[test]
fn arrays_and_annotation_items() {
    let a = read_encoded_array(&[2, 0x04, 0x05, 0x1e], 0).unwrap();
    assert_eq!(a.values().len(), 2);
    assert!(matches!(a.values()[0], EncodedValue::Int(5)));
    let item = read_annotation_item(&[1, 9, 0], 0).unwrap();
    assert_eq!(item.visibility(), 1);
    assert_eq!(item.type_idx(), 9);
    assert!(item.elements().is_empty());
}

#[test]
fn debug_info_state_machine() {
    // line 10, two parameters (unnamed, string 4), then advance pc 2, advance line -1,
    // start local v1 named 3 of type 5, set file unnamed, a special opcode, end
    let b = [
        10, 2, 0, 5, 0x01, 2, 0x02, 0x7f, 0x03, 1, 4, 6, 0x09, 0, 0x0e, 0x00, 0xff,
    ];
    let d = read_debug_info(&b, 0).unwrap();
    assert_eq!(d.line_start(), 10);
    assert_eq!(d.parameter_names().as_slice(), &[None, Some(4)]);
    assert_eq!(
        d.ops().as_slice(),
        &[
            DebugOp::AdvancePc(2),
            DebugOp::AdvanceLine(-1),
            DebugOp::StartLocal { register: 1, name: Some(3), type_idx: Some(5) },
            DebugOp::SetFile(None),
            DebugOp::Special(0x0e),
        ]
    );
    assert!(matches!(
        read_debug_info(&b[..15], 0),
        Err(DexError::Read { offset: 15, size: 1, len: 15 })
    ));
}
