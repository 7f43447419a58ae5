use vstd::prelude::*;

use crate::error::DexError;
use crate::read::{read_u16, read_u32, spec_read_u16, spec_read_u32, Endian};

verus! {

/// Reading `n` consecutive `u16`s starting at byte offset `p` of `b`; the first read that
/// fails gives the error.
pub open spec fn spec_u16_run(b: Seq<u8>, p: int, n: nat, e: Endian) -> Result<Seq<u16>, DexError>
    decreases n,
{
    if n == 0 {
        Ok(Seq::empty())
    } else {
        match spec_u16_run(b, p, (n - 1) as nat, e) {
            Err(err) => Err(err),
            Ok(s) => match spec_read_u16(b, p + 2 * (n - 1), e) {
                Err(err) => Err(err),
                Ok(v) => Ok(s.push(v)),
            },
        }
    }
}

/// Reading `n` consecutive `u32`s starting at byte offset `p` of `b`; the first read that
/// fails gives the error.
pub open spec fn spec_u32_run(b: Seq<u8>, p: int, n: nat, e: Endian) -> Result<Seq<u32>, DexError>
    decreases n,
{
    if n == 0 {
        Ok(Seq::empty())
    } else {
        match spec_u32_run(b, p, (n - 1) as nat, e) {
            Err(err) => Err(err),
            Ok(s) => match spec_read_u32(b, p + 4 * (n - 1), e) {
                Err(err) => Err(err),
                Ok(v) => Ok(s.push(v)),
            },
        }
    }
}

proof fn lemma_u16_run_err_prefix(b: Seq<u8>, p: int, i: nat, n: nat, e: Endian)
    requires
        i <= n,
        spec_u16_run(b, p, i, e) is Err,
    ensures
        spec_u16_run(b, p, n, e) == spec_u16_run(b, p, i, e),
    decreases n,
{
    if n > i {
        lemma_u16_run_err_prefix(b, p, i, (n - 1) as nat, e);
    }
}

proof fn lemma_u32_run_err_prefix(b: Seq<u8>, p: int, i: nat, n: nat, e: Endian)
    requires
        i <= n,
        spec_u32_run(b, p, i, e) is Err,
    ensures
        spec_u32_run(b, p, n, e) == spec_u32_run(b, p, i, e),
    decreases n,
{
    if n > i {
        lemma_u32_run_err_prefix(b, p, i, (n - 1) as nat, e);
    }
}

/// Reads `n` consecutive `u16`s starting at byte offset `p` of `bytes`.
pub fn read_u16_run(bytes: &[u8], p: u64, n: u32, endian: Endian) -> (r: Result<Vec<u16>, DexError>)
    ensures
        r matches Ok(v) ==> spec_u16_run(bytes@, p as int, n as nat, endian) == Ok::<Seq<u16>, DexError>(v@),
        r matches Ok(v) ==> v@.len() == n && (n == 0 || p + 2 * n <= bytes@.len()),
        r matches Err(e) ==> spec_u16_run(bytes@, p as int, n as nat, endian) == Err::<Seq<u16>, DexError>(e),
{
    let blen: usize = bytes.len();
    assert(bytes@.len() <= u64::MAX);
    let mut out: Vec<u16> = Vec::new();
    let mut i: u32 = 0;
    let mut pos: u64 = p;
    while i < n
        invariant
            i <= n,
            pos == p + 2 * i,
            i > 0 ==> pos <= bytes@.len(),
            bytes@.len() <= u64::MAX,
            spec_u16_run(bytes@, p as int, i as nat, endian) == Ok::<Seq<u16>, DexError>(out@),
            out@.len() == i,
        decreases n - i,
    {
        let v = match read_u16(bytes, pos, endian) {
            Ok(v) => v,
            Err(e) => {
                proof {
                    lemma_u16_run_err_prefix(bytes@, p as int, (i + 1) as nat, n as nat, endian);
                }
                return Err(e);
            },
        };
        out.push(v);
        pos = pos + 2;
        i = i + 1;
    }
    Ok(out)
}

/// Reads `n` consecutive `u32`s starting at byte offset `p` of `bytes`.
pub fn read_u32_run(bytes: &[u8], p: u64, n: u32, endian: Endian) -> (r: Result<Vec<u32>, DexError>)
    ensures
        r matches Ok(v) ==> spec_u32_run(bytes@, p as int, n as nat, endian) == Ok::<Seq<u32>, DexError>(v@),
        r matches Ok(v) ==> v@.len() == n && (n == 0 || p + 4 * n <= bytes@.len()),
        r matches Err(e) ==> spec_u32_run(bytes@, p as int, n as nat, endian) == Err::<Seq<u32>, DexError>(e),
{
    let blen: usize = bytes.len();
    assert(bytes@.len() <= u64::MAX);
    let mut out: Vec<u32> = Vec::new();
    let mut i: u32 = 0;
    let mut pos: u64 = p;
    while i < n
        invariant
            i <= n,
            pos == p + 4 * i,
            i > 0 ==> pos <= bytes@.len(),
            bytes@.len() <= u64::MAX,
            spec_u32_run(bytes@, p as int, i as nat, endian) == Ok::<Seq<u32>, DexError>(out@),
            out@.len() == i,
        decreases n - i,
    {
        let v = match read_u32(bytes, pos, endian) {
            Ok(v) => v,
            Err(e) => {
                proof {
                    lemma_u32_run_err_prefix(bytes@, p as int, (i + 1) as nat, n as nat, endian);
                }
                return Err(e);
            },
        };
        out.push(v);
        pos = pos + 4;
        i = i + 1;
    }
    Ok(out)
}

/// Identifies a field: its defining class, its type and its name.
#[derive(Debug, Clone, Copy, PartialEq, Eq, Structural)]
pub struct FieldIdItem {
    pub class_idx: u16,
    pub type_idx: u16,
    pub name_idx: u32,
}

/// Identifies a method prototype: its shorty descriptor, its return type and its
/// parameter list.
#[derive(Debug, Clone, Copy, PartialEq, Eq, Structural)]
pub struct ProtoIdItem {
    pub shorty: u32,
    pub return_type: u32,
    pub params_off: u32,
}

/// Identifies a method: its defining class, its prototype and its name.
#[derive(Debug, Clone, Copy, PartialEq, Eq, Structural)]
pub struct MethodIdItem {
    pub class_idx: u16,
    pub proto_idx: u16,
    pub name_idx: u32,
}

/// A method handle: its kind and the field or method it refers to.
#[derive(Debug, Clone, Copy, PartialEq, Eq, Structural)]
pub struct MethodHandleItem {
    pub handle_type: u16,
    pub field_or_method_id: u16,
}

/// A class definition as the `class_defs` section stores it.
#[derive(Debug, Clone, Copy, PartialEq, Eq, Structural)]
pub struct ClassDefItem {
    pub class_idx: u32,
    pub access_flags: u32,
    pub superclass_idx: u32,
    pub interfaces_off: u32,
    pub source_file_idx: u32,
    pub annotations_off: u32,
    pub class_data_off: u32,
    pub static_values_off: u32,
}

/// Reading a field id item at byte offset `p`: two `u16`s then a `u32`.
pub open spec fn spec_field_id_item(b: Seq<u8>, p: int, e: Endian) -> Result<FieldIdItem, DexError> {
    match spec_read_u16(b, p, e) {
        Err(err) => Err(err),
        Ok(class_idx) => match spec_read_u16(b, p + 2, e) {
            Err(err) => Err(err),
            Ok(type_idx) => match spec_read_u32(b, p + 4, e) {
                Err(err) => Err(err),
                Ok(name_idx) => Ok(FieldIdItem { class_idx, type_idx, name_idx }),
            },
        },
    }
}

/// Reading a method id item at byte offset `p`: two `u16`s then a `u32`.
pub open spec fn spec_method_id_item(b: Seq<u8>, p: int, e: Endian) -> Result<MethodIdItem, DexError> {
    match spec_read_u16(b, p, e) {
        Err(err) => Err(err),
        Ok(class_idx) => match spec_read_u16(b, p + 2, e) {
            Err(err) => Err(err),
            Ok(proto_idx) => match spec_read_u32(b, p + 4, e) {
                Err(err) => Err(err),
                Ok(name_idx) => Ok(MethodIdItem { class_idx, proto_idx, name_idx }),
            },
        },
    }
}

/// Reading a proto id item at byte offset `p`: three `u32`s.
pub open spec fn spec_proto_id_item(b: Seq<u8>, p: int, e: Endian) -> Result<ProtoIdItem, DexError> {
    match spec_read_u32(b, p, e) {
        Err(err) => Err(err),
        Ok(shorty) => match spec_read_u32(b, p + 4, e) {
            Err(err) => Err(err),
            Ok(return_type) => match spec_read_u32(b, p + 8, e) {
                Err(err) => Err(err),
                Ok(params_off) => Ok(ProtoIdItem { shorty, return_type, params_off }),
            },
        },
    }
}

/// Reading a method handle item at byte offset `p`: four `u16`s, the second and fourth unused.
pub open spec fn spec_method_handle_item(b: Seq<u8>, p: int, e: Endian) -> Result<
    MethodHandleItem,
    DexError,
> {
    match spec_u16_run(b, p, 4, e) {
        Err(err) => Err(err),
        Ok(s) => Ok(MethodHandleItem { handle_type: s[0], field_or_method_id: s[2] }),
    }
}

/// Reading a class def item at byte offset `p`: eight `u32`s.
pub open spec fn spec_class_def_item(b: Seq<u8>, p: int, e: Endian) -> Result<ClassDefItem, DexError> {
    match spec_u32_run(b, p, 8, e) {
        Err(err) => Err(err),
        Ok(s) => Ok(
            ClassDefItem {
                class_idx: s[0],
                access_flags: s[1],
                superclass_idx: s[2],
                interfaces_off: s[3],
                source_file_idx: s[4],
                annotations_off: s[5],
                class_data_off: s[6],
                static_values_off: s[7],
            },
        ),
    }
}

/// Reads the field id item at byte offset `p` of `bytes`.
pub fn read_field_id_item(bytes: &[u8], p: u64, endian: Endian) -> (r: Result<FieldIdItem, DexError>)
    ensures
        r == spec_field_id_item(bytes@, p as int, endian),
{
    let blen: usize = bytes.len();
    assert(bytes@.len() <= u64::MAX);
    let class_idx = read_u16(bytes, p, endian)?;
    let type_idx = read_u16(bytes, p + 2, endian)?;
    let name_idx = read_u32(bytes, p + 4, endian)?;
    Ok(FieldIdItem { class_idx, type_idx, name_idx })
}

/// Reads the method id item at byte offset `p` of `bytes`.
pub fn read_method_id_item(bytes: &[u8], p: u64, endian: Endian) -> (r: Result<MethodIdItem, DexError>)
    ensures
        r == spec_method_id_item(bytes@, p as int, endian),
{
    let blen: usize = bytes.len();
    assert(bytes@.len() <= u64::MAX);
    let class_idx = read_u16(bytes, p, endian)?;
    let proto_idx = read_u16(bytes, p + 2, endian)?;
    let name_idx = read_u32(bytes, p + 4, endian)?;
    Ok(MethodIdItem { class_idx, proto_idx, name_idx })
}

/// Reads the proto id item at byte offset `p` of `bytes`.
pub fn read_proto_id_item(bytes: &[u8], p: u64, endian: Endian) -> (r: Result<ProtoIdItem, DexError>)
    ensures
        r == spec_proto_id_item(bytes@, p as int, endian),
{
    let blen: usize = bytes.len();
    assert(bytes@.len() <= u64::MAX);
    let shorty = read_u32(bytes, p, endian)?;
    let return_type = read_u32(bytes, p + 4, endian)?;
    let params_off = read_u32(bytes, p + 8, endian)?;
    Ok(ProtoIdItem { shorty, return_type, params_off })
}

/// Reads the method handle item at byte offset `p` of `bytes`.
pub fn read_method_handle_item(bytes: &[u8], p: u64, endian: Endian) -> (r: Result<
    MethodHandleItem,
    DexError,
>)
    ensures
        r == spec_method_handle_item(bytes@, p as int, endian),
{
    let s = read_u16_run(bytes, p, 4, endian)?;
    Ok(MethodHandleItem { handle_type: s[0], field_or_method_id: s[2] })
}

/// Reads the class def item at byte offset `p` of `bytes`.
pub fn read_class_def_item(bytes: &[u8], p: u64, endian: Endian) -> (r: Result<ClassDefItem, DexError>)
    ensures
        r == spec_class_def_item(bytes@, p as int, endian),
{
    let s = read_u32_run(bytes, p, 8, endian)?;
    Ok(
        ClassDefItem {
            class_idx: s[0],
            access_flags: s[1],
            superclass_idx: s[2],
            interfaces_off: s[3],
            source_file_idx: s[4],
            annotations_off: s[5],
            class_data_off: s[6],
            static_values_off: s[7],
        },
    )
}

} // verus!
