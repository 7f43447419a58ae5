use vstd::prelude::*;

use crate::class_data::prepend;
use crate::error::{DexError, Malformed};
use crate::jstring::{lemma_uleb128_bounds, read_uleb128, spec_uleb128};
use crate::read::{read_error, spec_u16, spec_u32, Endian};

verus! {

/// Every decoded number of `b` takes one to five bytes inside `b`.
pub proof fn lemma_uleb128_bounds_everywhere(b: Seq<u8>)
    ensures
        forall|q: int| #![trigger spec_uleb128(b, q)] uleb128_in_bounds(b, q),
{
    assert forall|q: int| #![trigger spec_uleb128(b, q)] uleb128_in_bounds(b, q) by {
        lemma_uleb128_bounds(b, q);
    }
}

/// A number decoded at `q` takes one to five bytes inside `b`.
pub open spec fn uleb128_in_bounds(b: Seq<u8>, q: int) -> bool {
    spec_uleb128(b, q) is Ok ==> 1 <= spec_uleb128(b, q)->Ok_0.1 <= 5 && q + spec_uleb128(b, q)->Ok_0.1
        <= b.len()
}

/// `256` to the power `n`.
pub open spec fn pow256(n: nat) -> nat
    decreases n,
{
    if n == 0 {
        1
    } else {
        256 * pow256((n - 1) as nat)
    }
}

/// The unsigned little-endian number held by the `n` bytes at offset `p` of `b`.
pub open spec fn le_value(b: Seq<u8>, p: int, n: nat) -> nat
    decreases n,
{
    if n == 0 {
        0
    } else {
        le_value(b, p, (n - 1) as nat) + (b[p + n - 1] as nat) * pow256((n - 1) as nat)
    }
}

/// The two's complement value of the `n`-byte number `raw`.
pub open spec fn sign_extended(raw: nat, n: nat) -> int {
    if 2 * raw >= pow256(n) {
        raw - pow256(n)
    } else {
        raw as int
    }
}

/// The largest value argument that a value type allows, or none for a code that is not a
/// value type.
pub open spec fn max_value_arg(t: u8) -> Option<u8> {
    if t == 0x00 || t == 0x1c || t == 0x1d || t == 0x1e {
        Some(0)
    } else if t == 0x02 || t == 0x03 || t == 0x1f {
        Some(1)
    } else if t == 0x04 || t == 0x10 || (0x15 <= t <= 0x1b) {
        Some(3)
    } else if t == 0x06 || t == 0x11 {
        Some(7)
    } else {
        None
    }
}

/// A value type whose data is the `value_arg + 1` bytes that follow its header.
pub open spec fn is_scalar_type(t: u8) -> bool {
    t == 0x00 || t == 0x02 || t == 0x03 || t == 0x04 || t == 0x06 || t == 0x10 || t == 0x11 || (
    0x15 <= t <= 0x1b)
}

/// The contents of an encoded value. Floating-point values are kept as their bits.
pub enum EncodedValueView {
    Byte(i8),
    Short(i16),
    Char(u16),
    Int(i32),
    Long(i64),
    Float(u32),
    Double(u64),
    MethodType(u32),
    MethodHandle(u32),
    String(u32),
    Type(u32),
    Field(u32),
    Method(u32),
    Enum(u32),
    Array(Seq<EncodedValueView>),
    Annotation(u64, Seq<(u64, EncodedValueView)>),
    Null,
    Boolean(bool),
}

/// The scalar value of type `t` whose data is the `n`-byte little-endian number `raw`;
/// floating-point data holds the high-order bytes of the value's bits.
pub open spec fn scalar_view(t: u8, raw: nat, n: nat) -> EncodedValueView {
    if t == 0x00 {
        EncodedValueView::Byte(sign_extended(raw, n) as i8)
    } else if t == 0x02 {
        EncodedValueView::Short(sign_extended(raw, n) as i16)
    } else if t == 0x03 {
        EncodedValueView::Char(raw as u16)
    } else if t == 0x04 {
        EncodedValueView::Int(sign_extended(raw, n) as i32)
    } else if t == 0x06 {
        EncodedValueView::Long(sign_extended(raw, n) as i64)
    } else if t == 0x10 {
        EncodedValueView::Float((raw * pow256((4 - n) as nat)) as u32)
    } else if t == 0x11 {
        EncodedValueView::Double((raw * pow256((8 - n) as nat)) as u64)
    } else if t == 0x15 {
        EncodedValueView::MethodType(raw as u32)
    } else if t == 0x16 {
        EncodedValueView::MethodHandle(raw as u32)
    } else if t == 0x17 {
        EncodedValueView::String(raw as u32)
    } else if t == 0x18 {
        EncodedValueView::Type(raw as u32)
    } else if t == 0x19 {
        EncodedValueView::Field(raw as u32)
    } else if t == 0x1a {
        EncodedValueView::Method(raw as u32)
    } else {
        EncodedValueView::Enum(raw as u32)
    }
}

/// Reading the encoded value whose header byte is at offset `p` of `b`: the low five bits of
/// the header are the type, the high three its argument. Gives the value and the offset
/// just past it.
pub open spec fn spec_value(b: Seq<u8>, p: int) -> Result<(EncodedValueView, int), DexError>
    decreases (b.len() - p) as nat, 0nat, 0nat,
{
    if p < 0 || p >= b.len() {
        Err(read_error(b, p, 1))
    } else {
        let h = b[p];
        let t = h % 32;
        let arg = h / 32;
        match max_value_arg(t) {
            None => Err(DexError::MalFormed(Malformed::EncodedValueType(t))),
            Some(m) => if arg > m {
                Err(DexError::MalFormed(Malformed::EncodedValueArg(h)))
            } else if is_scalar_type(t) {
                let n = (arg + 1) as nat;
                if p + 1 + n > b.len() {
                    Err(read_error(b, p + 1, n as int))
                } else {
                    Ok((scalar_view(t, le_value(b, p + 1, n), n), p + 1 + n))
                }
            } else if t == 0x1c {
                proof {
                    lemma_uleb128_bounds(b, p + 1);
                }
                match spec_uleb128(b, p + 1) {
                    Err(e) => Err(e),
                    Ok((n, k)) => match spec_values(b, p + 1 + k, n as nat) {
                        Err(e) => Err(e),
                        Ok((vs, q)) => Ok((EncodedValueView::Array(vs), q)),
                    },
                }
            } else if t == 0x1d {
                match spec_annotation(b, p + 1) {
                    Err(e) => Err(e),
                    Ok((type_idx, elems, q)) => Ok((EncodedValueView::Annotation(type_idx, elems), q)),
                }
            } else if t == 0x1e {
                Ok((EncodedValueView::Null, p + 1))
            } else {
                Ok((EncodedValueView::Boolean(arg == 1), p + 1))
            }
        }
    }
}

/// Reading `n` encoded values one after the other at offset `p`. (A value that was read
/// always ends past its start and inside `b`, as `lemma_value_advances` shows; the check on
/// that only makes the recursion visibly finite.)
pub open spec fn spec_values(b: Seq<u8>, p: int, n: nat) -> Result<(Seq<EncodedValueView>, int), DexError>
    decreases (b.len() - p) as nat, 0nat, n,
{
    if n == 0 {
        Ok((Seq::empty(), p))
    } else {
        match spec_value(b, p) {
            Err(e) => Err(e),
            Ok((v, q)) => if q <= p || q > b.len() {
                Err(read_error(b, p, 1))
            } else {
                match spec_values(b, q, (n - 1) as nat) {
                    Err(e) => Err(e),
                    Ok((vs, r)) => Ok((seq![v] + vs, r)),
                }
            },
        }
    }
}

/// Reading an encoded annotation at offset `p`: an unsigned LEB128 type index and element
/// count, then the elements.
pub open spec fn spec_annotation(b: Seq<u8>, p: int) -> Result<(u64, Seq<(u64, EncodedValueView)>, int), DexError>
    decreases (b.len() - p) as nat, 1nat, 0nat,
{
    proof {
        lemma_uleb128_bounds_everywhere(b);
    }
    match spec_uleb128(b, p) {
        Err(e) => Err(e),
        Ok((type_idx, k1)) => match spec_uleb128(b, p + k1) {
            Err(e) => Err(e),
            Ok((n, k2)) => match spec_elements(b, p + k1 + k2, n as nat) {
                Err(e) => Err(e),
                Ok((elems, q)) => Ok((type_idx, elems, q)),
            },
        },
    }
}

/// Reading `n` annotation elements at offset `p`: each an unsigned LEB128 name index and an
/// encoded value. (As for `spec_values`, the check on where a value ends never fails.)
pub open spec fn spec_elements(b: Seq<u8>, p: int, n: nat) -> Result<(Seq<(u64, EncodedValueView)>, int), DexError>
    decreases (b.len() - p) as nat, 0nat, n,
{
    proof {
        lemma_uleb128_bounds_everywhere(b);
    }
    if n == 0 {
        Ok((Seq::empty(), p))
    } else {
        match spec_uleb128(b, p) {
            Err(e) => Err(e),
            Ok((name, k)) => match spec_value(b, p + k) {
                Err(e) => Err(e),
                Ok((v, q)) => if q <= p || q > b.len() {
                    Err(read_error(b, p, 1))
                } else {
                    match spec_elements(b, q, (n - 1) as nat) {
                        Err(e) => Err(e),
                        Ok((es, r)) => Ok((seq![(name, v)] + es, r)),
                    }
                },
            },
        }
    }
}

/// A value read successfully ends after its header byte and inside `b`: the guards of
/// `spec_values` and `spec_elements` on that never stop a read.
pub proof fn lemma_value_advances(b: Seq<u8>, p: int)
    ensures
        spec_value(b, p) matches Ok((v, q)) ==> p < q <= b.len(),
    decreases (b.len() - p) as nat, 0nat, 0nat,
{
    lemma_uleb128_bounds_everywhere(b);
    if 0 <= p < b.len() {
        let h = b[p];
        let t = h % 32;
        if t == 0x1c {
            if let Ok((n, k)) = spec_uleb128(b, p + 1) {
                lemma_values_advance(b, p + 1 + k, n as nat);
            }
        } else if t == 0x1d {
            lemma_annotation_advances(b, p + 1);
        }
    }
}

/// Values read successfully end at or after where they start, inside `b`.
pub proof fn lemma_values_advance(b: Seq<u8>, p: int, n: nat)
    ensures
        spec_values(b, p, n) matches Ok((vs, q)) ==> p <= q <= b.len() || (n == 0 && q == p),
    decreases (b.len() - p) as nat, 0nat, n,
{
    if n > 0 {
        lemma_value_advances(b, p);
        if let Ok((v, q)) = spec_value(b, p) {
            if p < q <= b.len() {
                lemma_values_advance(b, q, (n - 1) as nat);
            }
        }
    }
}

/// An annotation read successfully ends after where it starts, inside `b`.
pub proof fn lemma_annotation_advances(b: Seq<u8>, p: int)
    ensures
        spec_annotation(b, p) matches Ok((t, es, q)) ==> p < q <= b.len(),
    decreases (b.len() - p) as nat, 1nat, 0nat,
{
    lemma_uleb128_bounds_everywhere(b);
    if let Ok((t, k1)) = spec_uleb128(b, p) {
        if let Ok((n, k2)) = spec_uleb128(b, p + k1) {
            lemma_elements_advance(b, p + k1 + k2, n as nat);
        }
    }
}

/// Elements read successfully end at or after where they start, inside `b`.
pub proof fn lemma_elements_advance(b: Seq<u8>, p: int, n: nat)
    ensures
        spec_elements(b, p, n) matches Ok((es, q)) ==> (p <= q <= b.len()) || (n == 0 && q == p),
    decreases (b.len() - p) as nat, 0nat, n,
{
    lemma_uleb128_bounds_everywhere(b);
    if n > 0 {
        if let Ok((name, k)) = spec_uleb128(b, p) {
            lemma_value_advances(b, p + k);
            if let Ok((v, q)) = spec_value(b, p + k) {
                if p < q <= b.len() {
                    lemma_elements_advance(b, q, (n - 1) as nat);
                }
            }
        }
    }
}

/// An encoded value: a constant of a static field or an annotation. Floating-point values
/// are kept as their bits.
pub enum EncodedValue {
    Byte(i8),
    Short(i16),
    Char(u16),
    Int(i32),
    Long(i64),
    Float(u32),
    Double(u64),
    MethodType(u32),
    MethodHandle(u32),
    String(u32),
    Type(u32),
    Field(u32),
    Method(u32),
    Enum(u32),
    Array(Vec<EncodedValue>),
    Annotation(EncodedAnnotation),
    Null,
    Boolean(bool),
}

/// An annotation: the type index of the annotation and its elements.
pub struct EncodedAnnotation {
    pub type_idx: u64,
    pub elements: Vec<AnnotationElement>,
}

/// An element of an annotation: the string index of its name and its value.
pub struct AnnotationElement {
    pub name_idx: u64,
    pub value: EncodedValue,
}

/// The contents of an encoded value.
pub open spec fn value_view(v: EncodedValue) -> EncodedValueView
    decreases v,
{
    match v {
        EncodedValue::Byte(x) => EncodedValueView::Byte(x),
        EncodedValue::Short(x) => EncodedValueView::Short(x),
        EncodedValue::Char(x) => EncodedValueView::Char(x),
        EncodedValue::Int(x) => EncodedValueView::Int(x),
        EncodedValue::Long(x) => EncodedValueView::Long(x),
        EncodedValue::Float(x) => EncodedValueView::Float(x),
        EncodedValue::Double(x) => EncodedValueView::Double(x),
        EncodedValue::MethodType(x) => EncodedValueView::MethodType(x),
        EncodedValue::MethodHandle(x) => EncodedValueView::MethodHandle(x),
        EncodedValue::String(x) => EncodedValueView::String(x),
        EncodedValue::Type(x) => EncodedValueView::Type(x),
        EncodedValue::Field(x) => EncodedValueView::Field(x),
        EncodedValue::Method(x) => EncodedValueView::Method(x),
        EncodedValue::Enum(x) => EncodedValueView::Enum(x),
        EncodedValue::Array(vs) => EncodedValueView::Array(values_view(vs@)),
        EncodedValue::Annotation(a) => EncodedValueView::Annotation(a.type_idx, elements_view(a.elements@)),
        EncodedValue::Null => EncodedValueView::Null,
        EncodedValue::Boolean(x) => EncodedValueView::Boolean(x),
    }
}

/// The contents of a sequence of encoded values.
pub open spec fn values_view(s: Seq<EncodedValue>) -> Seq<EncodedValueView>
    decreases s,
{
    if s.len() == 0 {
        Seq::empty()
    } else {
        seq![value_view(s[0])] + values_view(s.subrange(1, s.len() as int))
    }
}

/// The contents of a sequence of annotation elements.
pub open spec fn elements_view(s: Seq<AnnotationElement>) -> Seq<(u64, EncodedValueView)>
    decreases s,
{
    if s.len() == 0 {
        Seq::empty()
    } else {
        seq![(s[0].name_idx, value_view(s[0].value))] + elements_view(s.subrange(1, s.len() as int))
    }
}

proof fn lemma_values_view_push(s: Seq<EncodedValue>, v: EncodedValue)
    ensures
        values_view(s.push(v)) == values_view(s).push(value_view(v)),
    decreases s.len(),
{
    let t = s.push(v);
    if s.len() == 0 {
        assert(t.subrange(1, t.len() as int) =~= Seq::<EncodedValue>::empty());
        assert(t[0] == v);
        assert(values_view(t.subrange(1, t.len() as int)) =~= Seq::<EncodedValueView>::empty());
        assert(values_view(s) =~= Seq::<EncodedValueView>::empty());
        assert(values_view(t) =~= seq![value_view(v)]);
    } else {
        let rest = s.subrange(1, s.len() as int);
        lemma_values_view_push(rest, v);
        assert(t.subrange(1, t.len() as int) =~= rest.push(v));
        assert(t[0] == s[0]);
        assert(values_view(t) =~= values_view(s).push(value_view(v)));
    }
}

proof fn lemma_elements_view_push(s: Seq<AnnotationElement>, e: AnnotationElement)
    ensures
        elements_view(s.push(e)) == elements_view(s).push((e.name_idx, value_view(e.value))),
    decreases s.len(),
{
    let t = s.push(e);
    if s.len() == 0 {
        assert(t.subrange(1, t.len() as int) =~= Seq::<AnnotationElement>::empty());
        assert(t[0] == e);
        assert(elements_view(t.subrange(1, t.len() as int)) =~= Seq::<(u64, EncodedValueView)>::empty());
        assert(elements_view(s) =~= Seq::<(u64, EncodedValueView)>::empty());
        assert(elements_view(t) =~= seq![(e.name_idx, value_view(e.value))]);
    } else {
        let rest = s.subrange(1, s.len() as int);
        lemma_elements_view_push(rest, e);
        assert(t.subrange(1, t.len() as int) =~= rest.push(e));
        assert(t[0] == s[0]);
        assert(elements_view(t) =~= elements_view(s).push((e.name_idx, value_view(e.value))));
    }
}

/// `256` to the power `n`, for `n` at most 8.
fn pow256_exec(n: u64) -> (r: u128)
    requires
        n <= 8,
    ensures
        r == pow256(n as nat),
        r <= 0x1_0000_0000_0000_0000,
{
    let mut r: u128 = 1;
    let mut i: u64 = 0;
    while i < n
        invariant
            i <= n <= 8,
            r == pow256(i as nat),
        decreases n - i,
    {
        proof {
            lemma_pow256_bounded((i + 1) as nat);
        }
        r = r * 256;
        i = i + 1;
    }
    proof {
        lemma_pow256_bounded(n as nat);
    }
    r
}

proof fn lemma_pow256_bounded(n: nat)
    requires
        n <= 8,
    ensures
        pow256(n) <= 0x1_0000_0000_0000_0000,
{
    lemma_pow256_split(n, (8 - n) as nat);
    lemma_pow256_positive((8 - n) as nat);
    assert(pow256(n) <= pow256(n) * pow256((8 - n) as nat)) by (nonlinear_arith)
        requires
            pow256((8 - n) as nat) >= 1,
    ;
}

proof fn lemma_pow256_positive(n: nat)
    ensures
        pow256(n) >= 1,
    decreases n,
{
    if n > 0 {
        lemma_pow256_positive((n - 1) as nat);
    }
}

/// `256^8 == 2^64`.
proof fn lemma_pow256_8()
    ensures
        pow256(8) == 0x1_0000_0000_0000_0000,
{
    reveal_with_fuel(pow256, 9);
}

/// `256^a * 256^b == 256^(a + b)`, and `256^8 == 2^64`.
proof fn lemma_pow256_split(a: nat, b: nat)
    ensures
        pow256(a) * pow256(b) == pow256(a + b),
        pow256(8) == 0x1_0000_0000_0000_0000,
    decreases a,
{
    lemma_pow256_8();
    if a > 0 {
        lemma_pow256_split((a - 1) as nat, b);
        assert(pow256(a + b) == 256 * pow256((a + b - 1) as nat));
        assert(pow256(a) * pow256(b) == 256 * (pow256((a - 1) as nat) * pow256(b))) by (nonlinear_arith)
            requires
                pow256(a) == 256 * pow256((a - 1) as nat),
        ;
        assert(((a - 1) as nat + b) as nat == (a + b - 1) as nat);
    } else {
        assert(pow256(0) == 1);
        assert(pow256(a) * pow256(b) == pow256(b));
    }
}

/// Reads the `n`-byte little-endian number at offset `p` of `bytes`.
fn read_le(bytes: &[u8], p: u64, n: u64) -> (r: u64)
    requires
        1 <= n <= 8,
        p + n <= bytes@.len(),
    ensures
        r == le_value(bytes@, p as int, n as nat),
        r < pow256(n as nat),
{
    let blen: usize = bytes.len();
    assert(bytes@.len() <= u64::MAX);
    let mut raw: u64 = 0;
    let mut w: u128 = 1;
    let mut i: u64 = 0;
    while i < n
        invariant
            i <= n <= 8,
            p + n <= bytes@.len(),
            bytes@.len() <= u64::MAX,
            raw == le_value(bytes@, p as int, i as nat),
            raw < pow256(i as nat),
            w == pow256(i as nat),
        decreases n - i,
    {
        let byte = bytes[(p + i) as usize];
        proof {
            lemma_pow256_bounded((i + 1) as nat);
        }
        assert(raw + byte * w < 256 * w) by (nonlinear_arith)
            requires
                byte <= 255,
                raw < w,
        ;
        raw = (raw as u128 + (byte as u128) * w) as u64;
        w = w * 256;
        i = i + 1;
    }
    raw
}

/// The largest value argument of value type `t`, or none where `t` is not a value type.
fn max_value_arg_exec(t: u8) -> (r: Option<u8>)
    ensures
        r == max_value_arg(t),
{
    if t == 0x00 || t == 0x1c || t == 0x1d || t == 0x1e {
        Some(0)
    } else if t == 0x02 || t == 0x03 || t == 0x1f {
        Some(1)
    } else if t == 0x04 || t == 0x10 || (0x15 <= t && t <= 0x1b) {
        Some(3)
    } else if t == 0x06 || t == 0x11 {
        Some(7)
    } else {
        None
    }
}

/// The scalar value of type `t` whose data is the `n`-byte number `raw`.
fn scalar_value(t: u8, raw: u64, n: u64) -> (r: EncodedValue)
    requires
        is_scalar_type(t),
        1 <= n <= 8,
        raw < pow256(n as nat),
        t == 0x10 ==> n <= 4,
    ensures
        value_view(r) == scalar_view(t, raw as nat, n as nat),
{
    let total = pow256_exec(n) as i128;
    let signed: i128 = if 2 * (raw as i128) >= total {
        raw as i128 - total
    } else {
        raw as i128
    };
    if t == 0x00 {
        EncodedValue::Byte(signed as i8)
    } else if t == 0x02 {
        EncodedValue::Short(signed as i16)
    } else if t == 0x03 {
        EncodedValue::Char(raw as u16)
    } else if t == 0x04 {
        EncodedValue::Int(signed as i32)
    } else if t == 0x06 {
        EncodedValue::Long(signed as i64)
    } else if t == 0x10 {
        let w = pow256_exec(4 - n);
        assert(raw * w < 0x1_0000_0000_0000_0000_0000_0000_0000_0000) by (nonlinear_arith)
            requires
                raw < 0x1_0000_0000_0000_0000,
                w <= 0x1_0000_0000_0000_0000,
        ;
        EncodedValue::Float((raw as u128 * w) as u32)
    } else if t == 0x11 {
        let w = pow256_exec(8 - n);
        assert(raw * w < 0x1_0000_0000_0000_0000_0000_0000_0000_0000) by (nonlinear_arith)
            requires
                raw < 0x1_0000_0000_0000_0000,
                w <= 0x1_0000_0000_0000_0000,
        ;
        EncodedValue::Double((raw as u128 * w) as u64)
    } else if t == 0x15 {
        EncodedValue::MethodType(raw as u32)
    } else if t == 0x16 {
        EncodedValue::MethodHandle(raw as u32)
    } else if t == 0x17 {
        EncodedValue::String(raw as u32)
    } else if t == 0x18 {
        EncodedValue::Type(raw as u32)
    } else if t == 0x19 {
        EncodedValue::Field(raw as u32)
    } else if t == 0x1a {
        EncodedValue::Method(raw as u32)
    } else {
        EncodedValue::Enum(raw as u32)
    }
}

/// `r` read the value that `s` describes, ending at the same offset, or failed the same way.
pub open spec fn value_result_matches(r: Result<(EncodedValue, u64), DexError>, s: Result<(EncodedValueView, int), DexError>) -> bool {
    match (r, s) {
        (Ok((v, q)), Ok((w, q2))) => value_view(v) == w && q == q2,
        (Err(e), Err(e2)) => e == e2,
        _ => false,
    }
}

/// Reads the encoded value whose header byte is at offset `p` of `bytes`; gives the value
/// and the offset just past it.
pub fn read_value(bytes: &[u8], p: u64) -> (r: Result<(EncodedValue, u64), DexError>)
    ensures
        value_result_matches(r, spec_value(bytes@, p as int)),
        r matches Ok((_, q)) ==> q <= bytes@.len(),
    decreases (bytes@.len() - p) as nat, 0nat, 0nat,
{
    let len = bytes.len() as u64;
    if p >= len {
        return Err(DexError::Read { offset: p, size: 1, len });
    }
    let h = bytes[p as usize];
    let t = h % 32;
    let arg = h / 32;
    let m = match max_value_arg_exec(t) {
        None => return Err(DexError::MalFormed(Malformed::EncodedValueType(t))),
        Some(m) => m,
    };
    if arg > m {
        return Err(DexError::MalFormed(Malformed::EncodedValueArg(h)));
    }
    if t == 0x00 || t == 0x02 || t == 0x03 || t == 0x04 || t == 0x06 || t == 0x10 || t == 0x11 || (
    0x15 <= t && t <= 0x1b) {
        let n = arg as u64 + 1;
        if n > len - p - 1 {
            return Err(DexError::Read { offset: p + 1, size: n, len });
        }
        let raw = read_le(bytes, p + 1, n);
        return Ok((scalar_value(t, raw, n), p + 1 + n));
    }
    if t == 0x1c {
        let (n, k) = read_uleb128(bytes, p + 1)?;
        let (vs, q) = read_values(bytes, p + 1 + k, n)?;
        return Ok((EncodedValue::Array(vs), q));
    }
    if t == 0x1d {
        let (type_idx, elements, q) = read_annotation(bytes, p + 1)?;
        return Ok((EncodedValue::Annotation(EncodedAnnotation { type_idx, elements }), q));
    }
    if t == 0x1e {
        return Ok((EncodedValue::Null, p + 1));
    }
    Ok((EncodedValue::Boolean(arg == 1), p + 1))
}

/// Reads `n` encoded values one after the other at offset `p` of `bytes`.
pub fn read_values(bytes: &[u8], p: u64, n: u64) -> (r: Result<(Vec<EncodedValue>, u64), DexError>)
    requires
        p <= bytes@.len(),
    ensures
        (match (r, spec_values(bytes@, p as int, n as nat)) {
            (Ok((v, q)), Ok((s, q2))) => values_view(v@) == s && q == q2 && q <= bytes@.len(),
            (Err(e), Err(e2)) => e == e2,
            _ => false,
        }),
    decreases (bytes@.len() - p) as nat, 0nat, n,
{
    let len = bytes.len() as u64;
    let mut out: Vec<EncodedValue> = Vec::new();
    let mut i: u64 = 0;
    let mut pos = p;
    assert(values_view(out@) + Seq::<EncodedValueView>::empty() =~= values_view(out@));
    while i < n
        invariant
            i <= n,
            p <= pos <= bytes@.len(),
            len == bytes@.len(),
            i == 0 ==> pos == p,
            i > 0 ==> pos > p,
            spec_values(bytes@, p as int, n as nat) == prepend(
                values_view(out@),
                spec_values(bytes@, pos as int, (n - i) as nat),
            ),
        decreases n - i,
    {
        let (v, q) = read_value(bytes, pos)?;
        proof {
            lemma_value_advances(bytes@, pos as int);
        }
        let ghost vv = value_view(v);
        let ghost rest = spec_values(bytes@, q as int, (n - i - 1) as nat);
        let ghost old_out = out@;
        out.push(v);
        proof {
            lemma_values_view_push(old_out, v);
            if let Ok((t, end)) = rest {
                assert(values_view(old_out) + (seq![vv] + t) =~= values_view(out@) + t);
            }
        }
        pos = q;
        i = i + 1;
    }
    assert(values_view(out@) + Seq::<EncodedValueView>::empty() =~= values_view(out@));
    Ok((out, pos))
}

/// Reads the encoded annotation at offset `p` of `bytes`: its type index, its elements and
/// the offset just past it.
pub fn read_annotation(bytes: &[u8], p: u64) -> (r: Result<(u64, Vec<AnnotationElement>, u64), DexError>)
    ensures
        (match (r, spec_annotation(bytes@, p as int)) {
            (Ok((t, es, q)), Ok((t2, es2, q2))) => t == t2 && elements_view(es@) == es2 && q == q2
                && q <= bytes@.len(),
            (Err(e), Err(e2)) => e == e2,
            _ => false,
        }),
    decreases (bytes@.len() - p) as nat, 1nat, 0nat,
{
    let blen: usize = bytes.len();
    assert(bytes@.len() <= u64::MAX);
    let (type_idx, k1) = read_uleb128(bytes, p)?;
    let (n, k2) = read_uleb128(bytes, p + k1)?;
    let (elements, q) = read_elements(bytes, p + k1 + k2, n)?;
    Ok((type_idx, elements, q))
}

/// Reads `n` annotation elements at offset `p` of `bytes`.
fn read_elements(bytes: &[u8], p: u64, n: u64) -> (r: Result<(Vec<AnnotationElement>, u64), DexError>)
    requires
        p <= bytes@.len(),
    ensures
        (match (r, spec_elements(bytes@, p as int, n as nat)) {
            (Ok((v, q)), Ok((s, q2))) => elements_view(v@) == s && q == q2 && q <= bytes@.len(),
            (Err(e), Err(e2)) => e == e2,
            _ => false,
        }),
    decreases (bytes@.len() - p) as nat, 0nat, n,
{
    let len = bytes.len() as u64;
    let mut out: Vec<AnnotationElement> = Vec::new();
    let mut i: u64 = 0;
    let mut pos = p;
    assert(elements_view(out@) + Seq::<(u64, EncodedValueView)>::empty() =~= elements_view(out@));
    while i < n
        invariant
            i <= n,
            p <= pos <= bytes@.len(),
            len == bytes@.len(),
            spec_elements(bytes@, p as int, n as nat) == prepend(
                elements_view(out@),
                spec_elements(bytes@, pos as int, (n - i) as nat),
            ),
        decreases n - i,
    {
        let (name_idx, k) = read_uleb128(bytes, pos)?;
        let (value, q) = read_value(bytes, pos + k)?;
        proof {
            lemma_value_advances(bytes@, (pos + k) as int);
        }
        let el = AnnotationElement { name_idx, value };
        let ghost ev = (name_idx, value_view(el.value));
        let ghost rest = spec_elements(bytes@, q as int, (n - i - 1) as nat);
        let ghost old_out = out@;
        proof {
            lemma_elements_view_push(old_out, el);
        }
        out.push(el);
        proof {
            if let Ok((t, end)) = rest {
                assert(elements_view(old_out) + (seq![ev] + t) =~= elements_view(out@) + t);
            }
        }
        pos = q;
        i = i + 1;
    }
    assert(elements_view(out@) + Seq::<(u64, EncodedValueView)>::empty() =~= elements_view(out@));
    Ok((out, pos))
}

/// Reading an encoded array at offset `p`: an unsigned LEB128 count, then that many values.
pub open spec fn spec_encoded_array(b: Seq<u8>, p: int) -> Result<Seq<EncodedValueView>, DexError> {
    match spec_uleb128(b, p) {
        Err(e) => Err(e),
        Ok((n, k)) => match spec_values(b, p + k, n as nat) {
            Err(e) => Err(e),
            Ok((vs, _)) => Ok(vs),
        },
    }
}

/// The contents of an annotation item.
pub struct AnnotationItemView {
    pub visibility: u8,
    pub type_idx: u64,
    pub elements: Seq<(u64, EncodedValueView)>,
}

/// Reading an annotation item at offset `p`: a visibility byte, then an encoded annotation.
pub open spec fn spec_annotation_item(b: Seq<u8>, p: int) -> Result<AnnotationItemView, DexError> {
    if p < 0 || p >= b.len() {
        Err(read_error(b, p, 1))
    } else {
        match spec_annotation(b, p + 1) {
            Err(e) => Err(e),
            Ok((type_idx, elements, _)) => Ok(AnnotationItemView { visibility: b[p], type_idx, elements }),
        }
    }
}

/// A list of encoded values, such as the initial values of the static fields of a class.
pub struct EncodedArray {
    values: Vec<EncodedValue>,
}

impl View for EncodedArray {
    type V = Seq<EncodedValueView>;

    closed spec fn view(&self) -> Seq<EncodedValueView> {
        values_view(self.values@)
    }
}

impl EncodedArray {
    /// The values, in order.
    pub fn values(&self) -> (r: &Vec<EncodedValue>)
        ensures
            values_view(r@) == self@,
    {
        &self.values
    }
}

/// An annotation with its visibility.
pub struct AnnotationItem {
    visibility: u8,
    annotation: EncodedAnnotation,
}

impl View for AnnotationItem {
    type V = AnnotationItemView;

    closed spec fn view(&self) -> AnnotationItemView {
        AnnotationItemView {
            visibility: self.visibility,
            type_idx: self.annotation.type_idx,
            elements: elements_view(self.annotation.elements@),
        }
    }
}

impl AnnotationItem {
    /// The visibility of the annotation (build, runtime or system).
    pub fn visibility(&self) -> (r: u8)
        ensures
            r == self@.visibility,
    {
        self.visibility
    }

    /// The type index of the annotation.
    pub fn type_idx(&self) -> (r: u64)
        ensures
            r == self@.type_idx,
    {
        self.annotation.type_idx
    }

    /// The elements of the annotation.
    pub fn elements(&self) -> (r: &Vec<AnnotationElement>)
        ensures
            elements_view(r@) == self@.elements,
    {
        &self.annotation.elements
    }
}

/// Reads the encoded array at offset `p` of `bytes`.
pub fn read_encoded_array(bytes: &[u8], p: u64) -> (r: Result<EncodedArray, DexError>)
    ensures
        (match (r, spec_encoded_array(bytes@, p as int)) {
            (Ok(a), Ok(s)) => a@ == s,
            (Err(e), Err(e2)) => e == e2,
            _ => false,
        }),
{
    let blen: usize = bytes.len();
    assert(bytes@.len() <= u64::MAX);
    let (n, k) = read_uleb128(bytes, p)?;
    let (values, _) = read_values(bytes, p + k, n)?;
    Ok(EncodedArray { values })
}

/// Reads the annotation item at offset `p` of `bytes`.
pub fn read_annotation_item(bytes: &[u8], p: u64) -> (r: Result<AnnotationItem, DexError>)
    ensures
        (match (r, spec_annotation_item(bytes@, p as int)) {
            (Ok(a), Ok(s)) => a@ == s,
            (Err(e), Err(e2)) => e == e2,
            _ => false,
        }),
{
    let len = bytes.len() as u64;
    if p >= len {
        return Err(DexError::Read { offset: p, size: 1, len });
    }
    let visibility = bytes[p as usize];
    let (type_idx, elements, _) = read_annotation(bytes, p + 1)?;
    Ok(AnnotationItem { visibility, annotation: EncodedAnnotation { type_idx, elements } })
}

/// Law: the little-endian number of one, two, three or four bytes is the first byte, the
/// little-endian `u16`, the first three bytes weighted 1, 256, 65536, and the little-endian
/// `u32` at that offset.
pub proof fn law_le_value_small(b: Seq<u8>, p: int)
    requires
        0 <= p,
        p + 4 <= b.len(),
    ensures
        le_value(b, p, 1) == b[p],
        le_value(b, p, 2) == spec_u16(b, p, Endian::Little),
        le_value(b, p, 3) == b[p] + 256 * b[p + 1] + 65536 * b[p + 2],
        le_value(b, p, 4) == spec_u32(b, p, Endian::Little),
{
    assert(pow256(0) == 1);
    assert(pow256(1) == 256);
    assert(pow256(2) == 65536);
    assert(pow256(3) == 16777216);
    assert(le_value(b, p, 0) == 0);
    assert(le_value(b, p, 1) == b[p]);
    assert((b[p + 1] as nat) * pow256(1) == (b[p + 1] as nat) * 256);
    assert((b[p + 2] as nat) * pow256(2) == (b[p + 2] as nat) * 65536);
    assert((b[p + 3] as nat) * pow256(3) == (b[p + 3] as nat) * 16777216);
    assert(le_value(b, p, 2) == b[p] + 256 * b[p + 1]);
    assert(le_value(b, p, 3) == b[p] + 256 * b[p + 1] + 65536 * b[p + 2]);
    assert(le_value(b, p, 4) == b[p] + 256 * b[p + 1] + 65536 * b[p + 2] + 16777216 * b[p + 3]);
}

/// Law: a value whose type (the low five bits of its header byte) holds its data in the
/// bytes after the header is followed by `value_arg + 1` data bytes (the high three bits
/// plus one), read as a little-endian number, and ends right after them. In particular a
/// one-byte `Int` (header `0x04`) is its byte taken as a signed byte, a four-byte `Int`
/// (header `0x64`) the little-endian `u32` after the header taken as an `i32`, and a one- or
/// four-byte string index (headers `0x17`, `0x77`) the byte or the little-endian `u32` after
/// the header.
pub proof fn law_scalar_value_layout(b: Seq<u8>, p: int)
    requires
        0 <= p,
    ensures
        p < b.len() && is_scalar_type(b[p] % 32) ==> (spec_value(b, p) matches Ok((v, q)) ==> {
            let n = (b[p] / 32 + 1) as nat;
            &&& q == p + 1 + n
            &&& q <= b.len()
            &&& v == scalar_view(b[p] % 32, le_value(b, p + 1, n), n)
        }),
        p < b.len() && b[p] == 0x04 ==> (spec_value(b, p) matches Ok((v, q)) ==> v == EncodedValueView::Int(
            (if b[p + 1] < 128 {
                b[p + 1] as int
            } else {
                b[p + 1] - 256
            }) as i32,
        )),
        p < b.len() && b[p] == 0x64 ==> (spec_value(b, p) matches Ok((v, q)) ==> v == EncodedValueView::Int(
            (if spec_u32(b, p + 1, Endian::Little) < 0x8000_0000 {
                spec_u32(b, p + 1, Endian::Little) as int
            } else {
                spec_u32(b, p + 1, Endian::Little) - 0x1_0000_0000
            }) as i32,
        )),
        p < b.len() && b[p] == 0x17 ==> (spec_value(b, p) matches Ok((v, q)) ==> v == EncodedValueView::String(b[p + 1] as u32)),
        p < b.len() && b[p] == 0x77 ==> (spec_value(b, p) matches Ok((v, q)) ==> v == EncodedValueView::String(
            spec_u32(b, p + 1, Endian::Little),
        )),
{
    if let Ok((v, q)) = spec_value(b, p) {
        if b[p] == 0x04 || b[p] == 0x17 {
            reveal_with_fuel(le_value, 2);
            reveal_with_fuel(pow256, 2);
        }
        if b[p] == 0x64 || b[p] == 0x77 {
            law_le_value_small(b, p + 1);
            assert(pow256(4) == 0x1_0000_0000) by {
                assert(pow256(1) == 256);
                assert(pow256(2) == 65536);
                assert(pow256(3) == 16777216);
            }
        }
    }
}

/// Law: `n` values read one after another are `n` values, and an encoded array is as many
/// values as the unsigned LEB128 count at its start says.
pub proof fn law_values_count(b: Seq<u8>, p: int, n: nat)
    ensures
        spec_values(b, p, n) matches Ok((vs, _)) ==> vs.len() == n,
        spec_encoded_array(b, p) matches Ok(vs) ==> (spec_uleb128(b, p) matches Ok((m, _)) && vs.len() == m),
{
    lemma_values_count(b, p, n);
    if let Ok((m, k)) = spec_uleb128(b, p) {
        lemma_values_count(b, p + k, m as nat);
    }
}

/// `n` values read one after another are `n` values.
proof fn lemma_values_count(b: Seq<u8>, p: int, n: nat)
    ensures
        spec_values(b, p, n) matches Ok((vs, _)) ==> vs.len() == n,
    decreases n,
{
    if n > 0 {
        if let Ok((v, q)) = spec_value(b, p) {
            if q > p && q <= b.len() {
                lemma_values_count(b, q, (n - 1) as nat);
            }
        }
    }
}

} // verus!
