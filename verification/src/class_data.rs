use vstd::prelude::*;

use crate::error::{DexError, Malformed};
use crate::jstring::{read_uleb128, spec_uleb128};

verus! {

/// A field of a class data item: its field index and its access flags.
#[derive(Debug, Clone, Copy, PartialEq, Eq, Structural)]
pub struct EncodedField {
    pub field_id: u64,
    pub access_flags: u64,
}

/// A method of a class data item: its method index, access flags and code offset.
#[derive(Debug, Clone, Copy, PartialEq, Eq, Structural)]
pub struct EncodedMethod {
    pub method_id: u64,
    pub access_flags: u64,
    pub code_offset: u64,
}

/// `r` with `s` put in front of the items it read.
pub open spec fn prepend<T>(s: Seq<T>, r: Result<(Seq<T>, int), DexError>) -> Result<(Seq<T>, int), DexError> {
    match r {
        Ok((t, end)) => Ok((s + t, end)),
        Err(e) => Err(e),
    }
}

/// Reading `n` encoded fields at byte offset `p` of `b`, each an unsigned LEB128 index
/// difference and unsigned LEB128 access flags; the first field's index is `prev` plus its
/// difference, each next one the previous index plus its difference. Gives the fields and
/// the offset just past them.
pub open spec fn spec_encoded_fields(b: Seq<u8>, p: int, n: nat, prev: int) -> Result<
    (Seq<EncodedField>, int),
    DexError,
>
    decreases n,
{
    if n == 0 {
        Ok((Seq::empty(), p))
    } else {
        match spec_uleb128(b, p) {
            Err(e) => Err(e),
            Ok((diff, k1)) => match spec_uleb128(b, p + k1) {
                Err(e) => Err(e),
                Ok((flags, k2)) => {
                    let id = prev + diff;
                    if id > u64::MAX {
                        Err(DexError::MalFormed(Malformed::IdOverflow))
                    } else {
                        prepend(
                            seq![EncodedField { field_id: id as u64, access_flags: flags }],
                            spec_encoded_fields(b, p + k1 + k2, (n - 1) as nat, id),
                        )
                    }
                },
            },
        }
    }
}

/// Reading `n` encoded methods at byte offset `p` of `b`, each an unsigned LEB128 index
/// difference, access flags and code offset, the indices summed as for fields.
pub open spec fn spec_encoded_methods(b: Seq<u8>, p: int, n: nat, prev: int) -> Result<
    (Seq<EncodedMethod>, int),
    DexError,
>
    decreases n,
{
    if n == 0 {
        Ok((Seq::empty(), p))
    } else {
        match spec_uleb128(b, p) {
            Err(e) => Err(e),
            Ok((diff, k1)) => match spec_uleb128(b, p + k1) {
                Err(e) => Err(e),
                Ok((flags, k2)) => match spec_uleb128(b, p + k1 + k2) {
                    Err(e) => Err(e),
                    Ok((code, k3)) => {
                        let id = prev + diff;
                        if id > u64::MAX {
                            Err(DexError::MalFormed(Malformed::IdOverflow))
                        } else {
                            prepend(
                                seq![EncodedMethod { method_id: id as u64, access_flags: flags, code_offset: code }],
                                spec_encoded_methods(b, p + k1 + k2 + k3, (n - 1) as nat, id),
                            )
                        }
                    },
                },
            },
        }
    }
}

/// The contents of a class data item.
pub struct ClassDataItemView {
    pub static_fields: Seq<EncodedField>,
    pub instance_fields: Seq<EncodedField>,
    pub direct_methods: Seq<EncodedMethod>,
    pub virtual_methods: Seq<EncodedMethod>,
}

/// Reading the class data item at byte offset `p` of `b`: four unsigned LEB128 counts, then
/// the static fields, instance fields, direct methods and virtual methods, each list
/// numbering its indices from zero.
pub open spec fn spec_class_data(b: Seq<u8>, p: int) -> Result<ClassDataItemView, DexError> {
    match spec_uleb128(b, p) {
        Err(e) => Err(e),
        Ok((n_sf, k1)) => match spec_uleb128(b, p + k1) {
            Err(e) => Err(e),
            Ok((n_if, k2)) => match spec_uleb128(b, p + k1 + k2) {
                Err(e) => Err(e),
                Ok((n_dm, k3)) => match spec_uleb128(b, p + k1 + k2 + k3) {
                    Err(e) => Err(e),
                    Ok((n_vm, k4)) => match spec_encoded_fields(b, p + k1 + k2 + k3 + k4, n_sf as nat, 0) {
                        Err(e) => Err(e),
                        Ok((sf, p5)) => match spec_encoded_fields(b, p5, n_if as nat, 0) {
                            Err(e) => Err(e),
                            Ok((inf, p6)) => match spec_encoded_methods(b, p6, n_dm as nat, 0) {
                                Err(e) => Err(e),
                                Ok((dm, p7)) => match spec_encoded_methods(b, p7, n_vm as nat, 0) {
                                    Err(e) => Err(e),
                                    Ok((vm, _)) => Ok(
                                        ClassDataItemView {
                                            static_fields: sf,
                                            instance_fields: inf,
                                            direct_methods: dm,
                                            virtual_methods: vm,
                                        },
                                    ),
                                },
                            },
                        },
                    },
                },
            },
        },
    }
}

/// Law: the `n` encoded fields read at `p` after index `prev` are `n` fields; the first
/// one's index is `prev` plus the unsigned LEB128 difference at `p` and its access flags the
/// unsigned LEB128 number right after it; and the indices never decrease, each being the
/// previous one plus a difference.
pub proof fn law_encoded_fields(b: Seq<u8>, p: int, n: nat, prev: int)
    requires
        0 <= prev,
    ensures
        spec_encoded_fields(b, p, n, prev) matches Ok((fs, _)) ==> {
            &&& fs.len() == n
            &&& n > 0 ==> (spec_uleb128(b, p) matches Ok((diff, k1)) && fs[0].field_id == prev + diff
                && (spec_uleb128(b, p + k1) matches Ok((flags, _)) && fs[0].access_flags == flags))
            &&& n > 0 ==> prev <= fs[0].field_id
            &&& forall|j: int| 0 < j < n ==> fs[j - 1].field_id <= #[trigger] fs[j].field_id
        },
    decreases n,
{
    if n > 0 {
        if let Ok((diff, k1)) = spec_uleb128(b, p) {
            if let Ok((flags, k2)) = spec_uleb128(b, p + k1) {
                let id = prev + diff;
                if id <= u64::MAX {
                    law_encoded_fields(b, p + k1 + k2, (n - 1) as nat, id);
                    if let Ok((fs, _)) = spec_encoded_fields(b, p, n, prev) {
                        let rest = spec_encoded_fields(b, p + k1 + k2, (n - 1) as nat, id)->Ok_0.0;
                        assert(fs == seq![EncodedField { field_id: id as u64, access_flags: flags }] + rest);
                        assert forall|j: int| 0 < j < n implies fs[j - 1].field_id <= #[trigger] fs[j].field_id by {
                            assert(fs[j] == rest[j - 1]);
                            if j > 1 {
                                assert(fs[j - 1] == rest[j - 2]);
                            }
                        }
                    }
                }
            }
        }
    }
}

/// Law: the `n` encoded methods read at `p` after index `prev` are `n` methods; the first
/// one's index is `prev` plus the unsigned LEB128 difference at `p`, followed by its access
/// flags and its code offset as unsigned LEB128 numbers; and the indices never decrease.
pub proof fn law_encoded_methods(b: Seq<u8>, p: int, n: nat, prev: int)
    requires
        0 <= prev,
    ensures
        spec_encoded_methods(b, p, n, prev) matches Ok((ms, _)) ==> {
            &&& ms.len() == n
            &&& n > 0 ==> (spec_uleb128(b, p) matches Ok((diff, k1)) && ms[0].method_id == prev + diff
                && (spec_uleb128(b, p + k1) matches Ok((flags, k2)) && ms[0].access_flags == flags
                && (spec_uleb128(b, p + k1 + k2) matches Ok((code, _)) && ms[0].code_offset == code)))
            &&& n > 0 ==> prev <= ms[0].method_id
            &&& forall|j: int| 0 < j < n ==> ms[j - 1].method_id <= #[trigger] ms[j].method_id
        },
    decreases n,
{
    if n > 0 {
        if let Ok((diff, k1)) = spec_uleb128(b, p) {
            if let Ok((flags, k2)) = spec_uleb128(b, p + k1) {
                if let Ok((code, k3)) = spec_uleb128(b, p + k1 + k2) {
                    let id = prev + diff;
                    if id <= u64::MAX {
                        law_encoded_methods(b, p + k1 + k2 + k3, (n - 1) as nat, id);
                        if let Ok((ms, _)) = spec_encoded_methods(b, p, n, prev) {
                            let rest = spec_encoded_methods(b, p + k1 + k2 + k3, (n - 1) as nat, id)->Ok_0.0;
                            assert(ms == seq![EncodedMethod { method_id: id as u64, access_flags: flags, code_offset: code }] + rest);
                            assert forall|j: int| 0 < j < n implies ms[j - 1].method_id <= #[trigger] ms[j].method_id by {
                                assert(ms[j] == rest[j - 1]);
                                if j > 1 {
                                    assert(ms[j - 1] == rest[j - 2]);
                                }
                            }
                        }
                    }
                }
            }
        }
    }
}

/// Law: a class data item at `p` lists as many static fields, instance fields, direct
/// methods and virtual methods as the four unsigned LEB128 counts at its start say, in that
/// order, and each list's indices start from zero and never decrease.
pub proof fn law_class_data_counts(b: Seq<u8>, p: int)
    ensures
        spec_class_data(b, p) matches Ok(c) ==> (spec_uleb128(b, p) matches Ok((n_sf, k1)) && (spec_uleb128(
            b,
            p + k1,
        ) matches Ok((n_if, k2)) && (spec_uleb128(b, p + k1 + k2) matches Ok((n_dm, k3)) && (spec_uleb128(
            b,
            p + k1 + k2 + k3,
        ) matches Ok((n_vm, _)) && {
            &&& c.static_fields.len() == n_sf
            &&& c.instance_fields.len() == n_if
            &&& c.direct_methods.len() == n_dm
            &&& c.virtual_methods.len() == n_vm
            &&& forall|j: int| 0 < j < n_sf ==> c.static_fields[j - 1].field_id <= #[trigger] c.static_fields[j].field_id
            &&& forall|j: int|
                0 < j < n_if ==> c.instance_fields[j - 1].field_id <= #[trigger] c.instance_fields[j].field_id
            &&& forall|j: int|
                0 < j < n_dm ==> c.direct_methods[j - 1].method_id <= #[trigger] c.direct_methods[j].method_id
            &&& forall|j: int|
                0 < j < n_vm ==> c.virtual_methods[j - 1].method_id <= #[trigger] c.virtual_methods[j].method_id
        })))),
{
    if let Ok((n_sf, k1)) = spec_uleb128(b, p) {
        if let Ok((n_if, k2)) = spec_uleb128(b, p + k1) {
            if let Ok((n_dm, k3)) = spec_uleb128(b, p + k1 + k2) {
                if let Ok((n_vm, k4)) = spec_uleb128(b, p + k1 + k2 + k3) {
                    let q = p + k1 + k2 + k3 + k4;
                    law_encoded_fields(b, q, n_sf as nat, 0);
                    if let Ok((_, p5)) = spec_encoded_fields(b, q, n_sf as nat, 0) {
                        law_encoded_fields(b, p5, n_if as nat, 0);
                        if let Ok((_, p6)) = spec_encoded_fields(b, p5, n_if as nat, 0) {
                            law_encoded_methods(b, p6, n_dm as nat, 0);
                            if let Ok((_, p7)) = spec_encoded_methods(b, p6, n_dm as nat, 0) {
                                law_encoded_methods(b, p7, n_vm as nat, 0);
                            }
                        }
                    }
                }
            }
        }
    }
}

/// The fields and methods that a class defines, as its class data item lists them.
pub struct ClassDataItem {
    static_fields: Vec<EncodedField>,
    instance_fields: Vec<EncodedField>,
    direct_methods: Vec<EncodedMethod>,
    virtual_methods: Vec<EncodedMethod>,
}

impl View for ClassDataItem {
    type V = ClassDataItemView;

    closed spec fn view(&self) -> ClassDataItemView {
        ClassDataItemView {
            static_fields: self.static_fields@,
            instance_fields: self.instance_fields@,
            direct_methods: self.direct_methods@,
            virtual_methods: self.virtual_methods@,
        }
    }
}

impl ClassDataItem {
    pub fn static_fields(&self) -> (r: &Vec<EncodedField>)
        ensures
            r@ == self@.static_fields,
    {
        &self.static_fields
    }

    pub fn instance_fields(&self) -> (r: &Vec<EncodedField>)
        ensures
            r@ == self@.instance_fields,
    {
        &self.instance_fields
    }

    pub fn direct_methods(&self) -> (r: &Vec<EncodedMethod>)
        ensures
            r@ == self@.direct_methods,
    {
        &self.direct_methods
    }

    pub fn virtual_methods(&self) -> (r: &Vec<EncodedMethod>)
        ensures
            r@ == self@.virtual_methods,
    {
        &self.virtual_methods
    }
}

/// Reads `n` encoded fields at byte offset `p` of `bytes`.
fn read_encoded_fields(bytes: &[u8], p: u64, n: u64) -> (r: Result<(Vec<EncodedField>, u64), DexError>)
    requires
        p <= bytes@.len(),
    ensures
        (match (r, spec_encoded_fields(bytes@, p as int, n as nat, 0)) {
            (Ok((v, end)), Ok((s, end2))) => v@ == s && end == end2 && end <= bytes@.len(),
            (Err(e), Err(e2)) => e == e2,
            _ => false,
        }),
{
    let blen: usize = bytes.len();
    assert(bytes@.len() <= u64::MAX);
    let mut out: Vec<EncodedField> = Vec::new();
    let mut i: u64 = 0;
    let mut pos = p;
    let mut prev: u64 = 0;
    assert(out@ + Seq::<EncodedField>::empty() =~= out@);
    while i < n
        invariant
            i <= n,
            pos <= bytes@.len(),
            bytes@.len() <= u64::MAX,
            spec_encoded_fields(bytes@, p as int, n as nat, 0) == prepend(
                out@,
                spec_encoded_fields(bytes@, pos as int, (n - i) as nat, prev as int),
            ),
        decreases n - i,
    {
        let (diff, k1) = read_uleb128(bytes, pos)?;
        let (flags, k2) = read_uleb128(bytes, pos + k1)?;
        if diff > u64::MAX - prev {
            return Err(DexError::MalFormed(Malformed::IdOverflow));
        }
        let id = prev + diff;
        let f = EncodedField { field_id: id, access_flags: flags };
        let ghost rest = spec_encoded_fields(bytes@, (pos + k1 + k2) as int, (n - i - 1) as nat, id as int);
        let ghost old_out = out@;
        out.push(f);
        proof {
            if let Ok((t, end)) = rest {
                assert(old_out + (seq![f] + t) =~= out@ + t);
            }
        }
        prev = id;
        pos = pos + k1 + k2;
        i = i + 1;
    }
    assert(out@ + Seq::<EncodedField>::empty() =~= out@);
    Ok((out, pos))
}

/// Reads `n` encoded methods at byte offset `p` of `bytes`.
fn read_encoded_methods(bytes: &[u8], p: u64, n: u64) -> (r: Result<(Vec<EncodedMethod>, u64), DexError>)
    requires
        p <= bytes@.len(),
    ensures
        (match (r, spec_encoded_methods(bytes@, p as int, n as nat, 0)) {
            (Ok((v, end)), Ok((s, end2))) => v@ == s && end == end2 && end <= bytes@.len(),
            (Err(e), Err(e2)) => e == e2,
            _ => false,
        }),
{
    let blen: usize = bytes.len();
    assert(bytes@.len() <= u64::MAX);
    let mut out: Vec<EncodedMethod> = Vec::new();
    let mut i: u64 = 0;
    let mut pos = p;
    let mut prev: u64 = 0;
    assert(out@ + Seq::<EncodedMethod>::empty() =~= out@);
    while i < n
        invariant
            i <= n,
            pos <= bytes@.len(),
            bytes@.len() <= u64::MAX,
            spec_encoded_methods(bytes@, p as int, n as nat, 0) == prepend(
                out@,
                spec_encoded_methods(bytes@, pos as int, (n - i) as nat, prev as int),
            ),
        decreases n - i,
    {
        let (diff, k1) = read_uleb128(bytes, pos)?;
        let (flags, k2) = read_uleb128(bytes, pos + k1)?;
        let (code, k3) = read_uleb128(bytes, pos + k1 + k2)?;
        if diff > u64::MAX - prev {
            return Err(DexError::MalFormed(Malformed::IdOverflow));
        }
        let id = prev + diff;
        let m = EncodedMethod { method_id: id, access_flags: flags, code_offset: code };
        let ghost rest = spec_encoded_methods(
            bytes@,
            (pos + k1 + k2 + k3) as int,
            (n - i - 1) as nat,
            id as int,
        );
        let ghost old_out = out@;
        out.push(m);
        proof {
            if let Ok((t, end)) = rest {
                assert(old_out + (seq![m] + t) =~= out@ + t);
            }
        }
        prev = id;
        pos = pos + k1 + k2 + k3;
        i = i + 1;
    }
    assert(out@ + Seq::<EncodedMethod>::empty() =~= out@);
    Ok((out, pos))
}

/// Reads the class data item at byte offset `p` of `bytes`.
pub fn read_class_data(bytes: &[u8], p: u64) -> (r: Result<ClassDataItem, DexError>)
    ensures
        result_matches_class_data(r, spec_class_data(bytes@, p as int)),
{
    let blen: usize = bytes.len();
    assert(bytes@.len() <= u64::MAX);
    let (n_sf, k1) = read_uleb128(bytes, p)?;
    let (n_if, k2) = read_uleb128(bytes, p + k1)?;
    let (n_dm, k3) = read_uleb128(bytes, p + k1 + k2)?;
    let (n_vm, k4) = read_uleb128(bytes, p + k1 + k2 + k3)?;
    let (static_fields, p5) = read_encoded_fields(bytes, p + k1 + k2 + k3 + k4, n_sf)?;
    let (instance_fields, p6) = read_encoded_fields(bytes, p5, n_if)?;
    let (direct_methods, p7) = read_encoded_methods(bytes, p6, n_dm)?;
    let (virtual_methods, _) = read_encoded_methods(bytes, p7, n_vm)?;
    Ok(ClassDataItem { static_fields, instance_fields, direct_methods, virtual_methods })
}

/// `r` is the class data item that `s` describes, or the same error.
pub open spec fn result_matches_class_data(r: Result<ClassDataItem, DexError>, s: Result<ClassDataItemView, DexError>) -> bool {
    match (r, s) {
        (Ok(c), Ok(v)) => c@ == v,
        (Err(e), Err(e2)) => e == e2,
        _ => false,
    }
}

} // verus!
