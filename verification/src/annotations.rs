use vstd::prelude::*;

use crate::error::DexError;
use crate::items::{read_u32_run, spec_u32_run};
use crate::read::{read_u32, spec_read_u32, spec_u32, Endian};

verus! {

/// An annotated member (a field, a method or a method's parameters) and the offset of its
/// annotations.
#[derive(Debug, Clone, Copy, PartialEq, Eq, Structural)]
pub struct AnnotationRef {
    pub idx: u32,
    pub annotations_off: u32,
}

/// Reading `n` consecutive annotation references (two `u32`s each) at byte offset `p`.
pub open spec fn spec_ref_run(b: Seq<u8>, p: int, n: nat, e: Endian) -> Result<Seq<AnnotationRef>, DexError>
    decreases n,
{
    if n == 0 {
        Ok(Seq::empty())
    } else {
        match spec_ref_run(b, p, (n - 1) as nat, e) {
            Err(err) => Err(err),
            Ok(s) => match spec_read_u32(b, p + 8 * (n - 1), e) {
                Err(err) => Err(err),
                Ok(idx) => match spec_read_u32(b, p + 8 * (n - 1) + 4, e) {
                    Err(err) => Err(err),
                    Ok(off) => Ok(s.push(AnnotationRef { idx, annotations_off: off })),
                },
            },
        }
    }
}

/// Reading a list of offsets at byte offset `p`: a `u32` count, then that many `u32`s.
pub open spec fn spec_offset_list(b: Seq<u8>, p: int, e: Endian) -> Result<Seq<u32>, DexError> {
    match spec_read_u32(b, p, e) {
        Err(err) => Err(err),
        Ok(n) => spec_u32_run(b, p + 4, n as nat, e),
    }
}

/// The contents of an annotations directory item.
pub struct AnnotationsDirectoryView {
    pub class_annotations_off: u32,
    pub field_annotations: Seq<AnnotationRef>,
    pub method_annotations: Seq<AnnotationRef>,
    pub parameter_annotations: Seq<AnnotationRef>,
}

/// Reading an annotations directory item at byte offset `p`: the offset of the class
/// annotations and three counts, then that many field, method and parameter annotation
/// references.
pub open spec fn spec_annotations_directory(b: Seq<u8>, p: int, e: Endian) -> Result<
    AnnotationsDirectoryView,
    DexError,
> {
    match spec_u32_run(b, p, 4, e) {
        Err(err) => Err(err),
        Ok(h) => match spec_ref_run(b, p + 16, h[1] as nat, e) {
            Err(err) => Err(err),
            Ok(fields) => match spec_ref_run(b, p + 16 + 8 * h[1], h[2] as nat, e) {
                Err(err) => Err(err),
                Ok(methods) => match spec_ref_run(b, p + 16 + 8 * h[1] + 8 * h[2], h[3] as nat, e) {
                    Err(err) => Err(err),
                    Ok(params) => Ok(
                        AnnotationsDirectoryView {
                            class_annotations_off: h[0],
                            field_annotations: fields,
                            method_annotations: methods,
                            parameter_annotations: params,
                        },
                    ),
                },
            },
        },
    }
}

/// A set of annotations, kept as the offsets of its annotation items.
pub struct AnnotationSetItem {
    entries: Vec<u32>,
}

impl View for AnnotationSetItem {
    type V = Seq<u32>;

    closed spec fn view(&self) -> Seq<u32> {
        self.entries@
    }
}

impl AnnotationSetItem {
    /// The offsets of the annotation items of the set.
    pub fn entries(&self) -> (r: &Vec<u32>)
        ensures
            r@ == self@,
    {
        &self.entries
    }
}

/// A list of annotation sets, kept as the offsets of the sets.
pub struct AnnotationSetRefList {
    list: Vec<u32>,
}

impl View for AnnotationSetRefList {
    type V = Seq<u32>;

    closed spec fn view(&self) -> Seq<u32> {
        self.list@
    }
}

impl AnnotationSetRefList {
    /// The offsets of the annotation sets of the list.
    pub fn list(&self) -> (r: &Vec<u32>)
        ensures
            r@ == self@,
    {
        &self.list
    }
}

/// The annotations of a class and of its members.
pub struct AnnotationsDirectoryItem {
    class_annotations_off: u32,
    field_annotations: Vec<AnnotationRef>,
    method_annotations: Vec<AnnotationRef>,
    parameter_annotations: Vec<AnnotationRef>,
}

impl View for AnnotationsDirectoryItem {
    type V = AnnotationsDirectoryView;

    closed spec fn view(&self) -> AnnotationsDirectoryView {
        AnnotationsDirectoryView {
            class_annotations_off: self.class_annotations_off,
            field_annotations: self.field_annotations@,
            method_annotations: self.method_annotations@,
            parameter_annotations: self.parameter_annotations@,
        }
    }
}

impl AnnotationsDirectoryItem {
    /// The offset of the annotation set of the class itself, or 0.
    pub fn class_annotations_off(&self) -> (r: u32)
        ensures
            r == self@.class_annotations_off,
    {
        self.class_annotations_off
    }

    /// The annotated fields.
    pub fn field_annotations(&self) -> (r: &Vec<AnnotationRef>)
        ensures
            r@ == self@.field_annotations,
    {
        &self.field_annotations
    }

    /// The annotated methods.
    pub fn method_annotations(&self) -> (r: &Vec<AnnotationRef>)
        ensures
            r@ == self@.method_annotations,
    {
        &self.method_annotations
    }

    /// The methods with annotated parameters.
    pub fn parameter_annotations(&self) -> (r: &Vec<AnnotationRef>)
        ensures
            r@ == self@.parameter_annotations,
    {
        &self.parameter_annotations
    }
}

proof fn lemma_ref_run_err_prefix(b: Seq<u8>, p: int, i: nat, n: nat, e: Endian)
    requires
        i <= n,
        spec_ref_run(b, p, i, e) is Err,
    ensures
        spec_ref_run(b, p, n, e) == spec_ref_run(b, p, i, e),
    decreases n,
{
    if n > i {
        lemma_ref_run_err_prefix(b, p, i, (n - 1) as nat, e);
    }
}

/// Reads `n` annotation references at byte offset `p` of `bytes`.
fn read_ref_run(bytes: &[u8], p: u64, n: u32, endian: Endian) -> (r: Result<Vec<AnnotationRef>, DexError>)
    ensures
        (match (r, spec_ref_run(bytes@, p as int, n as nat, endian)) {
            (Ok(v), Ok(s)) => v@ == s && (n == 0 || p + 8 * n <= bytes@.len()),
            (Err(e), Err(e2)) => e == e2,
            _ => false,
        }),
{
    let blen: usize = bytes.len();
    assert(bytes@.len() <= u64::MAX);
    let mut out: Vec<AnnotationRef> = Vec::new();
    let mut i: u32 = 0;
    let mut q: u64 = p;
    while i < n
        invariant
            i <= n,
            q == p + 8 * i,
            i > 0 ==> q <= bytes@.len(),
            bytes@.len() <= u64::MAX,
            spec_ref_run(bytes@, p as int, i as nat, endian) == Ok::<Seq<AnnotationRef>, DexError>(out@),
        decreases n - i,
    {
        let idx = match read_u32(bytes, q, endian) {
            Ok(v) => v,
            Err(e) => {
                proof {
                    lemma_ref_run_err_prefix(bytes@, p as int, (i + 1) as nat, n as nat, endian);
                }
                return Err(e);
            },
        };
        let off = match read_u32(bytes, q + 4, endian) {
            Ok(v) => v,
            Err(e) => {
                proof {
                    lemma_ref_run_err_prefix(bytes@, p as int, (i + 1) as nat, n as nat, endian);
                }
                return Err(e);
            },
        };
        out.push(AnnotationRef { idx, annotations_off: off });
        q = q + 8;
        i = i + 1;
    }
    Ok(out)
}

/// Reads the list of offsets at byte offset `p` of `bytes`.
fn read_offset_list(bytes: &[u8], p: u64, endian: Endian) -> (r: Result<Vec<u32>, DexError>)
    ensures
        (match (r, spec_offset_list(bytes@, p as int, endian)) {
            (Ok(v), Ok(s)) => v@ == s,
            (Err(e), Err(e2)) => e == e2,
            _ => false,
        }),
{
    let blen: usize = bytes.len();
    assert(bytes@.len() <= u64::MAX);
    let n = read_u32(bytes, p, endian)?;
    read_u32_run(bytes, p + 4, n, endian)
}

/// Reads the annotation set item at byte offset `p` of `bytes`.
pub fn read_annotation_set_item(bytes: &[u8], p: u32, endian: Endian) -> (r: Result<AnnotationSetItem, DexError>)
    ensures
        (match (r, spec_offset_list(bytes@, p as int, endian)) {
            (Ok(v), Ok(s)) => v@ == s,
            (Err(e), Err(e2)) => e == e2,
            _ => false,
        }),
{
    let entries = read_offset_list(bytes, p as u64, endian)?;
    Ok(AnnotationSetItem { entries })
}

/// Reads the annotation set ref list at byte offset `p` of `bytes`.
pub fn read_annotation_set_ref_list(bytes: &[u8], p: u32, endian: Endian) -> (r: Result<AnnotationSetRefList, DexError>)
    ensures
        (match (r, spec_offset_list(bytes@, p as int, endian)) {
            (Ok(v), Ok(s)) => v@ == s,
            (Err(e), Err(e2)) => e == e2,
            _ => false,
        }),
{
    let list = read_offset_list(bytes, p as u64, endian)?;
    Ok(AnnotationSetRefList { list })
}

/// Reads the annotations directory item at byte offset `p` of `bytes`.
pub fn read_annotations_directory_item(bytes: &[u8], p: u32, endian: Endian) -> (r: Result<
    AnnotationsDirectoryItem,
    DexError,
>)
    ensures
        (match (r, spec_annotations_directory(bytes@, p as int, endian)) {
            (Ok(v), Ok(s)) => v@ == s,
            (Err(e), Err(e2)) => e == e2,
            _ => false,
        }),
{
    let blen: usize = bytes.len();
    assert(bytes@.len() <= u64::MAX);
    let p = p as u64;
    let h = read_u32_run(bytes, p, 4, endian)?;
    let field_annotations = read_ref_run(bytes, p + 16, h[1], endian)?;
    let q = p + 16 + 8 * (h[1] as u64);
    let method_annotations = read_ref_run(bytes, q, h[2], endian)?;
    let q2 = q + 8 * (h[2] as u64);
    let parameter_annotations = read_ref_run(bytes, q2, h[3], endian)?;
    Ok(
        AnnotationsDirectoryItem {
            class_annotations_off: h[0],
            field_annotations,
            method_annotations,
            parameter_annotations,
        },
    )
}

/// `n` `u32`s read one after another from `p` are the `u32`s at `p`, `p + 4`, ...
proof fn lemma_u32_run_values(b: Seq<u8>, p: int, n: nat, e: Endian)
    ensures
        spec_u32_run(b, p, n, e) matches Ok(s) ==> s.len() == n && forall|j: int|
            0 <= j < n ==> #[trigger] s[j] == spec_u32(b, p + 4 * j, e),
    decreases n,
{
    if n > 0 {
        lemma_u32_run_values(b, p, (n - 1) as nat, e);
    }
}

/// `n` annotation references read one after another from `p` are 8 bytes apart: the
/// member index is the `u32` at `p + 8 * j` and the annotations offset the `u32` after it.
proof fn lemma_ref_run_values(b: Seq<u8>, p: int, n: nat, e: Endian)
    ensures
        spec_ref_run(b, p, n, e) matches Ok(s) ==> s.len() == n && forall|j: int|
            0 <= j < n ==> #[trigger] s[j] == (AnnotationRef {
                idx: spec_u32(b, p + 8 * j, e),
                annotations_off: spec_u32(b, p + 8 * j + 4, e),
            }),
    decreases n,
{
    if n > 0 {
        lemma_ref_run_values(b, p, (n - 1) as nat, e);
    }
}

/// Law: a list of offsets at `p` is as long as the `u32` at `p` says, and offset `j` is the
/// `u32` at `p + 4 + 4 * j`, in the file's byte order.
pub proof fn law_offset_list_layout(b: Seq<u8>, p: int, e: Endian)
    ensures
        spec_offset_list(b, p, e) matches Ok(s) ==> s.len() == spec_u32(b, p, e) && forall|j: int|
            0 <= j < s.len() ==> #[trigger] s[j] == spec_u32(b, p + 4 + 4 * j, e),
{
    lemma_u32_run_values(b, p + 4, spec_u32(b, p, e) as nat, e);
}

/// Law: an annotations directory at `p` holds the class annotations offset (`u32` at `p`)
/// and the counts of field, method and parameter annotations (`u32`s at `+ 4`, `+ 8`,
/// `+ 12`), followed from `+ 16` by the field references, then the method references, then
/// the parameter references, each a member index and an annotations offset, 8 bytes apart.
pub proof fn law_annotations_directory_layout(b: Seq<u8>, p: int, e: Endian)
    ensures
        spec_annotations_directory(b, p, e) matches Ok(a) ==> ({
            let nf = spec_u32(b, p + 4, e);
            let nm = spec_u32(b, p + 8, e);
            let fp = p + 16;
            let mp = p + 16 + 8 * nf;
            let pp = p + 16 + 8 * nf + 8 * nm;
            &&& a.class_annotations_off == spec_u32(b, p, e)
            &&& a.field_annotations.len() == nf
            &&& a.method_annotations.len() == nm
            &&& a.parameter_annotations.len() == spec_u32(b, p + 12, e)
            &&& forall|j: int|
                0 <= j < nf ==> #[trigger] a.field_annotations[j] == (AnnotationRef {
                    idx: spec_u32(b, fp + 8 * j, e),
                    annotations_off: spec_u32(b, fp + 8 * j + 4, e),
                })
            &&& forall|j: int|
                0 <= j < nm ==> #[trigger] a.method_annotations[j] == (AnnotationRef {
                    idx: spec_u32(b, mp + 8 * j, e),
                    annotations_off: spec_u32(b, mp + 8 * j + 4, e),
                })
            &&& forall|j: int|
                0 <= j < a.parameter_annotations.len() ==> #[trigger] a.parameter_annotations[j] == (AnnotationRef {
                    idx: spec_u32(b, pp + 8 * j, e),
                    annotations_off: spec_u32(b, pp + 8 * j + 4, e),
                })
        }),
{
    if let Ok(a) = spec_annotations_directory(b, p, e) {
        reveal_with_fuel(spec_u32_run, 5);
        lemma_u32_run_values(b, p, 4, e);
        let h = spec_u32_run(b, p, 4, e)->Ok_0;
        assert(h[0] == spec_u32(b, p + 4 * 0, e));
        assert(h[1] == spec_u32(b, p + 4 * 1, e));
        assert(h[2] == spec_u32(b, p + 4 * 2, e));
        assert(h[3] == spec_u32(b, p + 4 * 3, e));
        lemma_ref_run_values(b, p + 16, h[1] as nat, e);
        lemma_ref_run_values(b, p + 16 + 8 * h[1], h[2] as nat, e);
        lemma_ref_run_values(b, p + 16 + 8 * h[1] + 8 * h[2], h[3] as nat, e);
    }
}

} // verus!
