use vstd::prelude::*;

use crate::class_data::prepend;
use crate::code::{lemma_sleb128_bounds, read_sleb128, spec_sleb128};
use crate::error::DexError;
use crate::jstring::{lemma_uleb128_bounds, read_uleb128, spec_uleb128};
use crate::read::read_error;

verus! {

/// An index stored as an unsigned LEB128 number plus one: none for a stored 0.
pub open spec fn p1(v: u64) -> Option<u64> {
    if v == 0 {
        None
    } else {
        Some((v - 1) as u64)
    }
}

/// One instruction of the debug info state machine, other than the end of the sequence.
#[derive(Debug, Clone, Copy, PartialEq, Eq, Structural)]
pub enum DebugOp {
    AdvancePc(u64),
    AdvanceLine(i64),
    StartLocal { register: u64, name: Option<u64>, type_idx: Option<u64> },
    StartLocalExtended { register: u64, name: Option<u64>, type_idx: Option<u64>, sig: Option<u64> },
    EndLocal(u64),
    RestartLocal(u64),
    SetPrologueEnd,
    SetEpilogueBegin,
    SetFile(Option<u64>),
    Special(u8),
}

/// Reading the debug instructions at offset `p` up to the end-of-sequence byte: gives the
/// instructions and the offset just past that byte. (An instruction that was read always
/// ends past its opcode and inside `b`, as `lemma_debug_op_advances` shows; the check on that
/// only makes the recursion visibly finite.)
pub open spec fn spec_debug_ops(b: Seq<u8>, p: int) -> Result<(Seq<DebugOp>, int), DexError>
    decreases (b.len() - p) as nat,
{
    if p < 0 || p >= b.len() {
        Err(read_error(b, p, 1))
    } else {
        let op = b[p];
        if op == 0x00 {
            Ok((Seq::empty(), p + 1))
        } else {
            match spec_debug_op(b, p) {
                Err(e) => Err(e),
                Ok((d, q)) => if q <= p || q > b.len() {
                    Err(read_error(b, p, 1))
                } else {
                    prepend(seq![d], spec_debug_ops(b, q))
                },
            }
        }
    }
}

/// Reading the instruction whose opcode (not the end of the sequence) is at offset `p`:
/// the instruction and the offset just past its arguments.
pub open spec fn spec_debug_op(b: Seq<u8>, p: int) -> Result<(DebugOp, int), DexError> {
    let op = b[p];
    let q = p + 1;
    if op == 0x01 {
        match spec_uleb128(b, q) {
            Err(e) => Err(e),
            Ok((v, k)) => Ok((DebugOp::AdvancePc(v), q + k)),
        }
    } else if op == 0x02 {
        match spec_sleb128(b, q) {
            Err(e) => Err(e),
            Ok((v, k)) => Ok((DebugOp::AdvanceLine(v), q + k)),
        }
    } else if op == 0x03 || op == 0x04 {
        match spec_uleb128(b, q) {
            Err(e) => Err(e),
            Ok((reg, k1)) => match spec_uleb128(b, q + k1) {
                Err(e) => Err(e),
                Ok((name, k2)) => match spec_uleb128(b, q + k1 + k2) {
                    Err(e) => Err(e),
                    Ok((ty, k3)) => if op == 0x03 {
                        Ok((DebugOp::StartLocal { register: reg, name: p1(name), type_idx: p1(ty) }, q + k1 + k2 + k3))
                    } else {
                        match spec_uleb128(b, q + k1 + k2 + k3) {
                            Err(e) => Err(e),
                            Ok((sig, k4)) => Ok(
                                (
                                    DebugOp::StartLocalExtended {
                                        register: reg,
                                        name: p1(name),
                                        type_idx: p1(ty),
                                        sig: p1(sig),
                                    },
                                    q + k1 + k2 + k3 + k4,
                                ),
                            ),
                        }
                    },
                },
            },
        }
    } else if op == 0x05 || op == 0x06 {
        match spec_uleb128(b, q) {
            Err(e) => Err(e),
            Ok((reg, k)) => if op == 0x05 {
                Ok((DebugOp::EndLocal(reg), q + k))
            } else {
                Ok((DebugOp::RestartLocal(reg), q + k))
            },
        }
    } else if op == 0x07 {
        Ok((DebugOp::SetPrologueEnd, q))
    } else if op == 0x08 {
        Ok((DebugOp::SetEpilogueBegin, q))
    } else if op == 0x09 {
        match spec_uleb128(b, q) {
            Err(e) => Err(e),
            Ok((name, k)) => Ok((DebugOp::SetFile(p1(name)), q + k)),
        }
    } else {
        Ok((DebugOp::Special(op), q))
    }
}

/// An instruction that was read ends past its opcode and inside `b`, so the check on that in
/// `spec_debug_ops` never stops a read.
pub proof fn lemma_debug_op_advances(b: Seq<u8>, p: int)
    requires
        0 <= p < b.len(),
    ensures
        spec_debug_op(b, p) matches Ok((d, q)) ==> p < q <= b.len(),
{
    let q = p + 1;
    lemma_uleb128_bounds(b, q);
    lemma_sleb128_bounds(b, q);
    if let Ok((v, k1)) = spec_uleb128(b, q) {
        lemma_uleb128_bounds(b, q + k1);
        if let Ok((v2, k2)) = spec_uleb128(b, q + k1) {
            lemma_uleb128_bounds(b, q + k1 + k2);
            if let Ok((v3, k3)) = spec_uleb128(b, q + k1 + k2) {
                lemma_uleb128_bounds(b, q + k1 + k2 + k3);
            }
        }
    }
}

/// Reading `n` parameter names (unsigned LEB128 numbers plus one) at offset `p`.
pub open spec fn spec_param_names(b: Seq<u8>, p: int, n: nat) -> Result<(Seq<Option<u64>>, int), DexError>
    decreases n,
{
    if n == 0 {
        Ok((Seq::empty(), p))
    } else {
        match spec_uleb128(b, p) {
            Err(e) => Err(e),
            Ok((v, k)) => prepend(seq![p1(v)], spec_param_names(b, p + k, (n - 1) as nat)),
        }
    }
}

/// The contents of a debug info item.
pub struct DebugInfoView {
    pub line_start: u64,
    pub parameter_names: Seq<Option<u64>>,
    pub ops: Seq<DebugOp>,
}

/// Reading the debug info item at offset `p`: the initial line, the number of parameters,
/// their names, then the instructions up to the end of the sequence.
pub open spec fn spec_debug_info(b: Seq<u8>, p: int) -> Result<DebugInfoView, DexError> {
    match spec_uleb128(b, p) {
        Err(e) => Err(e),
        Ok((line_start, k1)) => match spec_uleb128(b, p + k1) {
            Err(e) => Err(e),
            Ok((n, k2)) => match spec_param_names(b, p + k1 + k2, n as nat) {
                Err(e) => Err(e),
                Ok((names, q)) => match spec_debug_ops(b, q) {
                    Err(e) => Err(e),
                    Ok((ops, _)) => Ok(DebugInfoView { line_start, parameter_names: names, ops }),
                },
            },
        },
    }
}

/// `n` parameter names read one after another are `n` names, the first being the unsigned
/// LEB128 number at `p` minus one, or none where it is 0.
proof fn lemma_param_names_count(b: Seq<u8>, p: int, n: nat)
    ensures
        spec_param_names(b, p, n) matches Ok((names, _)) ==> names.len() == n && (n > 0 ==> (spec_uleb128(
            b,
            p,
        ) matches Ok((v, _)) && names[0] == p1(v))),
    decreases n,
{
    if n > 0 {
        if let Ok((v, k)) = spec_uleb128(b, p) {
            lemma_param_names_count(b, p + k, (n - 1) as nat);
        }
    }
}

/// Law: the debug instructions at `p` end just past an end-of-sequence byte 0, inside the
/// file; with a 0 at `p` there are none.
pub proof fn law_debug_ops_end(b: Seq<u8>, p: int)
    ensures
        spec_debug_ops(b, p) matches Ok((ops, q)) ==> p < q <= b.len() && b[q - 1] == 0 && (b[p] == 0
            ==> ops.len() == 0),
    decreases (b.len() - p) as nat,
{
    if 0 <= p < b.len() && b[p] != 0 {
        if let Ok((d, q)) = spec_debug_op(b, p) {
            if p < q <= b.len() {
                law_debug_ops_end(b, q);
            }
        }
    }
}

/// Law: a debug info item at `p` starts with the initial line number, an unsigned LEB128
/// number, followed by the count of parameter names, and has that many names; the first
/// name is the unsigned LEB128 number after the count, minus one, or none where it is 0.
pub proof fn law_debug_info_layout(b: Seq<u8>, p: int)
    ensures
        spec_debug_info(b, p) matches Ok(info) ==> (spec_uleb128(b, p) matches Ok((line, k1)) && info.line_start
            == line && (spec_uleb128(b, p + k1) matches Ok((n, k2)) && info.parameter_names.len() == n && (n
            > 0 ==> (spec_uleb128(b, p + k1 + k2) matches Ok((v, _)) && info.parameter_names[0] == p1(v))))),
{
    if let Ok((line, k1)) = spec_uleb128(b, p) {
        if let Ok((n, k2)) = spec_uleb128(b, p + k1) {
            lemma_param_names_count(b, p + k1 + k2, n as nat);
        }
    }
}

/// The line numbers and local variables of a method, as the debug info item encodes them.
pub struct DebugInfoItem {
    line_start: u64,
    parameter_names: Vec<Option<u64>>,
    ops: Vec<DebugOp>,
}

impl View for DebugInfoItem {
    type V = DebugInfoView;

    closed spec fn view(&self) -> DebugInfoView {
        DebugInfoView { line_start: self.line_start, parameter_names: self.parameter_names@, ops: self.ops@ }
    }
}

impl DebugInfoItem {
    /// The line of the first instruction.
    pub fn line_start(&self) -> (r: u64)
        ensures
            r == self@.line_start,
    {
        self.line_start
    }

    /// The string indices of the parameter names, none for an unnamed parameter.
    pub fn parameter_names(&self) -> (r: &Vec<Option<u64>>)
        ensures
            r@ == self@.parameter_names,
    {
        &self.parameter_names
    }

    /// The instructions of the state machine, without the end of the sequence.
    pub fn ops(&self) -> (r: &Vec<DebugOp>)
        ensures
            r@ == self@.ops,
    {
        &self.ops
    }
}

/// The index that an unsigned LEB128 number plus one stores.
fn exec_p1(v: u64) -> (r: Option<u64>)
    ensures
        r == p1(v),
{
    if v == 0 {
        None
    } else {
        Some(v - 1)
    }
}

/// Reads the instruction whose opcode (not the end of the sequence) is at offset `p`.
fn read_debug_op(bytes: &[u8], p: u64) -> (r: Result<(DebugOp, u64), DexError>)
    requires
        p < bytes@.len(),
    ensures
        (match (r, spec_debug_op(bytes@, p as int)) {
            (Ok((d, q)), Ok((d2, q2))) => d == d2 && q == q2 && q <= bytes@.len(),
            (Err(e), Err(e2)) => e == e2,
            _ => false,
        }),
{
    let blen: usize = bytes.len();
    assert(bytes@.len() <= u64::MAX);
    let op = bytes[p as usize];
    let q = p + 1;
    if op == 0x01 {
        let (v, k) = read_uleb128(bytes, q)?;
        Ok((DebugOp::AdvancePc(v), q + k))
    } else if op == 0x02 {
        let (v, k) = read_sleb128(bytes, q)?;
        Ok((DebugOp::AdvanceLine(v), q + k))
    } else if op == 0x03 || op == 0x04 {
        let (reg, k1) = read_uleb128(bytes, q)?;
        let (name, k2) = read_uleb128(bytes, q + k1)?;
        let (ty, k3) = read_uleb128(bytes, q + k1 + k2)?;
        if op == 0x03 {
            Ok(
                (
                    DebugOp::StartLocal { register: reg, name: exec_p1(name), type_idx: exec_p1(ty) },
                    q + k1 + k2 + k3,
                ),
            )
        } else {
            let (sig, k4) = read_uleb128(bytes, q + k1 + k2 + k3)?;
            Ok(
                (
                    DebugOp::StartLocalExtended {
                        register: reg,
                        name: exec_p1(name),
                        type_idx: exec_p1(ty),
                        sig: exec_p1(sig),
                    },
                    q + k1 + k2 + k3 + k4,
                ),
            )
        }
    } else if op == 0x05 || op == 0x06 {
        let (reg, k) = read_uleb128(bytes, q)?;
        if op == 0x05 {
            Ok((DebugOp::EndLocal(reg), q + k))
        } else {
            Ok((DebugOp::RestartLocal(reg), q + k))
        }
    } else if op == 0x07 {
        Ok((DebugOp::SetPrologueEnd, q))
    } else if op == 0x08 {
        Ok((DebugOp::SetEpilogueBegin, q))
    } else if op == 0x09 {
        let (name, k) = read_uleb128(bytes, q)?;
        Ok((DebugOp::SetFile(exec_p1(name)), q + k))
    } else {
        Ok((DebugOp::Special(op), q))
    }
}

/// Reads the debug instructions at offset `p` of `bytes` up to the end of the sequence.
fn read_debug_ops(bytes: &[u8], p: u64) -> (r: Result<Vec<DebugOp>, DexError>)
    ensures
        (match (r, spec_debug_ops(bytes@, p as int)) {
            (Ok(v), Ok((s, _))) => v@ == s,
            (Err(e), Err(e2)) => e == e2,
            _ => false,
        }),
{
    let len = bytes.len() as u64;
    let mut out: Vec<DebugOp> = Vec::new();
    let mut pos = p;
    assert(out@ + Seq::<DebugOp>::empty() =~= out@);
    loop
        invariant
            len == bytes@.len(),
            spec_debug_ops(bytes@, p as int) == prepend(out@, spec_debug_ops(bytes@, pos as int)),
        decreases len - pos,
    {
        if pos >= len {
            return Err(DexError::Read { offset: pos, size: 1, len });
        }
        if bytes[pos as usize] == 0 {
            assert(out@ + Seq::<DebugOp>::empty() =~= out@);
            return Ok(out);
        }
        let (d, q) = read_debug_op(bytes, pos)?;
        proof {
            lemma_debug_op_advances(bytes@, pos as int);
        }
        let ghost rest = spec_debug_ops(bytes@, q as int);
        let ghost old_out = out@;
        out.push(d);
        proof {
            if let Ok((t, end)) = rest {
                assert(old_out + (seq![d] + t) =~= out@ + t);
            }
        }
        pos = q;
    }
}

/// Reads `n` parameter names at offset `p` of `bytes`.
fn read_param_names(bytes: &[u8], p: u64, n: u64) -> (r: Result<(Vec<Option<u64>>, u64), DexError>)
    requires
        p <= bytes@.len(),
    ensures
        (match (r, spec_param_names(bytes@, p as int, n as nat)) {
            (Ok((v, q)), Ok((s, q2))) => v@ == s && q == q2 && q <= bytes@.len(),
            (Err(e), Err(e2)) => e == e2,
            _ => false,
        }),
{
    let blen: usize = bytes.len();
    assert(bytes@.len() <= u64::MAX);
    let mut out: Vec<Option<u64>> = Vec::new();
    let mut i: u64 = 0;
    let mut pos = p;
    assert(out@ + Seq::<Option<u64>>::empty() =~= out@);
    while i < n
        invariant
            i <= n,
            pos <= bytes@.len(),
            bytes@.len() <= u64::MAX,
            spec_param_names(bytes@, p as int, n as nat) == prepend(
                out@,
                spec_param_names(bytes@, pos as int, (n - i) as nat),
            ),
        decreases n - i,
    {
        let (v, k) = read_uleb128(bytes, pos)?;
        let name = exec_p1(v);
        let ghost rest = spec_param_names(bytes@, (pos + k) as int, (n - i - 1) as nat);
        let ghost old_out = out@;
        out.push(name);
        proof {
            if let Ok((t, end)) = rest {
                assert(old_out + (seq![name] + t) =~= out@ + t);
            }
        }
        pos = pos + k;
        i = i + 1;
    }
    assert(out@ + Seq::<Option<u64>>::empty() =~= out@);
    Ok((out, pos))
}

/// Reads the debug info item at offset `p` of `bytes`.
pub fn read_debug_info(bytes: &[u8], p: u64) -> (r: Result<DebugInfoItem, DexError>)
    ensures
        (match (r, spec_debug_info(bytes@, p as int)) {
            (Ok(d), Ok(v)) => d@ == v,
            (Err(e), Err(e2)) => e == e2,
            _ => false,
        }),
{
    let blen: usize = bytes.len();
    assert(bytes@.len() <= u64::MAX);
    let (line_start, k1) = read_uleb128(bytes, p)?;
    let (n, k2) = read_uleb128(bytes, p + k1)?;
    let (parameter_names, q) = read_param_names(bytes, p + k1 + k2, n)?;
    let ops = read_debug_ops(bytes, q)?;
    Ok(DebugInfoItem { line_start, parameter_names, ops })
}

} // verus!
