use vstd::prelude::*;

use crate::class_data::prepend;
use crate::error::{DexError, Malformed};
use crate::items::{read_u16_run, spec_u16_run};
use crate::jstring::{read_uleb128, spec_uleb128, uleb128_weight};
use crate::read::{read_error, read_u16, read_u32, spec_read_u16, spec_read_u32, Endian};

verus! {

/// Decoding the signed LEB128 number at byte offset `p` of `b`, its first `k` bytes having
/// given `acc`: the value and the number of bytes it takes. The last byte is the first one
/// below 0x80, and its bit 0x40 is the sign.
pub open spec fn spec_sleb128_from(b: Seq<u8>, p: int, k: int, acc: int) -> Result<(i64, int), DexError>
    decreases 5 - k,
{
    if k >= 5 {
        Err(DexError::MalFormed(Malformed::Uleb128TooLong))
    } else if p + k >= b.len() {
        Err(read_error(b, p, k + 1))
    } else {
        let byte = b[p + k];
        let acc2 = acc + (byte % 128) * uleb128_weight(k);
        if byte < 128 {
            if byte % 128 >= 64 {
                Ok(((acc2 - 128 * uleb128_weight(k)) as i64, k + 1))
            } else {
                Ok((acc2 as i64, k + 1))
            }
        } else {
            spec_sleb128_from(b, p, k + 1, acc2)
        }
    }
}

/// Decoding the signed LEB128 number at byte offset `p` of `b`.
pub open spec fn spec_sleb128(b: Seq<u8>, p: int) -> Result<(i64, int), DexError> {
    spec_sleb128_from(b, p, 0, 0)
}

/// A decoded signed number takes one to five bytes, all inside `b`.
pub proof fn lemma_sleb128_bounds(b: Seq<u8>, p: int)
    ensures
        spec_sleb128(b, p) matches Ok((v, k)) ==> 1 <= k <= 5 && p + k <= b.len(),
{
    lemma_sleb128_from_bounds(b, p, 0, 0);
}

proof fn lemma_sleb128_from_bounds(b: Seq<u8>, p: int, k: int, acc: int)
    requires
        0 <= k,
    ensures
        spec_sleb128_from(b, p, k, acc) matches Ok((v, n)) ==> k + 1 <= n <= 5 && p + n <= b.len(),
    decreases 5 - k,
{
    if k < 5 && p + k < b.len() {
        let byte = b[p + k];
        if byte >= 128 {
            lemma_sleb128_from_bounds(b, p, k + 1, acc + (byte % 128) * uleb128_weight(k));
        }
    }
}

/// Decodes the signed LEB128 number at byte offset `p` of `bytes`.
pub fn read_sleb128(bytes: &[u8], p: u64) -> (r: Result<(i64, u64), DexError>)
    ensures
        r matches Ok((v, n)) ==> spec_sleb128(bytes@, p as int) == Ok::<(i64, int), DexError>((v, n as int)),
        r matches Ok((v, n)) ==> 1 <= n <= 5 && p + n <= bytes@.len() && -34359738368 <= v < 34359738368,
        r matches Err(e) ==> spec_sleb128(bytes@, p as int) == Err::<(i64, int), DexError>(e),
{
    let len = bytes.len() as u64;
    let mut acc: u64 = 0;
    let mut k: u64 = 0;
    let mut weight: u64 = 1;
    while k < 5
        invariant
            k <= 5,
            k < 5 ==> weight == uleb128_weight(k as int),
            k < 5 ==> acc < weight,
            len == bytes@.len(),
            spec_sleb128(bytes@, p as int) == spec_sleb128_from(bytes@, p as int, k as int, acc as int),
        decreases 5 - k,
    {
        if p >= len || k >= len - p {
            return Err(DexError::Read { offset: p, size: k + 1, len });
        }
        let byte = bytes[(p + k) as usize];
        let low = (byte % 128) as u64;
        assert(low * weight <= 127 * weight) by (nonlinear_arith)
            requires
                low <= 127,
        ;
        let acc2 = acc + low * weight;
        if byte < 128 {
            if low >= 64 {
                let v = acc2 as i64 - (128 * weight) as i64;
                return Ok((v, k + 1));
            } else {
                return Ok((acc2 as i64, k + 1));
            }
        }
        acc = acc2;
        k = k + 1;
        if k < 5 {
            weight = weight * 128;
        }
    }
    Err(DexError::MalFormed(Malformed::Uleb128TooLong))
}

/// A range of instructions covered by exception handlers.
#[derive(Debug, Clone, Copy, PartialEq, Eq, Structural)]
pub struct TryItem {
    pub start_addr: u32,
    pub insn_count: u16,
    pub handler_off: u16,
}

/// A handler of one exception type: the type index and the handler's address.
#[derive(Debug, Clone, Copy, PartialEq, Eq, Structural)]
pub struct TypeAddrPair {
    pub type_idx: u64,
    pub addr: u64,
}

/// The contents of a catch handler.
pub struct CatchHandlerView {
    pub handlers: Seq<TypeAddrPair>,
    pub catch_all_addr: Option<u64>,
}

/// The contents of a code item.
pub struct CodeItemView {
    pub registers_size: u16,
    pub ins_size: u16,
    pub outs_size: u16,
    pub tries_size: u16,
    pub debug_info_off: u32,
    pub insns: Seq<u16>,
    pub tries: Seq<TryItem>,
    pub handlers: Option<Seq<CatchHandlerView>>,
}

/// Reading `n` try items (a `u32` and two `u16`s each) at byte offset `p`.
pub open spec fn spec_try_items(b: Seq<u8>, p: int, n: nat, e: Endian) -> Result<Seq<TryItem>, DexError>
    decreases n,
{
    if n == 0 {
        Ok(Seq::empty())
    } else {
        match spec_try_items(b, p, (n - 1) as nat, e) {
            Err(err) => Err(err),
            Ok(s) => {
                let q = p + 8 * (n - 1);
                match spec_read_u32(b, q, e) {
                    Err(err) => Err(err),
                    Ok(start_addr) => match spec_read_u16(b, q + 4, e) {
                        Err(err) => Err(err),
                        Ok(insn_count) => match spec_read_u16(b, q + 6, e) {
                            Err(err) => Err(err),
                            Ok(handler_off) => Ok(s.push(TryItem { start_addr, insn_count, handler_off })),
                        },
                    },
                }
            },
        }
    }
}

/// Reading `n` type and address pairs (two unsigned LEB128 numbers each) at byte offset `p`;
/// gives the pairs and the offset just past them.
pub open spec fn spec_type_addr_pairs(b: Seq<u8>, p: int, n: nat) -> Result<(Seq<TypeAddrPair>, int), DexError>
    decreases n,
{
    if n == 0 {
        Ok((Seq::empty(), p))
    } else {
        match spec_uleb128(b, p) {
            Err(e) => Err(e),
            Ok((type_idx, k1)) => match spec_uleb128(b, p + k1) {
                Err(e) => Err(e),
                Ok((addr, k2)) => prepend(
                    seq![TypeAddrPair { type_idx, addr }],
                    spec_type_addr_pairs(b, p + k1 + k2, (n - 1) as nat),
                ),
            },
        }
    }
}

/// Reading a catch handler at byte offset `p`: a signed LEB128 count whose magnitude is the
/// number of type and address pairs, then those pairs, then, where the count is not
/// positive, the address of the catch-all handler. Gives the offset just past it.
pub open spec fn spec_catch_handler(b: Seq<u8>, p: int) -> Result<(CatchHandlerView, int), DexError> {
    match spec_sleb128(b, p) {
        Err(e) => Err(e),
        Ok((size, k)) => {
            let n: nat = if size < 0 { (-size) as nat } else { size as nat };
            match spec_type_addr_pairs(b, p + k, n) {
                Err(e) => Err(e),
                Ok((pairs, q)) => if size <= 0 {
                    match spec_uleb128(b, q) {
                        Err(e) => Err(e),
                        Ok((all, k2)) => Ok((CatchHandlerView { handlers: pairs, catch_all_addr: Some(all) }, q + k2)),
                    }
                } else {
                    Ok((CatchHandlerView { handlers: pairs, catch_all_addr: None }, q))
                },
            }
        },
    }
}

/// Reading `n` catch handlers one after the other at byte offset `p`.
pub open spec fn spec_catch_handlers(b: Seq<u8>, p: int, n: nat) -> Result<(Seq<CatchHandlerView>, int), DexError>
    decreases n,
{
    if n == 0 {
        Ok((Seq::empty(), p))
    } else {
        match spec_catch_handler(b, p) {
            Err(e) => Err(e),
            Ok((h, q)) => prepend(seq![h], spec_catch_handlers(b, q, (n - 1) as nat)),
        }
    }
}

/// The offset of the try items of a code item at `p` with `insns_size` code units: after
/// the instructions, and two bytes of padding more where there are tries and the number of
/// code units is odd.
pub open spec fn tries_offset(p: int, insns_size: u32, tries_size: u16) -> int {
    if tries_size != 0 && insns_size % 2 == 1 {
        p + 16 + 2 * insns_size + 2
    } else {
        p + 16 + 2 * insns_size
    }
}

/// Reading the code item at byte offset `p` of `b`: four `u16` sizes, the debug info offset,
/// the number of code units and the code units; then, where there are tries, the try items
/// and the list of catch handlers (an unsigned LEB128 count and the handlers).
pub open spec fn spec_code_item(b: Seq<u8>, p: int, e: Endian) -> Result<CodeItemView, DexError> {
    match spec_u16_run(b, p, 4, e) {
        Err(err) => Err(err),
        Ok(h) => match spec_read_u32(b, p + 8, e) {
            Err(err) => Err(err),
            Ok(debug_info_off) => match spec_read_u32(b, p + 12, e) {
                Err(err) => Err(err),
                Ok(insns_size) => match spec_u16_run(b, p + 16, insns_size as nat, e) {
                    Err(err) => Err(err),
                    Ok(insns) => {
                        let q = tries_offset(p, insns_size, h[3]);
                        match spec_try_items(b, q, h[3] as nat, e) {
                            Err(err) => Err(err),
                            Ok(tries) => {
                                let view = CodeItemView {
                                    registers_size: h[0],
                                    ins_size: h[1],
                                    outs_size: h[2],
                                    tries_size: h[3],
                                    debug_info_off,
                                    insns,
                                    tries,
                                    handlers: None,
                                };
                                if h[3] == 0 {
                                    Ok(view)
                                } else {
                                    let hp = q + 8 * h[3];
                                    match spec_uleb128(b, hp) {
                                        Err(err) => Err(err),
                                        Ok((n, k)) => match spec_catch_handlers(b, hp + k, n as nat) {
                                            Err(err) => Err(err),
                                            Ok((hs, _)) => Ok(CodeItemView { handlers: Some(hs), ..view }),
                                        },
                                    }
                                }
                            },
                        }
                    },
                },
            },
        },
    }
}

/// A catch handler: handlers by exception type, and possibly a catch-all handler.
pub struct CatchHandler {
    handlers: Vec<TypeAddrPair>,
    catch_all_addr: Option<u64>,
}

impl View for CatchHandler {
    type V = CatchHandlerView;

    closed spec fn view(&self) -> CatchHandlerView {
        CatchHandlerView { handlers: self.handlers@, catch_all_addr: self.catch_all_addr }
    }
}

impl CatchHandler {
    /// The handlers by exception type.
    pub fn handlers(&self) -> (r: &Vec<TypeAddrPair>)
        ensures
            r@ == self@.handlers,
    {
        &self.handlers
    }

    /// The address of the catch-all handler, if there is one.
    pub fn catch_all_addr(&self) -> (r: Option<u64>)
        ensures
            r == self@.catch_all_addr,
    {
        self.catch_all_addr
    }
}

/// The views of a sequence of catch handlers.
pub open spec fn handlers_view(s: Seq<CatchHandler>) -> Seq<CatchHandlerView> {
    s.map_values(|h: CatchHandler| h@)
}

/// The code of a method.
pub struct CodeItem {
    registers_size: u16,
    ins_size: u16,
    outs_size: u16,
    tries_size: u16,
    debug_info_off: u32,
    insns: Vec<u16>,
    tries: Vec<TryItem>,
    handlers: Option<Vec<CatchHandler>>,
}

impl View for CodeItem {
    type V = CodeItemView;

    closed spec fn view(&self) -> CodeItemView {
        CodeItemView {
            registers_size: self.registers_size,
            ins_size: self.ins_size,
            outs_size: self.outs_size,
            tries_size: self.tries_size,
            debug_info_off: self.debug_info_off,
            insns: self.insns@,
            tries: self.tries@,
            handlers: match self.handlers {
                Some(v) => Some(handlers_view(v@)),
                None => None,
            },
        }
    }
}

impl CodeItem {
    pub fn registers_size(&self) -> (r: u16)
        ensures
            r == self@.registers_size,
    {
        self.registers_size
    }

    pub fn ins_size(&self) -> (r: u16)
        ensures
            r == self@.ins_size,
    {
        self.ins_size
    }

    pub fn outs_size(&self) -> (r: u16)
        ensures
            r == self@.outs_size,
    {
        self.outs_size
    }

    pub fn tries_size(&self) -> (r: u16)
        ensures
            r == self@.tries_size,
    {
        self.tries_size
    }

    pub fn debug_info_off(&self) -> (r: u32)
        ensures
            r == self@.debug_info_off,
    {
        self.debug_info_off
    }

    /// The code units of the method.
    pub fn insns(&self) -> (r: &Vec<u16>)
        ensures
            r@ == self@.insns,
    {
        &self.insns
    }

    /// The try items of the method.
    pub fn tries(&self) -> (r: &Vec<TryItem>)
        ensures
            r@ == self@.tries,
    {
        &self.tries
    }

    /// The catch handlers, where the method has try items.
    pub fn handlers(&self) -> (r: Option<&Vec<CatchHandler>>)
        ensures
            (match (r, self@.handlers) {
                (Some(v), Some(s)) => handlers_view(v@) == s,
                (None, None) => true,
                _ => false,
            }),
    {
        match &self.handlers {
            Some(v) => Some(v),
            None => None,
        }
    }
}

proof fn lemma_try_items_err_prefix(b: Seq<u8>, p: int, i: nat, n: nat, e: Endian)
    requires
        i <= n,
        spec_try_items(b, p, i, e) is Err,
    ensures
        spec_try_items(b, p, n, e) == spec_try_items(b, p, i, e),
    decreases n,
{
    if n > i {
        lemma_try_items_err_prefix(b, p, i, (n - 1) as nat, e);
    }
}

/// Reads `n` try items at byte offset `p` of `bytes`.
fn read_try_items(bytes: &[u8], p: u64, n: u16, endian: Endian) -> (r: Result<Vec<TryItem>, DexError>)
    ensures
        (match (r, spec_try_items(bytes@, p as int, n as nat, endian)) {
            (Ok(v), Ok(s)) => v@ == s && (n == 0 || p + 8 * n <= bytes@.len()),
            (Err(e), Err(e2)) => e == e2,
            _ => false,
        }),
{
    let blen: usize = bytes.len();
    assert(bytes@.len() <= u64::MAX);
    let mut out: Vec<TryItem> = Vec::new();
    let mut i: u16 = 0;
    let mut q: u64 = p;
    while i < n
        invariant
            i <= n,
            q == p + 8 * i,
            i > 0 ==> q <= bytes@.len(),
            bytes@.len() <= u64::MAX,
            spec_try_items(bytes@, p as int, i as nat, endian) == Ok::<Seq<TryItem>, DexError>(out@),
        decreases n - i,
    {
        let start_addr = match read_u32(bytes, q, endian) {
            Ok(v) => v,
            Err(e) => {
                proof {
                    lemma_try_items_err_prefix(bytes@, p as int, (i + 1) as nat, n as nat, endian);
                }
                return Err(e);
            },
        };
        let insn_count = match read_u16(bytes, q + 4, endian) {
            Ok(v) => v,
            Err(e) => {
                proof {
                    lemma_try_items_err_prefix(bytes@, p as int, (i + 1) as nat, n as nat, endian);
                }
                return Err(e);
            },
        };
        let handler_off = match read_u16(bytes, q + 6, endian) {
            Ok(v) => v,
            Err(e) => {
                proof {
                    lemma_try_items_err_prefix(bytes@, p as int, (i + 1) as nat, n as nat, endian);
                }
                return Err(e);
            },
        };
        out.push(TryItem { start_addr, insn_count, handler_off });
        q = q + 8;
        i = i + 1;
    }
    Ok(out)
}

/// Reads `n` type and address pairs at byte offset `p` of `bytes`.
fn read_type_addr_pairs(bytes: &[u8], p: u64, n: u64) -> (r: Result<(Vec<TypeAddrPair>, u64), DexError>)
    requires
        p <= bytes@.len(),
    ensures
        (match (r, spec_type_addr_pairs(bytes@, p as int, n as nat)) {
            (Ok((v, end)), Ok((s, end2))) => v@ == s && end == end2 && end <= bytes@.len(),
            (Err(e), Err(e2)) => e == e2,
            _ => false,
        }),
{
    let blen: usize = bytes.len();
    assert(bytes@.len() <= u64::MAX);
    let mut out: Vec<TypeAddrPair> = Vec::new();
    let mut i: u64 = 0;
    let mut pos = p;
    assert(out@ + Seq::<TypeAddrPair>::empty() =~= out@);
    while i < n
        invariant
            i <= n,
            pos <= bytes@.len(),
            bytes@.len() <= u64::MAX,
            spec_type_addr_pairs(bytes@, p as int, n as nat) == prepend(
                out@,
                spec_type_addr_pairs(bytes@, pos as int, (n - i) as nat),
            ),
        decreases n - i,
    {
        let (type_idx, k1) = read_uleb128(bytes, pos)?;
        let (addr, k2) = read_uleb128(bytes, pos + k1)?;
        let pair = TypeAddrPair { type_idx, addr };
        let ghost rest = spec_type_addr_pairs(bytes@, (pos + k1 + k2) as int, (n - i - 1) as nat);
        let ghost old_out = out@;
        out.push(pair);
        proof {
            if let Ok((t, end)) = rest {
                assert(old_out + (seq![pair] + t) =~= out@ + t);
            }
        }
        pos = pos + k1 + k2;
        i = i + 1;
    }
    assert(out@ + Seq::<TypeAddrPair>::empty() =~= out@);
    Ok((out, pos))
}

/// Reads the catch handler at byte offset `p` of `bytes`.
fn read_catch_handler(bytes: &[u8], p: u64) -> (r: Result<(CatchHandler, u64), DexError>)
    requires
        p <= bytes@.len(),
    ensures
        (match (r, spec_catch_handler(bytes@, p as int)) {
            (Ok((h, end)), Ok((v, end2))) => h@ == v && end == end2 && end <= bytes@.len(),
            (Err(e), Err(e2)) => e == e2,
            _ => false,
        }),
{
    let blen: usize = bytes.len();
    assert(bytes@.len() <= u64::MAX);
    let (size, k) = read_sleb128(bytes, p)?;
    let n: u64 = if size < 0 { (-size) as u64 } else { size as u64 };
    let (handlers, q) = read_type_addr_pairs(bytes, p + k, n)?;
    if size <= 0 {
        let (all, k2) = read_uleb128(bytes, q)?;
        Ok((CatchHandler { handlers, catch_all_addr: Some(all) }, q + k2))
    } else {
        Ok((CatchHandler { handlers, catch_all_addr: None }, q))
    }
}

/// Reads `n` catch handlers at byte offset `p` of `bytes`.
fn read_catch_handlers(bytes: &[u8], p: u64, n: u64) -> (r: Result<Vec<CatchHandler>, DexError>)
    requires
        p <= bytes@.len(),
    ensures
        (match (r, spec_catch_handlers(bytes@, p as int, n as nat)) {
            (Ok(v), Ok((s, _))) => handlers_view(v@) == s,
            (Err(e), Err(e2)) => e == e2,
            _ => false,
        }),
{
    let mut out: Vec<CatchHandler> = Vec::new();
    let mut i: u64 = 0;
    let mut pos = p;
    assert(handlers_view(out@) + Seq::<CatchHandlerView>::empty() =~= handlers_view(out@));
    while i < n
        invariant
            i <= n,
            pos <= bytes@.len(),
            spec_catch_handlers(bytes@, p as int, n as nat) == prepend(
                handlers_view(out@),
                spec_catch_handlers(bytes@, pos as int, (n - i) as nat),
            ),
        decreases n - i,
    {
        let (h, q) = read_catch_handler(bytes, pos)?;
        let ghost hv = h@;
        let ghost rest = spec_catch_handlers(bytes@, q as int, (n - i - 1) as nat);
        let ghost old_out = out@;
        out.push(h);
        proof {
            assert(handlers_view(out@) =~= handlers_view(old_out).push(hv));
            if let Ok((t, end)) = rest {
                assert(handlers_view(old_out) + (seq![hv] + t) =~= handlers_view(out@) + t);
            }
        }
        pos = q;
        i = i + 1;
    }
    assert(handlers_view(out@) + Seq::<CatchHandlerView>::empty() =~= handlers_view(out@));
    Ok(out)
}

/// `r` is the code item that `s` describes, or the same error.
pub open spec fn result_matches_code_item(r: Result<CodeItem, DexError>, s: Result<CodeItemView, DexError>) -> bool {
    match (r, s) {
        (Ok(c), Ok(v)) => c@ == v,
        (Err(e), Err(e2)) => e == e2,
        _ => false,
    }
}

/// A code item that starts past the end fails on its first `u16`.
proof fn lemma_code_item_past_end(b: Seq<u8>, p: int, e: Endian)
    requires
        p >= b.len(),
    ensures
        spec_code_item(b, p, e) == Err::<CodeItemView, DexError>(read_error(b, p, 2)),
{
    reveal_with_fuel(spec_u16_run, 5);
}

/// Reads the code item at byte offset `p` of `bytes`.
pub fn read_code_item(bytes: &[u8], p: u64, endian: Endian) -> (r: Result<CodeItem, DexError>)
    requires
        bytes@.len() <= isize::MAX,
    ensures
        result_matches_code_item(r, spec_code_item(bytes@, p as int, endian)),
{
    let blen: usize = bytes.len();
    if p >= blen as u64 {
        proof {
            lemma_code_item_past_end(bytes@, p as int, endian);
        }
        return Err(DexError::Read { offset: p, size: 2, len: blen as u64 });
    }
    let h = read_u16_run(bytes, p, 4, endian)?;
    let debug_info_off = read_u32(bytes, p + 8, endian)?;
    let insns_size = read_u32(bytes, p + 12, endian)?;
    let insns = read_u16_run(bytes, p + 16, insns_size, endian)?;
    let tries_size = h[3];
    let q = if tries_size != 0 && insns_size % 2 == 1 {
        p + 16 + 2 * (insns_size as u64) + 2
    } else {
        p + 16 + 2 * (insns_size as u64)
    };
    let tries = read_try_items(bytes, q, tries_size, endian)?;
    let mut item = CodeItem {
        registers_size: h[0],
        ins_size: h[1],
        outs_size: h[2],
        tries_size,
        debug_info_off,
        insns,
        tries,
        handlers: None,
    };
    if tries_size == 0 {
        return Ok(item);
    }
    let hp = q + 8 * (tries_size as u64);
    let (n, k) = read_uleb128(bytes, hp)?;
    let handlers = read_catch_handlers(bytes, hp + k, n)?;
    item.handlers = Some(handlers);
    Ok(item)
}

} // verus!
