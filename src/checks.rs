//! The run-time behaviour that wasm gives the operators whose code may trap: division,
//! memory access, `br_table` and `call_indirect`. These are models of wasm semantics, the
//! outcome the emitted code must have; they emit nothing themselves.
use vstd::prelude::*;
use crate::trap::TrapKind;
use crate::vm::{Anyfunc, SigId};

verus! {

/// How a linear memory is backed.
#[derive(Debug, Clone, Copy, PartialEq, Eq, Structural)]
pub enum MemoryClass {
    /// No guard region: every access is checked in software.
    Dynamic,
    /// A reservation with a guard region that faults on its own.
    Static,
    SharedStatic,
}

/// The outcome of wasm's signed 32-bit division: a zero divisor and the one
/// overflowing quotient trap; otherwise the quotient rounds toward zero.
pub fn div_s_i32(a: i32, b: i32) -> (r: Result<i32, TrapKind>)
    ensures
        b == 0 ==> r == Err::<i32, TrapKind>(TrapKind::IntegerDivideByZero),
        b != 0 && a == i32::MIN && b == -1 ==> r == Err::<i32, TrapKind>(TrapKind::IntegerOverflow),
        b != 0 && !(a == i32::MIN && b == -1) ==> (r matches Ok(q) && q as int == trunc_div(
            a as int,
            b as int,
        )),
{
    if b == 0 {
        return Err(TrapKind::IntegerDivideByZero);
    }
    if a == i32::MIN && b == -1 {
        return Err(TrapKind::IntegerOverflow);
    }
    let q: i64 = trunc_div_exec(a as i64, b as i64);
    proof {
        lemma_trunc(a as int, b as int);
        if q == 0x8000_0000 {
            assert(abs(a as int) == 0x8000_0000 && abs(b as int) == 1) by (nonlinear_arith)
                requires
                    abs(a as int) / abs(b as int) == 0x8000_0000,
                    abs(a as int) <= 0x8000_0000,
                    abs(b as int) >= 1,
                    abs(a as int) == abs(b as int) * (abs(a as int) / abs(b as int)) + abs(a as int)
                        % abs(b as int),
                    abs(a as int) % abs(b as int) >= 0,
            ;
        }
    }
    Ok(q as i32)
}

/// Signed 32-bit remainder: a zero divisor traps, and `i32::MIN % -1` is 0 rather than an
/// overflow; otherwise the remainder takes the sign of the dividend.
pub fn rem_s_i32(a: i32, b: i32) -> (r: Result<i32, TrapKind>)
    ensures
        b == 0 ==> r == Err::<i32, TrapKind>(TrapKind::IntegerDivideByZero),
        b != 0 ==> (r matches Ok(m) && m as int == a as int - b as int * trunc_div(
            a as int,
            b as int,
        )),
{
    if b == 0 {
        return Err(TrapKind::IntegerDivideByZero);
    }
    if a == i32::MIN && b == -1 {
        assert(abs(a as int) / abs(b as int) == 0x8000_0000);
        return Ok(0);
    }
    let q: i64 = trunc_div_exec(a as i64, b as i64);
    proof {
        lemma_trunc(a as int, b as int);
        assert(-0x8000_0000_0000_0000 <= b as int * q as int <= 0x7fff_ffff_ffff_ffff)
            by (nonlinear_arith)
            requires
                -0x8000_0000 <= b <= 0x7fff_ffff,
                -0x8000_0000 <= q <= 0x8000_0000,
        ;
    }
    let m: i64 = a as i64 - (b as i64) * q;
    Ok(m as i32)
}

/// Unsigned 32-bit division: a zero divisor traps.
pub fn div_u_i32(a: u32, b: u32) -> (r: Result<u32, TrapKind>)
    ensures
        b == 0 ==> r == Err::<u32, TrapKind>(TrapKind::IntegerDivideByZero),
        b != 0 ==> r == Ok::<u32, TrapKind>(a / b),
{
    if b == 0 {
        Err(TrapKind::IntegerDivideByZero)
    } else {
        Ok(a / b)
    }
}

/// Unsigned 32-bit remainder: a zero divisor traps.
pub fn rem_u_i32(a: u32, b: u32) -> (r: Result<u32, TrapKind>)
    ensures
        b == 0 ==> r == Err::<u32, TrapKind>(TrapKind::IntegerDivideByZero),
        b != 0 ==> r == Ok::<u32, TrapKind>(a % b),
{
    if b == 0 {
        Err(TrapKind::IntegerDivideByZero)
    } else {
        Ok(a % b)
    }
}

pub open spec fn abs(x: int) -> int {
    if x < 0 {
        -x
    } else {
        x
    }
}

/// The quotient of `a` by `b`, rounded toward zero.
pub open spec fn trunc_div(a: int, b: int) -> int {
    let q = abs(a) / abs(b);
    if (a < 0) != (b < 0) {
        -q
    } else {
        q
    }
}

proof fn lemma_trunc(a: int, b: int)
    requires
        b != 0,
    ensures
        abs(a) == abs(b) * (abs(a) / abs(b)) + abs(a) % abs(b),
        0 <= abs(a) % abs(b) < abs(b),
        0 <= abs(a) / abs(b) <= abs(a),
        a - b * trunc_div(a, b) == (if a < 0 {
            -(abs(a) % abs(b))
        } else {
            abs(a) % abs(b)
        }),
{
    let ua = abs(a);
    let ub = abs(b);
    let uq = ua / ub;
    let ur = ua % ub;
    assert(ua == ub * uq + ur && 0 <= ur < ub && 0 <= uq <= ua) by (nonlinear_arith)
        requires
            ub > 0,
            ua >= 0,
            uq == ua / ub,
            ur == ua % ub,
    ;
    if a < 0 && b < 0 {
        assert(b * uq == -(ub * uq)) by (nonlinear_arith)
            requires
                ub == -b,
        ;
    } else if a < 0 {
        assert(b * (-uq) == -(ub * uq)) by (nonlinear_arith)
            requires
                ub == b,
        ;
    } else if b < 0 {
        assert(b * (-uq) == ub * uq) by (nonlinear_arith)
            requires
                ub == -b,
        ;
    }
}

fn trunc_div_exec(a: i64, b: i64) -> (q: i64)
    requires
        -0x8000_0000 <= a <= 0x7fff_ffff,
        -0x8000_0000 <= b <= 0x7fff_ffff,
        b != 0,
    ensures
        q as int == trunc_div(a as int, b as int),
        -0x8000_0000 <= q <= 0x8000_0000,
{
    let ua: i64 = if a < 0 {
        -a
    } else {
        a
    };
    let ub: i64 = if b < 0 {
        -b
    } else {
        b
    };
    let uq: i64 = ua / ub;
    proof {
        lemma_trunc(a as int, b as int);
    }
    if (a < 0) != (b < 0) {
        -uq
    } else {
        uq
    }
}

/// The bound check of a memory access: for a dynamic memory, an access of `size` bytes at
/// `addr + offset` traps unless it ends within `bound` bytes; other memories are not checked
/// in software. Gives the offset of the access from the memory's base.
pub fn check_memory_access(
    class: MemoryClass,
    addr: u32,
    offset: u32,
    size: u32,
    bound: u64,
) -> (r: Result<u64, TrapKind>)
    ensures
        class == MemoryClass::Dynamic && addr + offset + size > bound ==> r == Err::<u64, TrapKind>(
            TrapKind::MemoryOutOfBounds,
        ),
        !(class == MemoryClass::Dynamic && addr + offset + size > bound) ==> r == Ok::<
            u64,
            TrapKind,
        >((addr + offset) as u64),
{
    let end: u64 = addr as u64 + offset as u64 + size as u64;
    if class == MemoryClass::Dynamic && end > bound {
        return Err(TrapKind::MemoryOutOfBounds);
    }
    Ok(addr as u64 + offset as u64)
}

/// The branch that `br_table` takes for `index`: the target at that position, or the
/// default past the end.
pub fn br_table_target(targets: &[u32], default: u32, index: u32) -> (r: u32)
    ensures
        (index as int) < targets@.len() ==> r == targets@[index as int],
        (index as int) >= targets@.len() ==> r == default,
{
    if (index as usize) < targets.len() {
        targets[index as usize]
    } else {
        default
    }
}

/// The outcome of `call_indirect` with expected signature `expected` on entry `k` of
/// `table`, made from code running with context `ctx`: the entry's function, called with
/// that same context in the first argument register.
pub open spec fn spec_indirect_call(table: Seq<Anyfunc>, expected: SigId, k: int, ctx: usize) -> Result<
    (usize, usize),
    TrapKind,
> {
    if k >= table.len() {
        Err(TrapKind::CallIndirectOutOfBounds)
    } else if table[k].sig_id != expected {
        Err(TrapKind::CallIndirectSignatureMismatch)
    } else {
        Ok((table[k].func, ctx))
    }
}

/// The outcome of wasm's `call_indirect`: the index is checked against the
/// table's length, the entry's signature id against the one the module expects for
/// `sig_index`; then the entry's function is called with the caller's context `ctx`, which
/// the System V call sequence puts in the first argument register.
pub fn resolve_indirect_call(
    table: &[Anyfunc],
    dynamic_sigindices: &[SigId],
    sig_index: usize,
    k: u32,
    ctx: usize,
) -> (r: Result<(usize, usize), TrapKind>)
    requires
        sig_index < dynamic_sigindices@.len(),
    ensures
        r == spec_indirect_call(table@, dynamic_sigindices@[sig_index as int], k as int, ctx),
{
    if k as usize >= table.len() {
        return Err(TrapKind::CallIndirectOutOfBounds);
    }
    let entry = table[k as usize];
    if entry.sig_id.0 != dynamic_sigindices[sig_index].0 {
        return Err(TrapKind::CallIndirectSignatureMismatch);
    }
    Ok((entry.func, ctx))
}

/// An indirect call either traps, because the index is past the table or the entry's
/// signature is not the one expected, or calls the function at that entry with the
/// caller's context.
pub proof fn lemma_indirect_call_safety(table: Seq<Anyfunc>, expected: SigId, k: int, ctx: usize)
    requires
        k >= 0,
    ensures
        ({
            let r = spec_indirect_call(table, expected, k, ctx);
            ||| (k >= table.len() && r == Err::<(usize, usize), TrapKind>(
                TrapKind::CallIndirectOutOfBounds,
            ))
            ||| (k < table.len() && table[k].sig_id != expected && r == Err::<
                (usize, usize),
                TrapKind,
            >(TrapKind::CallIndirectSignatureMismatch))
            ||| (k < table.len() && table[k].sig_id == expected && r == Ok::<
                (usize, usize),
                TrapKind,
            >((table[k].func, ctx)))
        }),
{
}

} // verus!
