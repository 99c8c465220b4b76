use vstd::prelude::*;
use crate::checks::MemoryClass;
use crate::control::{Branch, DynamicLabel, FunctionState, OpClass, OpenKind, spec_unreachable_step};
use crate::emit::{
    emit_binop, emit_relaxed_binop, get_vmctx_reg, spec_binop, spec_relaxed_binop, BinOp, DivInstr,
    DivOp, Instr, Location, Size, GPR,
};
use crate::module_code::CodegenError;
use crate::types::Type;
use crate::trap::{TrapKind, TrapSink};
use crate::vm::{word, Anyfunc, Ctx, LocalMemory, LocalTable};

verus! {

/// A condition on the flags that the last comparison set.
#[derive(Debug, Clone, Copy, PartialEq, Eq, Structural)]
pub enum Condition {
    Above,
    AboveEqual,
    Below,
    BelowEqual,
    Equal,
    NotEqual,
    Greater,
    GreaterEqual,
    Less,
    LessEqual,
}

/// One emitted piece of code: a two-operand instruction, or a trap taken when a condition
/// holds (a branch over `ud2`).
#[derive(Debug, Clone, Copy, PartialEq, Eq, Structural)]
pub enum Code {
    Op(Instr),
    TrapIf(Condition),
    /// `ud2`: an unconditional trap.
    Ud2,
    /// The function epilogue: restore the frame pointer and return.
    Return,
    /// Sign-extends EAX into EDX.
    Cdq,
    /// A division of RDX:RAX.
    Div(DivInstr),
    /// Sets the low byte of the register to whether the condition holds.
    SetCond(Condition, GPR),
    /// A jump through a jump table of the function: the number names the table, the
    /// register holds the index of the entry.
    JmpTable(usize, GPR),
    /// Binds a label here.
    Label(DynamicLabel),
    /// A jump to a label: always, or when the condition holds.
    Jmp(Option<Condition>, DynamicLabel),
}

pub open spec fn mov(sz: Size, src: Location, dst: Location) -> Code {
    Code::Op(Instr { op: BinOp::Mov, size: sz, src, dst })
}

pub open spec fn add64(src: Location, dst: GPR) -> Code {
    Code::Op(Instr { op: BinOp::Add, size: Size::S64, src, dst: Location::GPR(dst) })
}

/// The loads of a memory's base and end: the memories array from the context, its first
/// entry, the bound and the base of that memory, and base plus bound.
pub open spec fn spec_memory_bounds(imported: bool, tmp_base: GPR, tmp_bound: GPR) -> Seq<Code> {
    let array = if imported {
        3 * word()
    } else {
        0
    };
    seq![
        mov(Size::S64, Location::Memory(GPR::R15, array as i32), Location::GPR(tmp_base)),
        mov(Size::S64, Location::Memory(tmp_base, 0), Location::GPR(tmp_base)),
        mov(Size::S64, Location::Memory(tmp_base, word() as i32), Location::GPR(tmp_bound)),
        mov(Size::S64, Location::Memory(tmp_base, 0), Location::GPR(tmp_base)),
        add64(Location::GPR(tmp_base), tmp_bound),
    ]
}

/// The bound check of a dynamic memory: the end of the access, `addr + offset + size`
/// computed in 64 bits (the address zero-extended, the sum through `tmp_off`), plus the
/// base, compared with the end of the memory; a trap when it lies above.
pub open spec fn spec_bound_check(
    addr: Location,
    offset: u32,
    size: u32,
    tmp_addr: GPR,
    tmp_base: GPR,
    tmp_bound: GPR,
    tmp_off: GPR,
) -> Seq<Code> {
    seq![
        mov(Size::S32, addr, Location::GPR(tmp_addr)),
        mov(Size::S64, Location::Imm64((offset + size) as u64), Location::GPR(tmp_off)),
        add64(Location::GPR(tmp_off), tmp_addr),
        add64(Location::GPR(tmp_base), tmp_addr),
        Code::Op(
            Instr {
                op: BinOp::Cmp,
                size: Size::S64,
                src: Location::GPR(tmp_bound),
                dst: Location::GPR(tmp_addr),
            },
        ),
        Code::TrapIf(Condition::Above),
    ]
}

/// The computation of the effective address `base + addr + offset` into `tmp_addr`, in 64
/// bits: the address zero-extended, the offset through `tmp_off`.
pub open spec fn spec_effective_address(
    addr: Location,
    offset: u32,
    tmp_addr: GPR,
    tmp_base: GPR,
    tmp_off: GPR,
) -> Seq<Code> {
    seq![
        mov(Size::S32, addr, Location::GPR(tmp_addr)),
        mov(Size::S64, Location::Imm64(offset as u64), Location::GPR(tmp_off)),
        add64(Location::GPR(tmp_off), tmp_addr),
        add64(Location::GPR(tmp_base), tmp_addr),
    ]
}

/// All the code of a memory access before the access itself.
pub open spec fn spec_memory_op(
    imported: bool,
    class: MemoryClass,
    addr: Location,
    offset: u32,
    size: u32,
    tmp_addr: GPR,
    tmp_base: GPR,
    tmp_bound: GPR,
    tmp_off: GPR,
) -> Seq<Code> {
    spec_memory_bounds(imported, tmp_base, tmp_bound) + (if class == MemoryClass::Dynamic {
        spec_bound_check(addr, offset, size, tmp_addr, tmp_base, tmp_bound, tmp_off)
    } else {
        Seq::empty()
    }) + spec_effective_address(addr, offset, tmp_addr, tmp_base, tmp_off)
}

fn push_mov(out: &mut Vec<Code>, sz: Size, src: Location, dst: Location)
    ensures
        final(out)@ == old(out)@.push(mov(sz, src, dst)),
{
    out.push(Code::Op(Instr { op: BinOp::Mov, size: sz, src, dst }));
}

fn push_add64(out: &mut Vec<Code>, src: Location, dst: GPR)
    ensures
        final(out)@ == old(out)@.push(add64(src, dst)),
{
    out.push(Code::Op(Instr { op: BinOp::Add, size: Size::S64, src, dst: Location::GPR(dst) }));
}

/// Emits the code that prepares an access of `size` bytes to linear memory 0 at
/// `addr + offset` (positions in `out` stand for code offsets): the memory's base and end
/// are loaded from the context, a dynamic memory gets a bound check whose trap is recorded
/// in `traps` as out of bounds, and the effective address `base + addr + offset` is left in
/// `tmp_addr`, which is returned for the access itself.
pub fn emit_memory_op(
    out: &mut Vec<Code>,
    traps: &mut TrapSink,
    imported: bool,
    class: MemoryClass,
    addr: Location,
    offset: u32,
    size: u32,
    tmp_addr: GPR,
    tmp_base: GPR,
    tmp_bound: GPR,
    tmp_off: GPR,
) -> (r: GPR)
    requires
        old(traps).wf(),
        old(traps).next_free() <= old(out)@.len(),
        old(out)@.len() + 20 <= usize::MAX,
    ensures
        r == tmp_addr,
        final(out)@ == old(out)@ + spec_memory_op(
            imported,
            class,
            addr,
            offset,
            size,
            tmp_addr,
            tmp_base,
            tmp_bound,
            tmp_off,
        ),
        final(traps).wf(),
        final(traps).next_free() <= final(out)@.len(),
        class == MemoryClass::Dynamic ==> final(traps).view_map() == old(traps).view_map().insert(
            old(out)@.len() + 5 + spec_bound_check(
                addr,
                offset,
                size,
                tmp_addr,
                tmp_base,
                tmp_bound,
                tmp_off,
            ).len() - 1,
            TrapKind::MemoryOutOfBounds,
        ),
        class != MemoryClass::Dynamic ==> final(traps).view_map() == old(traps).view_map(),
{
    let ghost start = out@;
    let vmctx = get_vmctx_reg();
    let array = if imported {
        Ctx::offset_imported_memories()
    } else {
        Ctx::offset_memories()
    };
    push_mov(out, Size::S64, Location::Memory(vmctx, array as i32), Location::GPR(tmp_base));
    push_mov(out, Size::S64, Location::Memory(tmp_base, 0), Location::GPR(tmp_base));
    push_mov(
        out,
        Size::S64,
        Location::Memory(tmp_base, LocalMemory::offset_bound() as i32),
        Location::GPR(tmp_bound),
    );
    push_mov(
        out,
        Size::S64,
        Location::Memory(tmp_base, LocalMemory::offset_base() as i32),
        Location::GPR(tmp_base),
    );
    push_add64(out, Location::GPR(tmp_base), tmp_bound);
    assert(out@ =~= start + spec_memory_bounds(imported, tmp_base, tmp_bound));
    let ghost after_bounds = out@;
    if class == MemoryClass::Dynamic {
        push_mov(out, Size::S32, addr, Location::GPR(tmp_addr));
        push_mov(
            out,
            Size::S64,
            Location::Imm64(offset as u64 + size as u64),
            Location::GPR(tmp_off),
        );
        push_add64(out, Location::GPR(tmp_off), tmp_addr);
        push_add64(out, Location::GPR(tmp_base), tmp_addr);
        out.push(
            Code::Op(
                Instr {
                    op: BinOp::Cmp,
                    size: Size::S64,
                    src: Location::GPR(tmp_bound),
                    dst: Location::GPR(tmp_addr),
                },
            ),
        );
        let site = out.len();
        traps.record(site, TrapKind::MemoryOutOfBounds);
        out.push(Code::TrapIf(Condition::Above));
        assert(out@ =~= after_bounds + spec_bound_check(
            addr,
            offset,
            size,
            tmp_addr,
            tmp_base,
            tmp_bound,
            tmp_off,
        ));
    }
    let ghost after_check = out@;
    push_mov(out, Size::S32, addr, Location::GPR(tmp_addr));
    push_mov(out, Size::S64, Location::Imm64(offset as u64), Location::GPR(tmp_off));
    push_add64(out, Location::GPR(tmp_off), tmp_addr);
    push_add64(out, Location::GPR(tmp_base), tmp_addr);
    assert(out@ =~= after_check + spec_effective_address(addr, offset, tmp_addr, tmp_base, tmp_off));
    assert(out@ =~= start + spec_memory_op(
        imported,
        class,
        addr,
        offset,
        size,
        tmp_addr,
        tmp_base,
        tmp_bound,
        tmp_off,
    ));
    tmp_addr
}

/// The operators that this code generator translates.
#[derive(Debug, Clone, Copy, PartialEq, Eq, Structural)]
pub enum Operator {
    I32Const(i32),
    GetLocal(u32),
    SetLocal(u32),
    I32Add,
    I32Sub,
    I32Mul,
    I32And,
    I32Or,
    I32Xor,
    Drop,
    Block(Option<Type>),
    Loop(Option<Type>),
    End,
    Unreachable,
    If(Option<Type>),
    Else,
    Br(u32),
    BrIf(u32),
    Return,
    /// A 32-bit load from linear memory 0 at the popped address plus this offset.
    I32Load(u32),
    I64Const(i64),
    I64Add,
    I64Sub,
    I64Mul,
    I64And,
    I64Or,
    I64Xor,
    I32DivS,
    I32DivU,
    I32RemU,
    I32Eq,
    I32Ne,
    I32LtS,
    I32LtU,
    I32GtS,
    I32GtU,
    I32LeS,
    I32GeS,
}

/// The condition that an `i32` comparison tests.
pub open spec fn cmp_cond(op: Operator) -> Option<Condition> {
    match op {
        Operator::I32Eq => Some(Condition::Equal),
        Operator::I32Ne => Some(Condition::NotEqual),
        Operator::I32LtS => Some(Condition::Less),
        Operator::I32LtU => Some(Condition::Below),
        Operator::I32GtS => Some(Condition::Greater),
        Operator::I32GtU => Some(Condition::Above),
        Operator::I32LeS => Some(Condition::LessEqual),
        Operator::I32GeS => Some(Condition::GreaterEqual),
        _ => None,
    }
}

/// The code of an `i32` comparison of `a` with `b` into `ret`: compare, set the low byte of
/// RAX by the condition, clear the rest, and store it.
pub open spec fn spec_cmp(cond: Condition, a: Location, b: Location, ret: Location) -> Seq<Code> {
    as_code(spec_relaxed_binop(BinOp::Cmp, Size::S32, b, a, GPR::RCX, GPR::RDX)) + seq![
        Code::SetCond(cond, GPR::RAX),
        Code::Op(
            Instr {
                op: BinOp::And,
                size: Size::S32,
                src: Location::Imm32(0xff),
                dst: Location::GPR(GPR::RAX),
            },
        ),
        mov(Size::S32, Location::GPR(GPR::RAX), ret),
    ]
}

/// The instruction of a binary `i32` operator.
pub open spec fn bin_op_of(op: Operator) -> Option<BinOp> {
    match op {
        Operator::I32Add => Some(BinOp::Add),
        Operator::I32Sub => Some(BinOp::Sub),
        Operator::I32Mul => Some(BinOp::Imul),
        Operator::I32And => Some(BinOp::And),
        Operator::I32Or => Some(BinOp::Or),
        Operator::I32Xor => Some(BinOp::Xor),
        Operator::I64Add => Some(BinOp::Add),
        Operator::I64Sub => Some(BinOp::Sub),
        Operator::I64Mul => Some(BinOp::Imul),
        Operator::I64And => Some(BinOp::And),
        Operator::I64Or => Some(BinOp::Or),
        Operator::I64Xor => Some(BinOp::Xor),
        _ => None,
    }
}

/// The operand size of a binary operator.
pub open spec fn size_of_op(op: Operator) -> Size {
    match op {
        Operator::I64Add | Operator::I64Sub | Operator::I64Mul | Operator::I64And | Operator::I64Or
        | Operator::I64Xor => Size::S64,
        _ => Size::S32,
    }
}

/// Whether `op` is an `i32` division or remainder.
pub open spec fn is_div(op: Operator) -> bool {
    op == Operator::I32DivS || op == Operator::I32DivU || op == Operator::I32RemU
}

/// The code of an `i32` division or remainder of `a` by `b` into `ret`: the divisor goes to
/// RCX and a zero divisor traps; the dividend goes to RAX, extended into RDX by its sign
/// (signed) or with zeros (unsigned); the division leaves the quotient in RAX and the
/// remainder in RDX. A signed division can still fault, on `i32::MIN / -1` alone.
pub open spec fn spec_div(op: Operator, a: Location, b: Location, ret: Location) -> Seq<Code> {
    let signed = op == Operator::I32DivS;
    seq![
        mov(Size::S32, b, Location::GPR(GPR::RCX)),
        Code::Op(
            Instr {
                op: BinOp::Cmp,
                size: Size::S32,
                src: Location::Imm32(0),
                dst: Location::GPR(GPR::RCX),
            },
        ),
        Code::TrapIf(Condition::Equal),
        mov(Size::S32, a, Location::GPR(GPR::RAX)),
        if signed {
            Code::Cdq
        } else {
            Code::Op(
                Instr {
                    op: BinOp::Xor,
                    size: Size::S32,
                    src: Location::GPR(GPR::RDX),
                    dst: Location::GPR(GPR::RDX),
                },
            )
        },
        Code::Div(
            DivInstr {
                op: if signed {
                    DivOp::Idiv
                } else {
                    DivOp::Div
                },
                size: Size::S32,
                divisor: Location::GPR(GPR::RCX),
            },
        ),
        mov(
            Size::S32,
            Location::GPR(
                if op == Operator::I32RemU {
                    GPR::RDX
                } else {
                    GPR::RAX
                },
            ),
            ret,
        ),
    ]
}

/// How an operator steers unreachable code.
pub open spec fn class_of(op: Operator) -> OpClass {
    match op {
        Operator::Block(_) | Operator::Loop(_) | Operator::If(_) => OpClass::Opens,
        Operator::End => OpClass::End,
        Operator::Else => OpClass::Else,
        _ => OpClass::Other,
    }
}

/// Where local `i` lives: below the frame pointer.
pub open spec fn local_loc(i: nat) -> Location {
    Location::Memory(GPR::RBP, (-8 * (i + 1)) as i32)
}

/// Where the value at depth `d` of the value stack lives when the generator computed it:
/// below the locals.
pub open spec fn slot(n_locals: nat, d: nat) -> Location {
    Location::Memory(GPR::RBP, (-8 * (n_locals + d + 1)) as i32)
}

/// The code of a 32-bit load at `addr + offset` into `ret`, from memory 0 described by
/// `memory` (imported or not, and its class): the address computation with its bound check
/// (temporaries RAX, RCX, RDX and R11), then the load through RCX.
pub open spec fn spec_load(memory: Option<(bool, MemoryClass)>, addr: Location, offset: u32, ret: Location) -> Seq<
    Code,
> {
    let (imported, class) = memory->0;
    spec_memory_op(imported, class, addr, offset, 4, GPR::RAX, GPR::RCX, GPR::RDX, GPR::R11) + seq![
        mov(Size::S32, Location::Memory(GPR::RAX, 0), Location::GPR(GPR::RCX)),
        mov(Size::S32, Location::GPR(GPR::RCX), ret),
    ]
}

/// Whether memory 0 exists and is dynamic.
pub open spec fn is_dynamic(memory: Option<(bool, MemoryClass)>) -> bool {
    match memory {
        Some((_, class)) => class == MemoryClass::Dynamic,
        None => false,
    }
}

/// Where the trap site of a load lies, from the start of its code.
pub open spec fn load_trap_at(addr: Location, offset: u32) -> int {
    5 + spec_bound_check(addr, offset, 4, GPR::RAX, GPR::RCX, GPR::RDX, GPR::R11).len() - 1
}

/// The instructions of `s`, as code.
pub open spec fn as_code(s: Seq<Instr>) -> Seq<Code> {
    s.map_values(|i: Instr| Code::Op(i))
}

/// The checks of `call_indirect` with expected signature `sig_index` on the table index
/// `idx` (table 0, local or imported): the table's base and element count are loaded from
/// the context; an index at or past the count traps as out of bounds; the entry's address
/// is `base + idx * size of an Anyfunc`; the signature id that the context maps
/// `sig_index` to is compared with the entry's, a mismatch trapping; and the entry's
/// function pointer is left in `t_idx`, for the call.
pub open spec fn spec_call_indirect(
    imported: bool,
    sig_index: u32,
    idx: Location,
    t_tab: GPR,
    t_cnt: GPR,
    t_idx: GPR,
) -> Seq<Code> {
    let tables = if imported {
        4 * word()
    } else {
        word()
    };
    seq![
        mov(Size::S64, Location::Memory(GPR::R15, tables as i32), Location::GPR(t_tab)),
        mov(Size::S64, Location::Memory(t_tab, 0), Location::GPR(t_tab)),
        mov(Size::S64, Location::Memory(t_tab, word() as i32), Location::GPR(t_cnt)),
        mov(Size::S64, Location::Memory(t_tab, 0), Location::GPR(t_tab)),
        mov(Size::S32, idx, Location::GPR(t_idx)),
        Code::Op(
            Instr {
                op: BinOp::Cmp,
                size: Size::S64,
                src: Location::GPR(t_cnt),
                dst: Location::GPR(t_idx),
            },
        ),
        Code::TrapIf(Condition::AboveEqual),
        Code::Op(
            Instr {
                op: BinOp::Imul,
                size: Size::S64,
                src: Location::Imm32((3 * word()) as u32),
                dst: Location::GPR(t_idx),
            },
        ),
        add64(Location::GPR(t_tab), t_idx),
        mov(Size::S64, Location::Memory(GPR::R15, (7 * word()) as i32), Location::GPR(t_cnt)),
        mov(Size::S32, Location::Memory(t_cnt, (4 * sig_index) as i32), Location::GPR(t_cnt)),
        Code::Op(
            Instr {
                op: BinOp::Cmp,
                size: Size::S32,
                src: Location::GPR(t_cnt),
                dst: Location::Memory(t_idx, (2 * word()) as i32),
            },
        ),
        Code::TrapIf(Condition::NotEqual),
        mov(Size::S64, Location::Memory(t_idx, 0), Location::GPR(t_idx)),
    ]
}

/// Emits the checks of `call_indirect` (see `spec_call_indirect`), recording the two trap
/// sites, and returns the register that then holds the function pointer to call.
pub fn emit_call_indirect(
    out: &mut Vec<Code>,
    traps: &mut TrapSink,
    imported: bool,
    sig_index: u32,
    idx: Location,
    t_tab: GPR,
    t_cnt: GPR,
    t_idx: GPR,
) -> (r: GPR)
    requires
        old(traps).wf(),
        old(traps).next_free() <= old(out)@.len(),
        old(out)@.len() + 20 <= usize::MAX,
        sig_index < 0x1000_0000,
    ensures
        r == t_idx,
        final(out)@ == old(out)@ + spec_call_indirect(imported, sig_index, idx, t_tab, t_cnt, t_idx),
        final(traps).wf(),
        final(traps).next_free() <= final(out)@.len(),
        final(traps).view_map() == old(traps).view_map().insert(
            (old(out)@.len() + 6) as int,
            TrapKind::CallIndirectOutOfBounds,
        ).insert((old(out)@.len() + 12) as int, TrapKind::CallIndirectSignatureMismatch),
{
    let ghost start = out@;
    let tables = if imported {
        Ctx::offset_imported_tables()
    } else {
        Ctx::offset_tables()
    };
    let vmctx = get_vmctx_reg();
    push_mov(out, Size::S64, Location::Memory(vmctx, tables as i32), Location::GPR(t_tab));
    push_mov(out, Size::S64, Location::Memory(t_tab, 0), Location::GPR(t_tab));
    push_mov(
        out,
        Size::S64,
        Location::Memory(t_tab, LocalTable::offset_count() as i32),
        Location::GPR(t_cnt),
    );
    push_mov(
        out,
        Size::S64,
        Location::Memory(t_tab, LocalTable::offset_base() as i32),
        Location::GPR(t_tab),
    );
    push_mov(out, Size::S32, idx, Location::GPR(t_idx));
    out.push(
        Code::Op(
            Instr {
                op: BinOp::Cmp,
                size: Size::S64,
                src: Location::GPR(t_cnt),
                dst: Location::GPR(t_idx),
            },
        ),
    );
    traps.record(out.len(), TrapKind::CallIndirectOutOfBounds);
    out.push(Code::TrapIf(Condition::AboveEqual));
    out.push(
        Code::Op(
            Instr {
                op: BinOp::Imul,
                size: Size::S64,
                src: Location::Imm32(Anyfunc::size() as u32),
                dst: Location::GPR(t_idx),
            },
        ),
    );
    push_add64(out, Location::GPR(t_tab), t_idx);
    push_mov(
        out,
        Size::S64,
        Location::Memory(vmctx, Ctx::offset_signatures() as i32),
        Location::GPR(t_cnt),
    );
    push_mov(
        out,
        Size::S32,
        Location::Memory(t_cnt, (4 * sig_index) as i32),
        Location::GPR(t_cnt),
    );
    out.push(
        Code::Op(
            Instr {
                op: BinOp::Cmp,
                size: Size::S32,
                src: Location::GPR(t_cnt),
                dst: Location::Memory(t_idx, Anyfunc::offset_sig_id() as i32),
            },
        ),
    );
    traps.record(out.len(), TrapKind::CallIndirectSignatureMismatch);
    out.push(Code::TrapIf(Condition::NotEqual));
    push_mov(
        out,
        Size::S64,
        Location::Memory(t_idx, Anyfunc::offset_func() as i32),
        Location::GPR(t_idx),
    );
    assert(out@ =~= start + spec_call_indirect(imported, sig_index, idx, t_tab, t_cnt, t_idx));
    t_idx
}

/// A frame as the value stack sees it: entry depth, number of results, loop-like, branch.
pub type FrameView = (nat, nat, bool, Branch);

/// A frame's labels: the one a branch to it jumps to, and the else label of an `if` that has
/// not reached its `else`.
pub type FrameLabels = (DynamicLabel, Option<DynamicLabel>);

/// The move of the top value into the result slot of a block entered at `entry`, when the
/// block has a result there to take and the value is not already there.
pub open spec fn move_result(
    values: Seq<Location>,
    n_locals: nat,
    entry: nat,
    results: nat,
    moved: bool,
) -> Seq<Code> {
    if moved && results == 1 && values.last() != slot(n_locals, entry) {
        as_code(
            spec_relaxed_binop(
                BinOp::Mov,
                Size::S64,
                values.last(),
                slot(n_locals, entry),
                GPR::RCX,
                GPR::RDX,
            ),
        )
    } else {
        Seq::empty()
    }
}

/// The comparison of a condition with zero.
pub open spec fn test_zero(cond: Location) -> Seq<Code> {
    as_code(spec_relaxed_binop(BinOp::Cmp, Size::S32, Location::Imm32(0), cond, GPR::RCX, GPR::RDX))
}

/// A branch to frame `t`: its result, unless it is a loop, goes to the frame's result slot,
/// then a jump to the frame's label.
pub open spec fn branch_to(
    values: Seq<Location>,
    n_locals: nat,
    frames: Seq<FrameView>,
    labels: Seq<FrameLabels>,
    t: int,
) -> Seq<Code> {
    let f = frames[t];
    move_result(
        values,
        n_locals,
        f.0,
        if f.2 {
            0
        } else {
            f.1
        },
        true,
    ) + seq![Code::Jmp(None, labels[t].0)]
}

/// The code that an operator gives when it is translated, with `values` on the value
/// stack, the frames `frames` with their labels `labels`, and `next` the next fresh label.
/// `moved` says whether a block's result is moved in place at `Else` or `End`, which it is
/// not when the operator ends unreachable code.
pub open spec fn spec_code(
    op: Operator,
    memory: Option<(bool, MemoryClass)>,
    values: Seq<Location>,
    n_locals: nat,
    frames: Seq<FrameView>,
    labels: Seq<FrameLabels>,
    next: nat,
    moved: bool,
) -> Seq<Code> {
    let top = frames.last();
    let lt = labels.last();
    match op {
        Operator::SetLocal(i) => as_code(
            spec_relaxed_binop(BinOp::Mov, Size::S64, values.last(), local_loc(i as nat), GPR::RCX, GPR::RDX),
        ),
        Operator::Loop(_) => seq![Code::Label(DynamicLabel(next as usize))],
        Operator::If(_) => test_zero(values.last()) + seq![
            Code::Jmp(Some(Condition::Equal), DynamicLabel((next + 1) as usize)),
        ],
        Operator::Else => move_result(values, n_locals, top.0, top.1, moved) + seq![
            Code::Jmp(None, lt.0),
            Code::Label(lt.1->0),
        ],
        Operator::End => move_result(values, n_locals, top.0, top.1, moved) + if frames.len() == 1 {
            seq![Code::Label(lt.0), Code::Return]
        } else {
            (if !top.2 {
                seq![Code::Label(lt.0)]
            } else {
                Seq::empty()
            }) + match lt.1 {
                Some(e) => seq![Code::Label(e)],
                None => Seq::empty(),
            }
        },
        Operator::Br(rel) => branch_to(values, n_locals, frames, labels, frames.len() - 1 - rel),
        Operator::BrIf(rel) => test_zero(values.last()) + seq![
            Code::Jmp(Some(Condition::Equal), DynamicLabel(next as usize)),
        ] + branch_to(values.drop_last(), n_locals, frames, labels, frames.len() - 1 - rel) + seq![
            Code::Label(DynamicLabel(next as usize)),
        ],
        Operator::Return => branch_to(values, n_locals, frames, labels, 0),
        Operator::Unreachable => seq![Code::Ud2],
        Operator::I32Load(offset) => spec_load(memory, values.last(), offset, slot(n_locals, (values.len() - 1) as nat)),
        Operator::I32DivS | Operator::I32DivU | Operator::I32RemU => spec_div(
            op,
            values[values.len() - 2],
            values.last(),
            slot(n_locals, (values.len() - 2) as nat),
        ),
        _ => if cmp_cond(op) is Some {
            spec_cmp(
                cmp_cond(op)->0,
                values[values.len() - 2],
                values.last(),
                slot(n_locals, (values.len() - 2) as nat),
            )
        } else {
            match bin_op_of(op) {
            Some(b) => as_code(
                spec_binop(
                    b,
                    size_of_op(op),
                    values[values.len() - 2],
                    values.last(),
                    slot(n_locals, (values.len() - 2) as nat),
                    GPR::RAX,
                    GPR::RCX,
                    GPR::RDX,
                ),
            ),
            None => Seq::empty(),
        }
        },
    }
}

/// The value stack after a translated operator (for `End`, after the block closes).
pub open spec fn spec_values(
    op: Operator,
    values: Seq<Location>,
    n_locals: nat,
    entry: nat,
    results: nat,
) -> Seq<Location> {
    match op {
        Operator::I32Const(c) => values.push(Location::Imm32(c as u32)),
        Operator::I64Const(c) => values.push(Location::Imm64(c as u64)),
        Operator::GetLocal(i) => values.push(local_loc(i as nat)),
        Operator::SetLocal(_) | Operator::Drop | Operator::If(_) | Operator::BrIf(_) => values.drop_last(),
        Operator::Else => values.subrange(0, entry as int),
        Operator::End => values.subrange(0, entry as int) + if results == 1 {
            seq![slot(n_locals, entry)]
        } else {
            Seq::empty()
        },
        Operator::Block(_) | Operator::Loop(_) | Operator::Unreachable | Operator::Br(_)
        | Operator::Return => values,
        Operator::I32Load(_) => values.drop_last().push(slot(n_locals, (values.len() - 1) as nat)),
        _ => values.drop_last().drop_last().push(slot(n_locals, (values.len() - 2) as nat)),
    }
}

/// The frames after a translated operator, with the value stack `depth` deep before it.
pub open spec fn spec_frames(op: Operator, frames: Seq<FrameView>, depth: nat) -> Seq<FrameView> {
    let top = frames.last();
    match op {
        Operator::Block(ty) => frames.push((depth, if ty is Some { 1nat } else { 0 }, false, Branch::NotIf)),
        Operator::Loop(ty) => frames.push((depth, if ty is Some { 1nat } else { 0 }, true, Branch::NotIf)),
        Operator::If(ty) => frames.push(
            ((depth - 1) as nat, if ty is Some { 1nat } else { 0 }, false, Branch::InIf),
        ),
        Operator::Else => frames.drop_last().push((top.0, top.1, top.2, Branch::InElse)),
        Operator::End => frames.drop_last(),
        _ => frames,
    }
}

/// The frame labels after a translated operator; `next` is the next fresh label.
pub open spec fn spec_labels(op: Operator, labels: Seq<FrameLabels>, next: nat) -> Seq<FrameLabels> {
    match op {
        Operator::Block(_) | Operator::Loop(_) => labels.push((DynamicLabel(next as usize), None)),
        Operator::If(_) => labels.push(
            (DynamicLabel(next as usize), Some(DynamicLabel((next + 1) as usize))),
        ),
        Operator::Else => labels.drop_last().push((labels.last().0, None)),
        Operator::End => labels.drop_last(),
        _ => labels,
    }
}

/// How many fresh labels a translated operator takes.
pub open spec fn labels_taken(op: Operator) -> nat {
    match op {
        Operator::Block(_) | Operator::Loop(_) | Operator::BrIf(_) => 1,
        Operator::If(_) => 2,
        _ => 0,
    }
}

/// The arms of a `br_table` from the `k`-th on: each binds its label, then branches to its
/// target frame.
pub open spec fn br_arms(
    values: Seq<Location>,
    n_locals: nat,
    frames: Seq<FrameView>,
    labels: Seq<FrameLabels>,
    targets: Seq<u32>,
    next: nat,
    k: nat,
) -> Seq<Code>
    decreases targets.len() - k,
{
    if k >= targets.len() {
        Seq::empty()
    } else {
        seq![Code::Label(DynamicLabel((next + k) as usize))] + branch_to(
            values,
            n_locals,
            frames,
            labels,
            frames.len() - 1 - targets[k as int],
        ) + br_arms(values, n_locals, frames, labels, targets, next, k + 1)
    }
}

/// The code of a `br_table` on the index `idx`, with `values` left on the value stack: an
/// index at or past the number of targets goes to the default arm, any other jumps through
/// table `table` to its arm.
pub open spec fn spec_br_table(
    values: Seq<Location>,
    idx: Location,
    n_locals: nat,
    frames: Seq<FrameView>,
    labels: Seq<FrameLabels>,
    targets: Seq<u32>,
    default: u32,
    next: nat,
    table: nat,
) -> Seq<Code> {
    let dl = DynamicLabel((next + targets.len()) as usize);
    seq![
        mov(Size::S32, idx, Location::GPR(GPR::RCX)),
        Code::Op(
            Instr {
                op: BinOp::Cmp,
                size: Size::S32,
                src: Location::Imm32(targets.len() as u32),
                dst: Location::GPR(GPR::RCX),
            },
        ),
        Code::Jmp(Some(Condition::AboveEqual), dl),
        Code::JmpTable(table as usize, GPR::RCX),
    ] + br_arms(values, n_locals, frames, labels, targets, next, 0) + seq![Code::Label(dl)]
        + branch_to(values, n_locals, frames, labels, frames.len() - 1 - default)
}

/// Whether a `br_table` is well typed: every target and the default name open frames, and
/// the value stack holds the index and, above the block's entry, what each target carries.
pub open spec fn br_table_typed(
    depth: nat,
    frames: Seq<FrameView>,
    targets: Seq<u32>,
    default: u32,
) -> bool {
    let entry = frames.last().0;
    let carries = |t: u32| {
        let f = frames[frames.len() - 1 - t];
        !f.2 && f.1 == 1
    };
    &&& entry < depth
    &&& default < frames.len()
    &&& (carries(default) ==> entry + 1 < depth)
    &&& forall|k: int|
        0 <= k < targets.len() ==> #[trigger] targets[k] < frames.len() && (carries(targets[k])
            ==> entry + 1 < depth)
}

/// Whether a translated operator leaves what follows unreachable.
pub open spec fn ends_reachable(op: Operator) -> bool {
    op == Operator::Unreachable || op is Br || op == Operator::Return
}

/// Whether `op` is well typed with the value stack `depth` deep and the frames `frames`, as
/// validation guarantees: an operator pops only what its block pushed, a local exists, a
/// branch names an open frame and has the value it carries, and a block, or an if's true
/// branch, ends with exactly its results.
pub open spec fn well_typed(
    op: Operator,
    depth: nat,
    frames: Seq<FrameView>,
    n_locals: nat,
    memory: Option<(bool, MemoryClass)>,
) -> bool {
    let entry = frames.last().0;
    let results = frames.last().1;
    match op {
        Operator::I32Load(_) => memory is Some && entry < depth,
        Operator::GetLocal(i) => i < n_locals,
        Operator::SetLocal(i) => i < n_locals && entry < depth,
        Operator::Drop | Operator::If(_) => entry < depth,
        Operator::Else => frames.last().3 == Branch::InIf && depth == entry + results,
        Operator::End => depth == entry + results,
        Operator::Br(rel) => rel < frames.len() && {
            let f = frames[frames.len() - 1 - rel];
            (!f.2 && f.1 == 1) ==> entry < depth
        },
        Operator::BrIf(rel) => entry < depth && rel < frames.len() && {
            let f = frames[frames.len() - 1 - rel];
            (!f.2 && f.1 == 1) ==> entry + 1 < depth
        },
        Operator::Return => frames[0].1 == 1 ==> entry < depth,
        _ => (bin_op_of(op) is Some || is_div(op) || cmp_cond(op) is Some) ==> entry + 2 <= depth,
    }
}

fn append_instrs(out: &mut Vec<Code>, instrs: Vec<Instr>)
    ensures
        final(out)@ == old(out)@ + as_code(instrs@),
{
    let ghost start = out@;
    let mut i: usize = 0;
    while i < instrs.len()
        invariant
            i <= instrs@.len(),
            out@ == start + as_code(instrs@.subrange(0, i as int)),
        decreases instrs@.len() - i,
    {
        out.push(Code::Op(instrs[i]));
        i = i + 1;
        assert(out@ =~= start + as_code(instrs@.subrange(0, i as int)));
    }
    assert(instrs@.subrange(0, instrs@.len() as int) =~= instrs@);
}

fn emit_relaxed(out: &mut Vec<Code>, op: BinOp, sz: Size, src: Location, dst: Location)
    ensures
        final(out)@ == old(out)@ + as_code(spec_relaxed_binop(op, sz, src, dst, GPR::RCX, GPR::RDX)),
{
    let mut instrs: Vec<Instr> = Vec::new();
    emit_relaxed_binop(&mut instrs, op, sz, src, dst, GPR::RCX, GPR::RDX);
    assert(instrs@ =~= spec_relaxed_binop(op, sz, src, dst, GPR::RCX, GPR::RDX));
    append_instrs(out, instrs);
}

fn emit_move_result(
    out: &mut Vec<Code>,
    values: &Vec<Location>,
    n_locals: usize,
    entry: usize,
    results: usize,
    moved: bool,
)
    requires
        n_locals + entry < 0x100_0000,
        moved && results == 1 ==> values@.len() > 0,
    ensures
        final(out)@ == old(out)@ + move_result(values@, n_locals as nat, entry as nat, results as nat, moved),
{
    if moved && results == 1 {
        let last = values[values.len() - 1];
        let dst = slot_exec(n_locals, entry);
        if last != dst {
            emit_relaxed(out, BinOp::Mov, Size::S64, last, dst);
            return;
        }
    }
    assert(old(out)@ + Seq::<Code>::empty() =~= old(out)@);
}

fn slot_exec(n_locals: usize, d: usize) -> (r: Location)
    requires
        n_locals + d < 0x100_0000,
    ensures
        r == slot(n_locals as nat, d as nat),
{
    Location::Memory(GPR::RBP, (-8 * ((n_locals + d + 1) as i64)) as i32)
}

/// The code generator of one function: the control state, where each value of the value
/// stack lives, the labels of the open frames, the next fresh label, and the number of
/// locals.
pub struct FunctionCode {
    state: FunctionState,
    values: Vec<Location>,
    labels: Vec<(DynamicLabel, Option<DynamicLabel>)>,
    next_label: usize,
    num_locals: usize,
    memory: Option<(bool, MemoryClass)>,
    br_tables: Vec<Vec<DynamicLabel>>,
}

impl FunctionCode {
    pub closed spec fn control(&self) -> FunctionState {
        self.state
    }

    pub closed spec fn values(&self) -> Seq<Location> {
        self.values@
    }

    pub closed spec fn labels(&self) -> Seq<FrameLabels> {
        self.labels@
    }

    pub closed spec fn next_label(&self) -> nat {
        self.next_label as nat
    }

    /// The jump tables of the function: each entry is the label of an arm.
    pub closed spec fn br_tables(&self) -> Seq<Seq<DynamicLabel>> {
        self.br_tables@.map_values(|t: Vec<DynamicLabel>| t@)
    }

    /// The jump tables of the function.
    pub fn br_table_labels(&self) -> (r: &Vec<Vec<DynamicLabel>>)
        ensures
            r@.map_values(|t: Vec<DynamicLabel>| t@) == self.br_tables(),
    {
        &self.br_tables
    }

    pub closed spec fn locals(&self) -> nat {
        self.num_locals as nat
    }

    /// Memory 0, if the module has one: whether it is imported, and its class.
    pub closed spec fn memory(&self) -> Option<(bool, MemoryClass)> {
        self.memory
    }

    /// The value stack has a location for each value, each frame has its labels (an else
    /// label exactly while in the true branch of an `if`), the frames are sound, and stack
    /// slots stay within a 32-bit displacement.
    pub open spec fn wf(&self) -> bool {
        &&& self.control().wf()
        &&& self.values().len() == self.control().depth()
        &&& self.labels().len() == self.control().frames().len()
        &&& forall|i: int|
            0 <= i < self.labels().len() ==> (#[trigger] self.labels()[i].1 is Some)
                == (self.control().frames()[i].3 == Branch::InIf)
        &&& self.locals() + self.control().depth() + 1 < 0x100_0000
    }

    /// The generator at the start of a body with `num_locals` locals and result `ret`, in a
    /// module whose memory 0 is `memory`.
    pub fn new(num_locals: usize, ret: Option<Type>, memory: Option<(bool, MemoryClass)>) -> (r: Self)
        requires
            num_locals + 1 < 0x100_0000,
        ensures
            r.wf(),
            r.locals() == num_locals,
            r.memory() == memory,
            r.values().len() == 0,
            r.control().frames().len() == 1,
            r.control().frames()[0].1 == (if ret is Some { 1nat } else { 0 }),
            r.control().unreachable() == 0,
            r.labels() == seq![(DynamicLabel(0), None::<DynamicLabel>)],
            r.next_label() == 1,
    {
        let mut labels: Vec<(DynamicLabel, Option<DynamicLabel>)> = Vec::new();
        labels.push((DynamicLabel(0), None));
        let r = FunctionCode {
            state: FunctionState::new(ret),
            values: Vec::new(),
            labels,
            next_label: 1,
            num_locals,
            memory,
            br_tables: Vec::new(),
        };
        assert(r.labels() =~= seq![(DynamicLabel(0), None::<DynamicLabel>)]);
        r
    }

    /// Translates one operator, appending its code to `out` and recording its trap sites in
    /// `traps` (positions in `out` stand for code offsets). In unreachable code only the
    /// unreachable depth moves, until an `End`, or the `Else` of an `if` whose true branch
    /// became unreachable, closes the region and is translated.
    #[verifier::rlimit(100)]
    pub fn feed_opcode(&mut self, op: Operator, out: &mut Vec<Code>, traps: &mut TrapSink) -> (r:
        Result<(), CodegenError>)
        requires
            old(self).wf(),
            old(self).control().frames().len() > 0,
            old(traps).wf(),
            old(traps).next_free() <= old(out)@.len(),
            old(out)@.len() < usize::MAX - 40,
            old(self).next_label() + 3 < usize::MAX,
            old(self).control().unreachable() + 1 < usize::MAX,
            old(self).control().unreachable() == 0 ==> well_typed(
                op,
                old(self).control().depth(),
                old(self).control().frames(),
                old(self).locals(),
                old(self).memory(),
            ),
            old(self).control().depth() + 2 < 0x100_0000 - old(self).locals(),
        ensures
            r is Ok,
            final(self).wf(),
            final(self).locals() == old(self).locals(),
            final(self).memory() == old(self).memory(),
            final(traps).wf(),
            final(traps).next_free() <= final(out)@.len(),
            ({
                let c = old(self).control();
                let skipped = c.unreachable() > 0;
                let step = spec_unreachable_step(
                    c.unreachable(),
                    class_of(op),
                    c.frames().last().3 == Branch::InIf,
                );
                let translated = !skipped || step == 0;
                &&& skipped ==> final(self).control().unreachable() == step
                &&& !translated ==> final(out)@ == old(out)@ && final(self).values() == old(
                    self,
                ).values() && final(self).control().frames() == c.frames() && final(self).labels()
                    == old(self).labels() && final(self).next_label() == old(self).next_label()
                &&& translated ==> final(out)@ == old(out)@ + spec_code(
                    op,
                    old(self).memory(),
                    old(self).values(),
                    old(self).locals(),
                    c.frames(),
                    old(self).labels(),
                    old(self).next_label(),
                    !skipped,
                ) && final(self).values() == spec_values(
                    op,
                    old(self).values(),
                    old(self).locals(),
                    c.top_entry(),
                    c.frames().last().1,
                )
                &&& translated ==> final(self).control().frames() == spec_frames(
                    op,
                    c.frames(),
                    c.depth(),
                ) && final(self).labels() == spec_labels(
                    op,
                    old(self).labels(),
                    old(self).next_label(),
                ) && final(self).next_label() == old(self).next_label() + labels_taken(op)
                    && final(self).control().unreachable() == if ends_reachable(op) {
                    1nat
                } else {
                    0
                }
                &&& (translated && op == Operator::Unreachable) ==> final(traps).view_map()
                    == old(traps).view_map().insert(old(out)@.len() as int, TrapKind::Unreachable)
                &&& (translated && op is I32Load && is_dynamic(old(self).memory()))
                    ==> final(traps).view_map() == old(traps).view_map().insert(
                    old(out)@.len() + load_trap_at(old(self).values().last(), op->I32Load_0),
                    TrapKind::MemoryOutOfBounds,
                )
                &&& (translated && op == Operator::I32DivS) ==> final(traps).view_map() == old(
                    traps,
                ).view_map().insert((old(out)@.len() + 2) as int, TrapKind::IntegerDivideByZero).insert(
                    (old(out)@.len() + 5) as int,
                    TrapKind::IntegerOverflow,
                )
                &&& (translated && (op == Operator::I32DivU || op == Operator::I32RemU))
                    ==> final(traps).view_map() == old(traps).view_map().insert(
                    (old(out)@.len() + 2) as int,
                    TrapKind::IntegerDivideByZero,
                )
                &&& !(translated && (op == Operator::Unreachable || is_div(op) || (op is I32Load
                    && is_dynamic(old(self).memory())))) ==> final(traps).view_map() == old(
                    traps,
                ).view_map()
            }),
    {
        let skipped = self.state.unreachable_depth() > 0;
        if skipped {
            let class = match op {
                Operator::Block(_) | Operator::Loop(_) | Operator::If(_) => OpClass::Opens,
                Operator::End => OpClass::End,
                Operator::Else => OpClass::Else,
                _ => OpClass::Other,
            };
            let go = self.skip_unreachable(class);
            if !go {
                return Ok(());
            }
        }
        let ghost values0 = self.values@;
        let ghost c = self.state;
        let ghost labels0 = self.labels@;
        let ghost next0 = self.next_label;
        match op {
            Operator::Block(ty) => {
                self.open_frame(OpenKind::Block, ty, out);
            },
            Operator::Loop(ty) => {
                self.open_frame(OpenKind::Loop, ty, out);
            },
            Operator::If(ty) => {
                self.open_frame(OpenKind::If, ty, out);
            },
            Operator::Else => {
                self.else_branch(out, !skipped);
            },
            Operator::End => {
                self.end_block(out, !skipped);
            },
            Operator::Br(rel) => {
                let n = self.state.frame_count();
                self.branch(out, n - 1 - rel as usize);
                self.state.enter_unreachable();
            },
            Operator::Return => {
                self.branch(out, 0);
                self.state.enter_unreachable();
            },
            Operator::BrIf(rel) => {
                self.br_if(out, rel);
            },
            _ => {
                self.operate(op, out, traps);
            },
        }
        Ok(())
    }

    /// The operators that touch neither frames nor labels.
    #[verifier::rlimit(100)]
    fn operate(&mut self, op: Operator, out: &mut Vec<Code>, traps: &mut TrapSink)
        requires
            old(self).wf(),
            old(self).control().frames().len() > 0,
            old(self).control().unreachable() == 0,
            old(traps).wf(),
            old(traps).next_free() <= old(out)@.len(),
            old(out)@.len() < usize::MAX - 40,
            !(op is Block || op is Loop || op is If || op == Operator::Else || op == Operator::End
                || op is Br || op is BrIf || op == Operator::Return),
            well_typed(
                op,
                old(self).control().depth(),
                old(self).control().frames(),
                old(self).locals(),
                old(self).memory(),
            ),
            old(self).control().depth() + 2 < 0x100_0000 - old(self).locals(),
        ensures
            final(self).wf(),
            final(self).locals() == old(self).locals(),
            final(self).memory() == old(self).memory(),
            final(self).labels() == old(self).labels(),
            final(self).next_label() == old(self).next_label(),
            final(traps).wf(),
            final(traps).next_free() <= final(out)@.len(),
            final(out)@ == old(out)@ + spec_code(
                op,
                old(self).memory(),
                old(self).values(),
                old(self).locals(),
                old(self).control().frames(),
                old(self).labels(),
                old(self).next_label(),
                true,
            ),
            final(self).values() == spec_values(
                op,
                old(self).values(),
                old(self).locals(),
                old(self).control().top_entry(),
                old(self).control().frames().last().1,
            ),
            final(self).control().frames() == old(self).control().frames(),
            final(self).control().unreachable() == if op == Operator::Unreachable {
                1nat
            } else {
                0
            },
            op == Operator::Unreachable ==> final(traps).view_map() == old(traps).view_map().insert(
                old(out)@.len() as int,
                TrapKind::Unreachable,
            ),
            (op is I32Load && is_dynamic(old(self).memory())) ==> final(traps).view_map() == old(
                traps,
            ).view_map().insert(
                old(out)@.len() + load_trap_at(old(self).values().last(), op->I32Load_0),
                TrapKind::MemoryOutOfBounds,
            ),
            op == Operator::I32DivS ==> final(traps).view_map() == old(traps).view_map().insert(
                (old(out)@.len() + 2) as int,
                TrapKind::IntegerDivideByZero,
            ).insert((old(out)@.len() + 5) as int, TrapKind::IntegerOverflow),
            (op == Operator::I32DivU || op == Operator::I32RemU) ==> final(traps).view_map() == old(
                traps,
            ).view_map().insert((old(out)@.len() + 2) as int, TrapKind::IntegerDivideByZero),
            !(op == Operator::Unreachable || is_div(op) || (op is I32Load && is_dynamic(
                old(self).memory(),
            ))) ==> final(traps).view_map() == old(traps).view_map(),
    {
        let ghost values0 = self.values@;
        let ghost c = self.state;
        match op {
            Operator::I32Const(v) => {
                self.state.operate(0, 1);
                self.values.push(Location::Imm32(v as u32));
            },
            Operator::I64Const(v) => {
                self.state.operate(0, 1);
                self.values.push(Location::Imm64(v as u64));
            },
            Operator::I32DivS | Operator::I32DivU | Operator::I32RemU => {
                let loc_b = self.values.pop().unwrap();
                let loc_a = self.values.pop().unwrap();
                let ret = slot_exec(self.num_locals, self.values.len());
                self.state.operate(2, 1);
                emit_div(op, loc_a, loc_b, ret, out, traps);
                self.values.push(ret);
                proof {
                    assert(self.values@ =~= values0.drop_last().drop_last().push(ret));
                }
            },
            Operator::GetLocal(i) => {
                self.state.operate(0, 1);
                self.values.push(local_exec(i));
            },
            Operator::SetLocal(i) => {
                let v = self.values.pop().unwrap();
                self.state.operate(1, 0);
                emit_relaxed(out, BinOp::Mov, Size::S64, v, local_exec(i));
            },
            Operator::Drop => {
                self.values.pop();
                self.state.operate(1, 0);
            },
            Operator::Unreachable => {
                traps.record(out.len(), TrapKind::Unreachable);
                out.push(Code::Ud2);
                self.state.enter_unreachable();
            },
            Operator::I32Load(offset) => {
                let (imported, class) = self.memory.unwrap();
                let addr = self.values.pop().unwrap();
                let ret = slot_exec(self.num_locals, self.values.len());
                let ghost start = out@;
                let a = emit_memory_op(
                    out,
                    traps,
                    imported,
                    class,
                    addr,
                    offset,
                    4,
                    GPR::RAX,
                    GPR::RCX,
                    GPR::RDX,
                    GPR::R11,
                );
                out.push(
                    Code::Op(
                        Instr {
                            op: BinOp::Mov,
                            size: Size::S32,
                            src: Location::Memory(a, 0),
                            dst: Location::GPR(GPR::RCX),
                        },
                    ),
                );
                out.push(
                    Code::Op(
                        Instr { op: BinOp::Mov, size: Size::S32, src: Location::GPR(GPR::RCX), dst: ret },
                    ),
                );
                self.values.push(ret);
                proof {
                    assert(out@ =~= start + spec_load(self.memory, addr, offset, ret));
                    assert(self.values@ =~= values0.drop_last().push(ret));
                }
            },
            Operator::I32Eq | Operator::I32Ne | Operator::I32LtS | Operator::I32LtU
            | Operator::I32GtS | Operator::I32GtU | Operator::I32LeS | Operator::I32GeS => {
                let cond = match op {
                    Operator::I32Eq => Condition::Equal,
                    Operator::I32Ne => Condition::NotEqual,
                    Operator::I32LtS => Condition::Less,
                    Operator::I32LtU => Condition::Below,
                    Operator::I32GtS => Condition::Greater,
                    Operator::I32GtU => Condition::Above,
                    Operator::I32LeS => Condition::LessEqual,
                    _ => Condition::GreaterEqual,
                };
                let loc_b = self.values.pop().unwrap();
                let loc_a = self.values.pop().unwrap();
                let ret = slot_exec(self.num_locals, self.values.len());
                self.state.operate(2, 1);
                emit_cmp(cond, loc_a, loc_b, ret, out);
                self.values.push(ret);
                proof {
                    assert(self.values@ =~= values0.drop_last().drop_last().push(ret));
                }
            },
            _ => {
                let b = match op {
                    Operator::I32Add | Operator::I64Add => BinOp::Add,
                    Operator::I32Sub | Operator::I64Sub => BinOp::Sub,
                    Operator::I32Mul | Operator::I64Mul => BinOp::Imul,
                    Operator::I32And | Operator::I64And => BinOp::And,
                    Operator::I32Or | Operator::I64Or => BinOp::Or,
                    _ => BinOp::Xor,
                };
                let sz = match op {
                    Operator::I64Add | Operator::I64Sub | Operator::I64Mul | Operator::I64And
                    | Operator::I64Or | Operator::I64Xor => Size::S64,
                    _ => Size::S32,
                };
                let loc_b = self.values.pop().unwrap();
                let loc_a = self.values.pop().unwrap();
                let ret = slot_exec(self.num_locals, self.values.len());
                self.state.operate(2, 1);
                let mut instrs: Vec<Instr> = Vec::new();
                emit_binop(&mut instrs, b, sz, loc_a, loc_b, ret, GPR::RAX, GPR::RCX, GPR::RDX);
                append_instrs(out, instrs);
                self.values.push(ret);
                proof {
                    assert(self.values@ =~= values0.drop_last().drop_last().push(ret));
                }
            },
        }
        proof {
            assert(self.values@ =~= spec_values(
                op,
                values0,
                self.num_locals as nat,
                c.top_entry(),
                c.frames().last().1,
            )) by {
                if op is SetLocal || op is Drop {
                    assert(self.values@ =~= values0.drop_last());
                }
            }
        }
    }

    /// Translates `br_table` with the arms `targets` and the default `default` (relative
    /// depths), in reachable code: the index is popped and checked against the number of
    /// targets; a new jump table, whose entries are the labels of the arms, is recorded; each
    /// arm branches like `Br`. What follows is unreachable.
    #[verifier::rlimit(100)]
    pub fn feed_br_table(&mut self, targets: &Vec<u32>, default: u32, out: &mut Vec<Code>)
        requires
            old(self).wf(),
            old(self).control().frames().len() > 0,
            old(self).control().unreachable() == 0,
            targets@.len() < 0x1000_0000,
            old(out)@.len() + 40 * (targets@.len() + 2) < usize::MAX,
            old(self).next_label() + targets@.len() + 3 < usize::MAX,
            br_table_typed(old(self).control().depth(), old(self).control().frames(), targets@, default),
            old(self).control().depth() + 2 < 0x100_0000 - old(self).locals(),
        ensures
            final(self).wf(),
            final(self).locals() == old(self).locals(),
            final(self).memory() == old(self).memory(),
            final(self).control().frames() == old(self).control().frames(),
            final(self).control().unreachable() == 1,
            final(self).labels() == old(self).labels(),
            final(self).next_label() == old(self).next_label() + targets@.len() + 1,
            final(self).values() == old(self).values().drop_last(),
            final(self).br_tables() == old(self).br_tables().push(
                Seq::new(
                    targets@.len(),
                    |k: int| DynamicLabel((old(self).next_label() + k) as usize),
                ),
            ),
            final(out)@ == old(out)@ + spec_br_table(
                old(self).values().drop_last(),
                old(self).values().last(),
                old(self).locals(),
                old(self).control().frames(),
                old(self).labels(),
                targets@,
                default,
                old(self).next_label(),
                old(self).br_tables().len(),
            ),
    {
        let ghost start = out@;
        let ghost tables0 = self.br_tables();
        let idx = self.values.pop().unwrap();
        self.state.operate(1, 0);
        let next = self.next_label;
        let n = targets.len();
        let default_label = DynamicLabel(next + n);
        let table = self.br_tables.len();
        push_mov(out, Size::S32, idx, Location::GPR(GPR::RCX));
        out.push(
            Code::Op(
                Instr {
                    op: BinOp::Cmp,
                    size: Size::S32,
                    src: Location::Imm32(n as u32),
                    dst: Location::GPR(GPR::RCX),
                },
            ),
        );
        out.push(Code::Jmp(Some(Condition::AboveEqual), default_label));
        out.push(Code::JmpTable(table, GPR::RCX));
        let ghost head = out@;
        let frames = self.state.frame_count();
        let mut entries: Vec<DynamicLabel> = Vec::new();
        let mut k: usize = 0;
        while k < n
            invariant
                self.wf(),
                self.control().frames() == old(self).control().frames(),
                self.values() == old(self).values().drop_last(),
                self.labels() == old(self).labels(),
                self.locals() == old(self).locals(),
                self.control().unreachable() == 0,
                self.control().depth() + 3 < 0x100_0000 - self.locals(),
                frames == self.control().frames().len(),
                n == targets@.len(),
                next == old(self).next_label(),
                k <= n,
                br_table_typed(
                    old(self).control().depth(),
                    old(self).control().frames(),
                    targets@,
                    default,
                ),
                self.control().depth() + 1 == old(self).control().depth(),
                self.control().frames().last().0 == old(self).control().frames().last().0,
                out@.len() <= head.len() + 40 * k,
                head.len() + 40 * (n + 1) < usize::MAX,
                next + n + 3 < usize::MAX,
                entries@ == Seq::new(k as nat, |i: int| DynamicLabel((next + i) as usize)),
                out@ + br_arms(
                    self.values(),
                    self.locals(),
                    self.control().frames(),
                    self.labels(),
                    targets@,
                    next as nat,
                    k as nat,
                ) == head + br_arms(
                    self.values(),
                    self.locals(),
                    self.control().frames(),
                    self.labels(),
                    targets@,
                    next as nat,
                    0,
                ),
            decreases n - k,
        {
            let ghost before = out@;
            let arm = DynamicLabel(next + k);
            out.push(Code::Label(arm));
            entries.push(arm);
            self.branch(out, frames - 1 - targets[k] as usize);
            proof {
                let arms = |j: nat|
                    br_arms(
                        self.values(),
                        self.locals(),
                        self.control().frames(),
                        self.labels(),
                        targets@,
                        next as nat,
                        j,
                    );
                assert(arms(k as nat) == seq![Code::Label(arm)] + branch_to(
                    self.values(),
                    self.locals(),
                    self.control().frames(),
                    self.labels(),
                    self.control().frames().len() - 1 - targets@[k as int],
                ) + arms((k + 1) as nat));
                assert(out@ + arms((k + 1) as nat) =~= before + arms(k as nat));
                assert(entries@ =~= Seq::new((k + 1) as nat, |i: int| DynamicLabel((next + i) as usize)));
            }
            k = k + 1;
        }
        out.push(Code::Label(default_label));
        self.branch(out, frames - 1 - default as usize);
        self.br_tables.push(entries);
        self.next_label = next + n + 1;
        self.state.enter_unreachable();
        proof {
            let arms0 = br_arms(
                self.values(),
                self.locals(),
                self.control().frames(),
                self.labels(),
                targets@,
                next as nat,
                n as nat,
            );
            assert(arms0 == Seq::<Code>::empty());
            assert(self.br_tables() =~= tables0.push(
                Seq::new(n as nat, |i: int| DynamicLabel((next + i) as usize)),
            ));
            assert(out@ =~= start + spec_br_table(
                old(self).values().drop_last(),
                old(self).values().last(),
                old(self).locals(),
                old(self).control().frames(),
                old(self).labels(),
                targets@,
                default,
                old(self).next_label(),
                tables0.len(),
            ));
        }
    }

    /// `Block`, `Loop` and `If`: a new frame with a fresh label; a loop binds it at once, and
    /// an if jumps to its fresh else label when the popped condition is zero.
    #[verifier::rlimit(100)]
    fn open_frame(&mut self, kind: OpenKind, ty: Option<Type>, out: &mut Vec<Code>)
        requires
            old(self).wf(),
            old(self).control().frames().len() > 0,
            old(self).control().unreachable() == 0,
            old(out)@.len() < usize::MAX - 40,
            old(self).next_label() + 3 < usize::MAX,
            kind == OpenKind::If ==> old(self).control().top_entry() < old(self).control().depth(),
            old(self).control().depth() + 2 < 0x100_0000 - old(self).locals(),
        ensures
            ({
                let op = match kind {
                    OpenKind::Block => Operator::Block(ty),
                    OpenKind::Loop => Operator::Loop(ty),
                    OpenKind::If => Operator::If(ty),
                };
                &&& final(self).wf()
                &&& final(self).locals() == old(self).locals()
                &&& final(self).memory() == old(self).memory()
                &&& final(self).control().unreachable() == 0
                &&& final(out)@ == old(out)@ + spec_code(
                    op,
                    old(self).memory(),
                    old(self).values(),
                    old(self).locals(),
                    old(self).control().frames(),
                    old(self).labels(),
                    old(self).next_label(),
                    true,
                )
                &&& final(self).values() == spec_values(
                    op,
                    old(self).values(),
                    old(self).locals(),
                    old(self).control().top_entry(),
                    old(self).control().frames().last().1,
                )
                &&& final(self).control().frames() == spec_frames(
                    op,
                    old(self).control().frames(),
                    old(self).control().depth(),
                )
                &&& final(self).labels() == spec_labels(op, old(self).labels(), old(self).next_label())
                &&& final(self).next_label() == old(self).next_label() + labels_taken(op)
            }),
    {
        let ghost start = out@;
        let ghost values0 = self.values@;
        let ghost labels0 = self.labels@;
        let label = DynamicLabel(self.next_label);
        match kind {
            OpenKind::If => {
                let cond = self.values.pop().unwrap();
                emit_relaxed(out, BinOp::Cmp, Size::S32, Location::Imm32(0), cond);
                let else_label = DynamicLabel(self.next_label + 1);
                out.push(Code::Jmp(Some(Condition::Equal), else_label));
                self.labels.push((label, Some(else_label)));
                self.next_label = self.next_label + 2;
                assert(self.values@ =~= values0.drop_last());
            },
            OpenKind::Loop => {
                out.push(Code::Label(label));
                self.labels.push((label, None));
                self.next_label = self.next_label + 1;
            },
            OpenKind::Block => {
                self.labels.push((label, None));
                self.next_label = self.next_label + 1;
                assert(out@ =~= start + Seq::<Code>::empty());
            },
        }
        self.state.open(kind, ty);
        proof {
            let f = self.state.frames();
            assert forall|i: int| 0 <= i < self.labels@.len() implies (
            #[trigger] self.labels@[i].1 is Some) == (f[i].3 == Branch::InIf) by {
                if i < labels0.len() {
                    assert(self.labels@[i] == labels0[i]);
                    assert(f[i] == f.drop_last()[i]);
                }
            }
        }
    }

    /// `Else`: the true branch's result goes to the frame's result slot, a jump to the end
    /// skips the else branch, whose label is bound here; the value stack goes back to the
    /// frame's entry.
    #[verifier::rlimit(100)]
    fn else_branch(&mut self, out: &mut Vec<Code>, moved: bool)
        requires
            old(self).wf(),
            old(self).control().frames().len() > 0,
            old(self).control().unreachable() == 0,
            old(self).control().frames().last().3 == Branch::InIf,
            old(out)@.len() < usize::MAX - 40,
            moved ==> old(self).control().depth() == old(self).control().top_entry() + old(
                self,
            ).control().frames().last().1,
            old(self).control().depth() + 2 < 0x100_0000 - old(self).locals(),
        ensures
            final(self).wf(),
            final(self).locals() == old(self).locals(),
            final(self).memory() == old(self).memory(),
            final(self).control().unreachable() == 0,
            final(self).next_label() == old(self).next_label(),
            final(out)@ == old(out)@ + spec_code(
                Operator::Else,
                old(self).memory(),
                old(self).values(),
                old(self).locals(),
                old(self).control().frames(),
                old(self).labels(),
                old(self).next_label(),
                moved,
            ),
            final(self).values() == spec_values(
                Operator::Else,
                old(self).values(),
                old(self).locals(),
                old(self).control().top_entry(),
                old(self).control().frames().last().1,
            ),
            final(self).control().frames() == spec_frames(
                Operator::Else,
                old(self).control().frames(),
                old(self).control().depth(),
            ),
            final(self).labels() == spec_labels(Operator::Else, old(self).labels(), old(self).next_label()),
    {
        let ghost start = out@;
        let ghost values0 = self.values@;
        let ghost labels0 = self.labels@;
        let (entry, results) = self.state.top_frame();
        emit_move_result(out, &self.values, self.num_locals, entry, results, moved);
        let (label, else_label) = self.labels.pop().unwrap();
        proof {
            assert(labels0.last().1 is Some);
        }
        let e = else_label.unwrap();
        out.push(Code::Jmp(None, label));
        out.push(Code::Label(e));
        self.labels.push((label, None));
        self.state.else_();
        truncate_values(&mut self.values, entry);
        proof {
            assert(out@ =~= start + spec_code(
                Operator::Else,
                self.memory,
                values0,
                self.num_locals as nat,
                old(self).control().frames(),
                labels0,
                self.next_label as nat,
                moved,
            ));
            assert(self.labels@ =~= labels0.drop_last().push((label, None)));
            let f = self.state.frames();
            assert forall|i: int| 0 <= i < self.labels@.len() implies (
            #[trigger] self.labels@[i].1 is Some) == (f[i].3 == Branch::InIf) by {
                if i < labels0.len() - 1 {
                    assert(self.labels@[i] == labels0[i]);
                    assert(f[i] == f.drop_last()[i]);
                    assert(f.drop_last()[i] == old(self).control().frames().drop_last()[i]);
                }
            }
        }
    }

    /// `End`: the block's result goes to its result slot; an inner block binds its label
    /// (a loop's was bound at its start) and a pending else label, and the outer frame binds
    /// its label, the target of `Return`, before the epilogue.
    #[verifier::rlimit(100)]
    fn end_block(&mut self, out: &mut Vec<Code>, moved: bool)
        requires
            old(self).wf(),
            old(self).control().frames().len() > 0,
            old(self).control().unreachable() == 0,
            old(out)@.len() < usize::MAX - 40,
            moved ==> old(self).control().depth() == old(self).control().top_entry() + old(
                self,
            ).control().frames().last().1,
            old(self).control().depth() + 2 < 0x100_0000 - old(self).locals(),
        ensures
            final(self).wf(),
            final(self).locals() == old(self).locals(),
            final(self).memory() == old(self).memory(),
            final(self).control().unreachable() == 0,
            final(self).next_label() == old(self).next_label(),
            final(self).control().frames() == old(self).control().frames().drop_last(),
            final(self).labels() == old(self).labels().drop_last(),
            final(out)@ == old(out)@ + spec_code(
                Operator::End,
                old(self).memory(),
                old(self).values(),
                old(self).locals(),
                old(self).control().frames(),
                old(self).labels(),
                old(self).next_label(),
                moved,
            ),
            final(self).values() == spec_values(
                Operator::End,
                old(self).values(),
                old(self).locals(),
                old(self).control().top_entry(),
                old(self).control().frames().last().1,
            ),
    {
        let ghost start = out@;
        let ghost values0 = self.values@;
        let ghost labels0 = self.labels@;
        let (entry, results) = self.state.top_frame();
        let n = self.state.frame_count();
        let (_, _, loop_like) = self.state.frame_at(n - 1);
        emit_move_result(out, &self.values, self.num_locals, entry, results, moved);
        let ghost after_move = out@;
        let (label, else_label) = self.labels.pop().unwrap();
        let outer = self.state.end();
        if outer {
            out.push(Code::Label(label));
            out.push(Code::Return);
        } else {
            if !loop_like {
                out.push(Code::Label(label));
            }
            if let Some(e) = else_label {
                out.push(Code::Label(e));
            }
        }
        truncate_values(&mut self.values, entry);
        if results == 1 {
            self.values.push(slot_exec(self.num_locals, entry));
        }
        proof {
            assert(self.values@ =~= spec_values(
                Operator::End,
                values0,
                self.num_locals as nat,
                entry as nat,
                results as nat,
            ));
            assert(out@ =~= start + spec_code(
                Operator::End,
                self.memory,
                values0,
                self.num_locals as nat,
                old(self).control().frames(),
                labels0,
                self.next_label as nat,
                moved,
            ));
            let f = self.state.frames();
            assert forall|i: int| 0 <= i < self.labels@.len() implies (
            #[trigger] self.labels@[i].1 is Some) == (f[i].3 == Branch::InIf) by {
                assert(self.labels@[i] == labels0[i]);
                assert(f[i] == old(self).control().frames()[i]);
            }
        }
    }

    /// A branch to frame `t`, for `Br` and `Return`.
    fn branch(&self, out: &mut Vec<Code>, t: usize)
        requires
            self.wf(),
            self.control().unreachable() == 0,
            t < self.control().frames().len(),
            old(out)@.len() < usize::MAX - 30,
            ({
                let f = self.control().frames()[t as int];
                (!f.2 && f.1 == 1) ==> self.control().depth() > 0
            }),
            self.control().depth() + 2 < 0x100_0000 - self.locals(),
        ensures
            final(out)@ == old(out)@ + branch_to(
                self.values(),
                self.locals(),
                self.control().frames(),
                self.labels(),
                t as int,
            ),
    {
        let ghost start = out@;
        let (entry, results, loop_like) = self.state.frame_at(t);
        let carried = if loop_like {
            0
        } else {
            results
        };
        emit_move_result(out, &self.values, self.num_locals, entry, carried, true);
        out.push(Code::Jmp(None, self.labels[t].0));
    }

    /// `BrIf`: the condition is popped and, when it is not zero, the branch is taken; a
    /// fresh label after the branch is where the zero case goes on.
    fn br_if(&mut self, out: &mut Vec<Code>, rel: u32)
        requires
            old(self).wf(),
            old(self).control().frames().len() > 0,
            old(self).control().unreachable() == 0,
            old(out)@.len() < usize::MAX - 40,
            old(self).next_label() + 3 < usize::MAX,
            well_typed(
                Operator::BrIf(rel),
                old(self).control().depth(),
                old(self).control().frames(),
                old(self).locals(),
                old(self).memory(),
            ),
            old(self).control().depth() + 2 < 0x100_0000 - old(self).locals(),
        ensures
            final(self).wf(),
            final(self).locals() == old(self).locals(),
            final(self).memory() == old(self).memory(),
            final(self).control().unreachable() == 0,
            final(self).next_label() == old(self).next_label() + 1,
            final(self).labels() == old(self).labels(),
            final(self).control().frames() == old(self).control().frames(),
            final(out)@ == old(out)@ + spec_code(
                Operator::BrIf(rel),
                old(self).memory(),
                old(self).values(),
                old(self).locals(),
                old(self).control().frames(),
                old(self).labels(),
                old(self).next_label(),
                true,
            ),
            final(self).values() == old(self).values().drop_last(),
    {
        let ghost start = out@;
        let cond = self.values.pop().unwrap();
        self.state.operate(1, 0);
        emit_relaxed(out, BinOp::Cmp, Size::S32, Location::Imm32(0), cond);
        let after = DynamicLabel(self.next_label);
        out.push(Code::Jmp(Some(Condition::Equal), after));
        let n = self.state.frame_count();
        self.branch(out, n - 1 - rel as usize);
        out.push(Code::Label(after));
        self.next_label = self.next_label + 1;
        proof {
            assert(out@ =~= start + spec_code(
                Operator::BrIf(rel),
                self.memory,
                old(self).values(),
                self.num_locals as nat,
                old(self).control().frames(),
                self.labels@,
                old(self).next_label(),
                true,
            ));
        }
    }

    fn skip_unreachable(&mut self, class: OpClass) -> (r: bool)
        requires
            old(self).wf(),
            old(self).control().unreachable() > 0,
            old(self).control().unreachable() < usize::MAX,
            old(self).control().frames().len() > 0,
        ensures
            final(self).wf(),
            final(self).locals() == old(self).locals(),
            final(self).memory() == old(self).memory(),
            final(self).values() == old(self).values(),
            final(self).labels() == old(self).labels(),
            final(self).next_label() == old(self).next_label(),
            final(self).control().depth() == old(self).control().depth(),
            final(self).control().frames() == old(self).control().frames(),
            final(self).control().unreachable() == spec_unreachable_step(
                old(self).control().unreachable(),
                class,
                old(self).control().frames().last().3 == Branch::InIf,
            ),
            r == (final(self).control().unreachable() == 0),
    {
        self.state.skip(class)
    }
}

fn emit_cmp(cond: Condition, a: Location, b: Location, ret: Location, out: &mut Vec<Code>)
    ensures
        final(out)@ == old(out)@ + spec_cmp(cond, a, b, ret),
{
    let ghost start = out@;
    emit_relaxed(out, BinOp::Cmp, Size::S32, b, a);
    out.push(Code::SetCond(cond, GPR::RAX));
    out.push(
        Code::Op(
            Instr {
                op: BinOp::And,
                size: Size::S32,
                src: Location::Imm32(0xff),
                dst: Location::GPR(GPR::RAX),
            },
        ),
    );
    push_mov(out, Size::S32, Location::GPR(GPR::RAX), ret);
    assert(out@ =~= start + spec_cmp(cond, a, b, ret));
}

fn emit_div(
    op: Operator,
    a: Location,
    b: Location,
    ret: Location,
    out: &mut Vec<Code>,
    traps: &mut TrapSink,
)
    requires
        is_div(op),
        old(traps).wf(),
        old(traps).next_free() <= old(out)@.len(),
        old(out)@.len() < usize::MAX - 20,
    ensures
        final(out)@ == old(out)@ + spec_div(op, a, b, ret),
        final(traps).wf(),
        final(traps).next_free() <= final(out)@.len(),
        op == Operator::I32DivS ==> final(traps).view_map() == old(traps).view_map().insert(
            (old(out)@.len() + 2) as int,
            TrapKind::IntegerDivideByZero,
        ).insert((old(out)@.len() + 5) as int, TrapKind::IntegerOverflow),
        op != Operator::I32DivS ==> final(traps).view_map() == old(traps).view_map().insert(
            (old(out)@.len() + 2) as int,
            TrapKind::IntegerDivideByZero,
        ),
{
    let ghost start = out@;
    let signed = op == Operator::I32DivS;
    push_mov(out, Size::S32, b, Location::GPR(GPR::RCX));
    out.push(
        Code::Op(
            Instr {
                op: BinOp::Cmp,
                size: Size::S32,
                src: Location::Imm32(0),
                dst: Location::GPR(GPR::RCX),
            },
        ),
    );
    traps.record(out.len(), TrapKind::IntegerDivideByZero);
    out.push(Code::TrapIf(Condition::Equal));
    push_mov(out, Size::S32, a, Location::GPR(GPR::RAX));
    if signed {
        out.push(Code::Cdq);
        traps.record(out.len(), TrapKind::IntegerOverflow);
        out.push(
            Code::Div(DivInstr { op: DivOp::Idiv, size: Size::S32, divisor: Location::GPR(GPR::RCX) }),
        );
    } else {
        out.push(
            Code::Op(
                Instr {
                    op: BinOp::Xor,
                    size: Size::S32,
                    src: Location::GPR(GPR::RDX),
                    dst: Location::GPR(GPR::RDX),
                },
            ),
        );
        out.push(
            Code::Div(DivInstr { op: DivOp::Div, size: Size::S32, divisor: Location::GPR(GPR::RCX) }),
        );
    }
    let result = if op == Operator::I32RemU {
        GPR::RDX
    } else {
        GPR::RAX
    };
    push_mov(out, Size::S32, Location::GPR(result), ret);
    assert(out@ =~= start + spec_div(op, a, b, ret));
}

fn truncate_values(v: &mut Vec<Location>, n: usize)
    requires
        n <= old(v)@.len(),
    ensures
        final(v)@ == old(v)@.subrange(0, n as int),
{
    while v.len() > n
        invariant
            n <= v@.len() <= old(v)@.len(),
            v@ == old(v)@.subrange(0, v@.len() as int),
        decreases v@.len(),
    {
        let ghost before = v@;
        v.pop();
        assert(v@ =~= old(v)@.subrange(0, v@.len() as int));
    }
}

fn local_exec(i: u32) -> (r: Location)
    requires
        (i as nat) < 0x100_0000,
    ensures
        r == local_loc(i as nat),
{
    Location::Memory(GPR::RBP, (-8 * ((i as i64) + 1)) as i32)
}

} // verus!
