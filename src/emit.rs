use vstd::prelude::*;

verus! {

/// A general-purpose register of x86-64.
#[derive(Debug, Clone, Copy, PartialEq, Eq, Structural)]
pub enum GPR {
    RAX,
    RCX,
    RDX,
    RBX,
    RSP,
    RBP,
    RSI,
    RDI,
    R8,
    R9,
    R10,
    R11,
    R12,
    R13,
    R14,
    R15,
}

/// An XMM register.
#[derive(Debug, Clone, Copy, PartialEq, Eq, Structural)]
pub enum XMM {
    XMM0,
    XMM1,
    XMM2,
    XMM3,
    XMM4,
    XMM5,
    XMM6,
    XMM7,
}

/// Where a value lives: an immediate, a register, or memory at `[base + displacement]`.
#[derive(Debug, Clone, Copy, PartialEq, Eq, Structural)]
pub enum Location {
    Imm32(u32),
    Imm64(u64),
    GPR(GPR),
    XMM(XMM),
    Memory(GPR, i32),
}

/// An operand size.
#[derive(Debug, Clone, Copy, PartialEq, Eq, Structural)]
pub enum Size {
    S8,
    S16,
    S32,
    S64,
}

/// A two-operand integer instruction: `dst = dst op src` (for `Mov`, `dst = src`; for `Cmp`,
/// only the flags change).
#[derive(Debug, Clone, Copy, PartialEq, Eq, Structural)]
pub enum BinOp {
    Mov,
    Add,
    Sub,
    Imul,
    And,
    Or,
    Xor,
    Cmp,
    Test,
}

/// One emitted instruction.
#[derive(Debug, Clone, Copy, PartialEq, Eq, Structural)]
pub struct Instr {
    pub op: BinOp,
    pub size: Size,
    pub src: Location,
    pub dst: Location,
}

/// How a binary instruction reaches a legal operand form.
#[derive(Debug, Clone, Copy, PartialEq, Eq, Structural)]
pub enum RelaxMode {
    /// The operands are used as they are.
    Direct,
    /// The source goes through a temporary register first.
    SrcToGPR,
    /// The destination goes through a temporary register first.
    DstToGPR,
    /// Both go through temporaries; the result is moved back to a register or memory
    /// destination.
    BothToGPR,
    /// A product into memory: the source goes to a temporary, is multiplied there by the
    /// destination (multiplication commutes), and the product is stored back.
    MulIntoGPR,
}

pub open spec fn is_mem(l: Location) -> bool {
    l is Memory
}

pub open spec fn is_imm(l: Location) -> bool {
    l is Imm32 || l is Imm64
}

/// The operand forms that x86-64 encodes for a two-operand integer instruction: the
/// destination is no immediate, at most one operand is in memory, a 64-bit immediate is
/// only ever moved into a register, and a product is written to a register.
pub open spec fn legal_form(i: Instr) -> bool {
    &&& !is_imm(i.dst)
    &&& !(is_mem(i.src) && is_mem(i.dst))
    &&& (i.src is Imm64 ==> i.op == BinOp::Mov && i.dst is GPR)
    &&& (i.op == BinOp::Imul ==> !is_mem(i.dst))
}

/// The mode that each pair of operand kinds takes.
pub open spec fn spec_relax_mode(op: BinOp, src: Location, dst: Location) -> RelaxMode {
    if op == BinOp::Imul && is_mem(dst) {
        RelaxMode::MulIntoGPR
    } else if is_mem(src) && is_mem(dst) {
        RelaxMode::SrcToGPR
    } else if src is Imm64 && is_imm(dst) {
        RelaxMode::BothToGPR
    } else if is_imm(dst) {
        RelaxMode::DstToGPR
    } else if src is Imm64 && is_mem(dst) {
        RelaxMode::SrcToGPR
    } else if src is Imm64 && dst is GPR && op != BinOp::Mov {
        RelaxMode::SrcToGPR
    } else if dst is XMM {
        RelaxMode::SrcToGPR
    } else {
        RelaxMode::Direct
    }
}

/// The instructions that a relaxed binary emit produces, with `t1` and `t2` as temporaries.
pub open spec fn spec_relaxed_binop(
    op: BinOp,
    sz: Size,
    src: Location,
    dst: Location,
    t1: GPR,
    t2: GPR,
) -> Seq<Instr> {
    let r1 = Location::GPR(t1);
    let r2 = Location::GPR(t2);
    match spec_relax_mode(op, src, dst) {
        RelaxMode::SrcToGPR => seq![
            Instr { op: BinOp::Mov, size: sz, src: src, dst: r1 },
            Instr { op: op, size: sz, src: r1, dst: dst },
        ],
        RelaxMode::DstToGPR => seq![
            Instr { op: BinOp::Mov, size: sz, src: dst, dst: r1 },
            Instr { op: op, size: sz, src: src, dst: r1 },
        ],
        RelaxMode::BothToGPR => {
            let core = seq![
                Instr { op: BinOp::Mov, size: sz, src: src, dst: r1 },
                Instr { op: BinOp::Mov, size: sz, src: dst, dst: r2 },
                Instr { op: op, size: sz, src: r1, dst: r2 },
            ];
            if is_mem(dst) || dst is GPR {
                core.push(Instr { op: BinOp::Mov, size: sz, src: r2, dst: dst })
            } else {
                core
            }
        },
        RelaxMode::MulIntoGPR => seq![
            Instr { op: BinOp::Mov, size: sz, src: src, dst: r1 },
            Instr { op: op, size: sz, src: dst, dst: r1 },
            Instr { op: BinOp::Mov, size: sz, src: r1, dst: dst },
        ],
        RelaxMode::Direct => seq![Instr { op: op, size: sz, src: src, dst: dst }],
    }
}

/// Picks the relax mode for a pair of operands.
pub fn relax_mode(op: BinOp, src: Location, dst: Location) -> (r: RelaxMode)
    ensures
        r == spec_relax_mode(op, src, dst),
{
    if op == BinOp::Imul {
        if let Location::Memory(_, _) = dst {
            return RelaxMode::MulIntoGPR;
        }
    }
    match (src, dst) {
        (Location::Memory(_, _), Location::Memory(_, _)) => RelaxMode::SrcToGPR,
        (Location::Imm64(_), Location::Imm64(_)) | (Location::Imm64(_), Location::Imm32(_)) => {
            RelaxMode::BothToGPR
        },
        (_, Location::Imm32(_)) | (_, Location::Imm64(_)) => RelaxMode::DstToGPR,
        (Location::Imm64(_), Location::Memory(_, _)) => RelaxMode::SrcToGPR,
        (Location::Imm64(_), Location::GPR(_)) if op != BinOp::Mov => RelaxMode::SrcToGPR,
        (_, Location::XMM(_)) => RelaxMode::SrcToGPR,
        _ => RelaxMode::Direct,
    }
}

/// Emits `dst = dst op src` for any pair of operand kinds, routing operands through the
/// temporary registers `t1` and `t2` where the pair has no legal encoding.
pub fn emit_relaxed_binop(
    out: &mut Vec<Instr>,
    op: BinOp,
    sz: Size,
    src: Location,
    dst: Location,
    t1: GPR,
    t2: GPR,
)
    ensures
        final(out)@ == old(out)@ + spec_relaxed_binop(op, sz, src, dst, t1, t2),
{
    let r1 = Location::GPR(t1);
    let r2 = Location::GPR(t2);
    let ghost start = out@;
    match relax_mode(op, src, dst) {
        RelaxMode::SrcToGPR => {
            out.push(Instr { op: BinOp::Mov, size: sz, src: src, dst: r1 });
            out.push(Instr { op: op, size: sz, src: r1, dst: dst });
        },
        RelaxMode::DstToGPR => {
            out.push(Instr { op: BinOp::Mov, size: sz, src: dst, dst: r1 });
            out.push(Instr { op: op, size: sz, src: src, dst: r1 });
        },
        RelaxMode::BothToGPR => {
            out.push(Instr { op: BinOp::Mov, size: sz, src: src, dst: r1 });
            out.push(Instr { op: BinOp::Mov, size: sz, src: dst, dst: r2 });
            out.push(Instr { op: op, size: sz, src: r1, dst: r2 });
            match dst {
                Location::Memory(_, _) | Location::GPR(_) => {
                    out.push(Instr { op: BinOp::Mov, size: sz, src: r2, dst: dst });
                },
                _ => {},
            }
        },
        RelaxMode::MulIntoGPR => {
            out.push(Instr { op: BinOp::Mov, size: sz, src: src, dst: r1 });
            out.push(Instr { op: op, size: sz, src: dst, dst: r1 });
            out.push(Instr { op: BinOp::Mov, size: sz, src: r1, dst: dst });
        },
        RelaxMode::Direct => {
            out.push(Instr { op: op, size: sz, src: src, dst: dst });
        },
    }
    assert(out@ =~= start + spec_relaxed_binop(op, sz, src, dst, t1, t2));
}

/// The System V location of parameter `i` of a call: the first six in RDI, RSI, RDX, RCX, R8
/// and R9, the others on the stack above the return address and saved frame pointer.
pub open spec fn spec_param_location(i: nat) -> Location {
    if i == 0 {
        Location::GPR(GPR::RDI)
    } else if i == 1 {
        Location::GPR(GPR::RSI)
    } else if i == 2 {
        Location::GPR(GPR::RDX)
    } else if i == 3 {
        Location::GPR(GPR::RCX)
    } else if i == 4 {
        Location::GPR(GPR::R8)
    } else if i == 5 {
        Location::GPR(GPR::R9)
    } else {
        Location::Memory(GPR::RBP, (16 + (i - 6) * 8) as i32)
    }
}

pub fn get_param_location(i: usize) -> (r: Location)
    requires
        i <= 0x1000_0000,
    ensures
        r == spec_param_location(i as nat),
{
    match i {
        0 => Location::GPR(GPR::RDI),
        1 => Location::GPR(GPR::RSI),
        2 => Location::GPR(GPR::RDX),
        3 => Location::GPR(GPR::RCX),
        4 => Location::GPR(GPR::R8),
        5 => Location::GPR(GPR::R9),
        _ => Location::Memory(GPR::RBP, (16 + (i - 6) * 8) as i32),
    }
}

/// The register that holds the context pointer in generated code.
pub fn get_vmctx_reg() -> (r: GPR)
    ensures
        r == GPR::R15,
{
    GPR::R15
}

/// How a System V call is staged and unwound. Before the call: push `saved_gprs` in order,
/// store `saved_xmms` in a block of `8 * saved_xmms.len()` bytes (register `i` at offset
/// `8 * i`), pad by eight bytes if `padding`, push `stack_args` in order (the last argument
/// first, so that the first stack argument lies at the stack pointer when the call is made),
/// make `reg_moves` in order, and make `ctx_move`, which puts the context in RDI, the first
/// argument register. After it: pop `stack_bytes` bytes, reload the XMM
/// registers from their slots and free the block, then pop `restored_gprs` in order.
#[derive(Debug)]
pub struct CallPlan {
    pub saved_gprs: Vec<GPR>,
    pub saved_xmms: Vec<XMM>,
    pub reg_moves: Vec<(Location, GPR)>,
    /// Whether `reg_moves` overwrite no register before it is read; when not, the register
    /// arguments form a cycle.
    pub moves_ordered: bool,
    pub stack_args: Vec<Location>,
    pub ctx_move: Instr,
    pub padding: bool,
    pub stack_bytes: usize,
    pub restored_gprs: Vec<GPR>,
}

/// The arguments passed on the stack, in the order they are pushed: from the last argument
/// down to the sixth, for the first five go in registers.
pub open spec fn stack_pushes(params: Seq<Location>) -> Seq<Location> {
    if params.len() > 5 {
        Seq::new((params.len() - 5) as nat, |i: int| params[params.len() - 1 - i])
    } else {
        Seq::empty()
    }
}

/// The moves of the register arguments: argument `i` goes to the register of parameter
/// `i + 1`, parameter 0 being the context.
pub open spec fn register_moves(params: Seq<Location>) -> Seq<(Location, GPR)> {
    let n = if params.len() < 5 {
        params.len()
    } else {
        5
    };
    Seq::new(n, |i: int| (params[i], spec_param_location((i + 1) as nat)->GPR_0))
}

fn copy_gprs(v: &Vec<GPR>) -> (r: Vec<GPR>)
    ensures
        r@ == v@,
{
    let mut out: Vec<GPR> = Vec::new();
    let mut k: usize = 0;
    while k < v.len()
        invariant
            k <= v@.len(),
            out@ == v@.subrange(0, k as int),
        decreases v@.len() - k,
    {
        out.push(v[k]);
        k = k + 1;
        assert(out@ =~= v@.subrange(0, k as int));
    }
    assert(out@ =~= v@);
    out
}

fn copy_xmms(v: &Vec<XMM>) -> (r: Vec<XMM>)
    ensures
        r@ == v@,
{
    let mut out: Vec<XMM> = Vec::new();
    let mut k: usize = 0;
    while k < v.len()
        invariant
            k <= v@.len(),
            out@ == v@.subrange(0, k as int),
        decreases v@.len() - k,
    {
        out.push(v[k]);
        k = k + 1;
        assert(out@ =~= v@.subrange(0, k as int));
    }
    assert(out@ =~= v@);
    out
}

fn reversed_locations(v: &Vec<Location>) -> (r: Vec<Location>)
    ensures
        r@.len() == v@.len(),
        forall|i: int| 0 <= i < v@.len() ==> #[trigger] r@[i] == v@[v@.len() - 1 - i],
{
    let mut out: Vec<Location> = Vec::new();
    let mut k: usize = v.len();
    while k > 0
        invariant
            k <= v@.len(),
            out@.len() == v@.len() - k,
            forall|i: int| 0 <= i < out@.len() ==> #[trigger] out@[i] == v@[v@.len() - 1 - i],
        decreases k,
    {
        k = k - 1;
        out.push(v[k]);
    }
    out
}

fn reversed_gprs(v: &Vec<GPR>) -> (r: Vec<GPR>)
    ensures
        r@.len() == v@.len(),
        forall|i: int| 0 <= i < v@.len() ==> #[trigger] r@[i] == v@[v@.len() - 1 - i],
{
    let mut out: Vec<GPR> = Vec::new();
    let mut k: usize = v.len();
    while k > 0
        invariant
            k <= v@.len(),
            out@.len() == v@.len() - k,
            forall|i: int| 0 <= i < out@.len() ==> #[trigger] out@[i] == v@[v@.len() - 1 - i],
        decreases k,
    {
        k = k - 1;
        out.push(v[k]);
    }
    out
}

/// Plans the call of a function with `params` from a frame whose stack is `frame_offset`
/// bytes deep below the frame pointer, with the registers `used_gprs` and `used_xmms` live.
/// The padding counts everything pushed, so that with a 16-byte aligned frame pointer the
/// stack is 16-byte aligned at the call.
#[verifier::rlimit(50)]
pub fn plan_call_sysv(
    params: &Vec<Location>,
    frame_offset: usize,
    used_gprs: &Vec<GPR>,
    used_xmms: &Vec<XMM>,
) -> (r: CallPlan)
    requires
        params@.len() <= 0x1000_0000,
        frame_offset % 8 == 0,
        frame_offset + 8 * used_gprs@.len() + 8 * used_xmms@.len() + 8 * params@.len() + 8
            <= usize::MAX,
    ensures
        r.saved_gprs@ == used_gprs@,
        r.saved_xmms@ == used_xmms@,
        r.restored_gprs@.len() == used_gprs@.len(),
        forall|i: int|
            0 <= i < used_gprs@.len() ==> #[trigger] r.restored_gprs@[i] == used_gprs@[used_gprs@.len()
                - 1 - i],
        r.reg_moves@.to_multiset() == register_moves(params@).to_multiset(),
        r.moves_ordered ==> no_clobber(r.reg_moves@),
        !r.moves_ordered ==> exists|k: int|
            0 <= k < r.reg_moves@.len() && no_clobber(#[trigger] r.reg_moves@.subrange(0, k))
                && blocked(r.reg_moves@.subrange(k, r.reg_moves@.len() as int)),
        r.stack_args@ == stack_pushes(params@),
        r.ctx_move == (Instr {
            op: BinOp::Mov,
            size: Size::S64,
            src: Location::GPR(GPR::R15),
            dst: spec_param_location(0),
        }),
        r.padding == ((frame_offset + 8 * used_gprs@.len() + 8 * used_xmms@.len() + 8
            * r.stack_args@.len()) % 16 != 0),
        r.stack_bytes == 8 * r.stack_args@.len() + if r.padding {
            8int
        } else {
            0
        },
        (frame_offset + 8 * used_gprs@.len() + 8 * used_xmms@.len() + r.stack_bytes) % 16 == 0,
{
    let mut reg_moves: Vec<(Location, GPR)> = Vec::new();
    let mut stack_args: Vec<Location> = Vec::new();
    let mut i: usize = 0;
    while i < params.len()
        invariant
            i <= params@.len() <= 0x1000_0000,
            reg_moves@ == register_moves(params@.subrange(0, i as int)),
            stack_args@ == (if i > 5 {
                params@.subrange(5, i as int)
            } else {
                Seq::<Location>::empty()
            }),
        decreases params@.len() - i,
    {
        let loc = get_param_location(1 + i);
        let ghost before = params@.subrange(0, i as int);
        match loc {
            Location::GPR(x) => {
                reg_moves.push((params[i], x));
            },
            _ => {
                stack_args.push(params[i]);
            },
        }
        i = i + 1;
        proof {
            let now = params@.subrange(0, i as int);
            assert(reg_moves@ =~= register_moves(now));
            if i > 5 {
                assert(stack_args@ =~= params@.subrange(5, i as int));
            }
        }
    }
    proof {
        assert(params@.subrange(0, params@.len() as int) =~= params@);
    }
    let pushed: usize = frame_offset + 8 * used_gprs.len() + 8 * used_xmms.len() + 8
        * stack_args.len();
    let padding = pushed % 16 != 0;
    let stack_bytes: usize = 8 * stack_args.len() + if padding {
        8
    } else {
        0
    };
    let saved_gprs = copy_gprs(used_gprs);
    let saved_xmms = copy_xmms(used_xmms);
    let restored_gprs = reversed_gprs(used_gprs);
    let stack_args = reversed_locations(&stack_args);
    let ctx_move = Instr {
        op: BinOp::Mov,
        size: Size::S64,
        src: Location::GPR(get_vmctx_reg()),
        dst: get_param_location(0),
    };
    let moves_ordered = sort_call_movs(&mut reg_moves);
    let ghost sorted = reg_moves@;
    proof {
        assert(stack_args@ =~= stack_pushes(params@));
    }
    let r = CallPlan {
        saved_gprs,
        saved_xmms,
        reg_moves,
        moves_ordered,
        stack_args,
        ctx_move,
        padding,
        stack_bytes,
        restored_gprs,
    };
    proof {
        assert(r.reg_moves@ == sorted);
        if !moves_ordered {
            let k = choose|k: int|
                0 <= k < sorted.len() && no_clobber(#[trigger] sorted.subrange(0, k)) && blocked(
                    sorted.subrange(k, sorted.len() as int),
                );
            assert(0 <= k < r.reg_moves@.len() && no_clobber(r.reg_moves@.subrange(0, k)) && blocked(
                r.reg_moves@.subrange(k, r.reg_moves@.len() as int),
            ));
        }
    }
    r
}

/// A scalar AVX operation.
#[derive(Debug, Clone, Copy, PartialEq, Eq, Structural)]
pub enum AvxOp {
    Vaddss,
    Vaddsd,
    Vsubss,
    Vsubsd,
    Vmulss,
    Vmulsd,
    Vdivss,
    Vdivsd,
    Vmaxss,
    Vmaxsd,
    Vminss,
    Vminsd,
    Vcmpeqss,
    Vcmpeqsd,
    Vcmpltss,
    Vcmpltsd,
    Vcmpless,
    Vcmplesd,
    Vsqrtss,
    Vsqrtsd,
}

/// The second source of an AVX instruction: a register or memory.
#[derive(Debug, Clone, Copy, PartialEq, Eq, Structural)]
pub enum XMMOrMemory {
    XMM(XMM),
    Memory(GPR, i32),
}

/// A three-operand AVX instruction: `dst = src1 op src2`.
#[derive(Debug, Clone, Copy, PartialEq, Eq, Structural)]
pub struct AvxInstr {
    pub op: AvxOp,
    pub src1: XMM,
    pub src2: XMMOrMemory,
    pub dst: XMM,
}

/// The moves that bring `src` into XMM register `x`, through `g` for an immediate.
pub open spec fn spec_to_xmm(src: Location, x: XMM, g: GPR) -> Seq<Instr> {
    match src {
        Location::XMM(_) => seq![],
        Location::GPR(_) | Location::Memory(_, _) => seq![
            Instr { op: BinOp::Mov, size: Size::S64, src: src, dst: Location::XMM(x) },
        ],
        Location::Imm32(_) => seq![
            Instr { op: BinOp::Mov, size: Size::S32, src: src, dst: Location::GPR(g) },
            Instr { op: BinOp::Mov, size: Size::S32, src: Location::GPR(g), dst: Location::XMM(x) },
        ],
        Location::Imm64(_) => seq![
            Instr { op: BinOp::Mov, size: Size::S64, src: src, dst: Location::GPR(g) },
            Instr { op: BinOp::Mov, size: Size::S64, src: Location::GPR(g), dst: Location::XMM(x) },
        ],
    }
}

/// What a relaxed AVX emit produces: moves that stage the sources, the AVX instruction, and
/// the move that stores a result whose destination is no XMM register. `t1`, `t2`, `t3` are
/// temporary XMM registers and `g` a temporary general-purpose one.
pub open spec fn spec_relaxed_avx(
    op: AvxOp,
    src1: Location,
    src2: Location,
    dst: Location,
    t1: XMM,
    t2: XMM,
    t3: XMM,
    g: GPR,
) -> (Seq<Instr>, AvxInstr, Seq<Instr>) {
    let s1 = match src1 {
        Location::XMM(x) => x,
        _ => t1,
    };
    let s2 = match src2 {
        Location::XMM(x) => XMMOrMemory::XMM(x),
        Location::Memory(b, d) => XMMOrMemory::Memory(b, d),
        _ => XMMOrMemory::XMM(t2),
    };
    let before = spec_to_xmm(src1, t1, g) + match src2 {
        Location::Memory(_, _) => seq![],
        _ => spec_to_xmm(src2, t2, g),
    };
    match dst {
        Location::XMM(x) => (before, AvxInstr { op, src1: s1, src2: s2, dst: x }, seq![]),
        _ => (
            before,
            AvxInstr { op, src1: s1, src2: s2, dst: t3 },
            seq![Instr { op: BinOp::Mov, size: Size::S64, src: Location::XMM(t3), dst: dst }],
        ),
    }
}

fn to_xmm(out: &mut Vec<Instr>, src: Location, x: XMM, g: GPR) -> (r: XMM)
    ensures
        final(out)@ == old(out)@ + spec_to_xmm(src, x, g),
        r == (match src {
            Location::XMM(y) => y,
            _ => x,
        }),
{
    let ghost start = out@;
    let r = match src {
        Location::XMM(y) => y,
        Location::GPR(_) | Location::Memory(_, _) => {
            out.push(Instr { op: BinOp::Mov, size: Size::S64, src: src, dst: Location::XMM(x) });
            x
        },
        Location::Imm32(_) => {
            out.push(Instr { op: BinOp::Mov, size: Size::S32, src: src, dst: Location::GPR(g) });
            out.push(
                Instr { op: BinOp::Mov, size: Size::S32, src: Location::GPR(g), dst: Location::XMM(x) },
            );
            x
        },
        Location::Imm64(_) => {
            out.push(Instr { op: BinOp::Mov, size: Size::S64, src: src, dst: Location::GPR(g) });
            out.push(
                Instr { op: BinOp::Mov, size: Size::S64, src: Location::GPR(g), dst: Location::XMM(x) },
            );
            x
        },
    };
    assert(out@ =~= start + spec_to_xmm(src, x, g));
    r
}

/// Emits `dst = src1 op src2` for an AVX operation and any operand kinds: sources that are
/// not where the instruction can read them are moved into the temporary XMM registers
/// `t1` and `t2` (an immediate through `g`), and a destination that is no XMM register
/// receives the result from `t3`. Returns the AVX instruction; `before` and `after` get the
/// moves around it.
pub fn emit_relaxed_avx(
    before: &mut Vec<Instr>,
    after: &mut Vec<Instr>,
    op: AvxOp,
    src1: Location,
    src2: Location,
    dst: Location,
    t1: XMM,
    t2: XMM,
    t3: XMM,
    g: GPR,
) -> (r: AvxInstr)
    requires
        !is_imm(dst),
    ensures
        ({
            let (b, i, a) = spec_relaxed_avx(op, src1, src2, dst, t1, t2, t3, g);
            &&& final(before)@ == old(before)@ + b
            &&& r == i
            &&& final(after)@ == old(after)@ + a
        }),
{
    let ghost b0 = before@;
    let s1 = to_xmm(before, src1, t1, g);
    let s2 = match src2 {
        Location::XMM(x) => XMMOrMemory::XMM(x),
        Location::Memory(base, disp) => XMMOrMemory::Memory(base, disp),
        _ => XMMOrMemory::XMM(to_xmm(before, src2, t2, g)),
    };
    proof {
        let (b, _, _) = spec_relaxed_avx(op, src1, src2, dst, t1, t2, t3, g);
        assert(before@ =~= b0 + b);
    }
    let ghost a0 = after@;
    match dst {
        Location::XMM(x) => AvxInstr { op, src1: s1, src2: s2, dst: x },
        _ => {
            after.push(Instr { op: BinOp::Mov, size: Size::S64, src: Location::XMM(t3), dst: dst });
            assert(after@ =~= a0 + seq![
                Instr { op: BinOp::Mov, size: Size::S64, src: Location::XMM(t3), dst: dst },
            ]);
            AvxInstr { op, src1: s1, src2: s2, dst: t3 }
        },
    }
}

/// Every operand kinds give a legal AVX sequence: each staging or storing move has a legal
/// form, and the AVX instruction itself reads and writes registers (its second source may
/// be memory). With no immediate source at most three auxiliary moves come with it, and at
/// most two when the first source is an XMM register or the second one is an XMM register
/// or memory. An immediate source takes two moves of its own, through a general-purpose
/// register, for the instruction has no immediate form.
pub proof fn lemma_relaxed_avx_coverage(
    op: AvxOp,
    src1: Location,
    src2: Location,
    dst: Location,
    t1: XMM,
    t2: XMM,
    t3: XMM,
    g: GPR,
)
    requires
        !is_imm(dst),
    ensures
        ({
            let (b, i, a) = spec_relaxed_avx(op, src1, src2, dst, t1, t2, t3, g);
            &&& forall|k: int| 0 <= k < b.len() ==> legal_form(#[trigger] b[k]) && b[k].op
                == BinOp::Mov
            &&& forall|k: int| 0 <= k < a.len() ==> legal_form(#[trigger] a[k]) && a[k].op
                == BinOp::Mov
            &&& i.op == op
            &&& (!is_imm(src1) && !is_imm(src2) ==> b.len() + a.len() <= 3)
            &&& (!is_imm(src1) && !is_imm(src2) && (src1 is XMM || src2 is XMM || src2 is Memory)
                ==> b.len() + a.len() <= 2)
        }),
{
    let (b, i, a) = spec_relaxed_avx(op, src1, src2, dst, t1, t2, t3, g);
    let b1 = spec_to_xmm(src1, t1, g);
    let b2 = match src2 {
        Location::Memory(_, _) => seq![],
        _ => spec_to_xmm(src2, t2, g),
    };
    assert(b == b1 + b2);
    assert forall|k: int| 0 <= k < b.len() implies legal_form(#[trigger] b[k]) && b[k].op
        == BinOp::Mov by {
        if k < b1.len() {
            assert(b[k] == b1[k]);
        } else {
            assert(b[k] == b2[k - b1.len()]);
        }
    }
}

/// The instructions of a binary integer operator on the popped operands `loc_a` and
/// `loc_b` whose result goes to `ret`: computed in place when `loc_a` is `ret`, else through
/// the temporary `tmp`.
pub open spec fn spec_binop(
    op: BinOp,
    sz: Size,
    loc_a: Location,
    loc_b: Location,
    ret: Location,
    tmp: GPR,
    t1: GPR,
    t2: GPR,
) -> Seq<Instr> {
    if loc_a != ret {
        spec_relaxed_binop(BinOp::Mov, sz, loc_a, Location::GPR(tmp), t1, t2) + spec_relaxed_binop(
            op,
            sz,
            loc_b,
            Location::GPR(tmp),
            t1,
            t2,
        ) + spec_relaxed_binop(BinOp::Mov, sz, Location::GPR(tmp), ret, t1, t2)
    } else {
        spec_relaxed_binop(op, sz, loc_b, ret, t1, t2)
    }
}

/// Emits a binary integer operator `ret = loc_a op loc_b`.
pub fn emit_binop(
    out: &mut Vec<Instr>,
    op: BinOp,
    sz: Size,
    loc_a: Location,
    loc_b: Location,
    ret: Location,
    tmp: GPR,
    t1: GPR,
    t2: GPR,
)
    ensures
        final(out)@ == old(out)@ + spec_binop(op, sz, loc_a, loc_b, ret, tmp, t1, t2),
{
    let ghost start = out@;
    if loc_a != ret {
        emit_relaxed_binop(out, BinOp::Mov, sz, loc_a, Location::GPR(tmp), t1, t2);
        emit_relaxed_binop(out, op, sz, loc_b, Location::GPR(tmp), t1, t2);
        emit_relaxed_binop(out, BinOp::Mov, sz, Location::GPR(tmp), ret, t1, t2);
        assert(out@ =~= start + spec_binop(op, sz, loc_a, loc_b, ret, tmp, t1, t2));
    } else {
        emit_relaxed_binop(out, op, sz, loc_b, ret, t1, t2);
    }
}

/// A division by one operand: the dividend is in RDX:RAX.
#[derive(Debug, Clone, Copy, PartialEq, Eq, Structural)]
pub enum DivOp {
    Div,
    Idiv,
}

/// One emitted division.
#[derive(Debug, Clone, Copy, PartialEq, Eq, Structural)]
pub struct DivInstr {
    pub op: DivOp,
    pub size: Size,
    pub divisor: Location,
}

/// Emits a division by `loc`. A division cannot take an immediate divisor, so an immediate
/// goes through RCX first, which the division does not touch.
pub fn emit_relaxed_xdiv(out: &mut Vec<Instr>, op: DivOp, sz: Size, loc: Location) -> (r: DivInstr)
    ensures
        is_imm(loc) ==> final(out)@ == old(out)@.push(
            Instr { op: BinOp::Mov, size: sz, src: loc, dst: Location::GPR(GPR::RCX) },
        ) && r == (DivInstr { op, size: sz, divisor: Location::GPR(GPR::RCX) }),
        !is_imm(loc) ==> final(out)@ == old(out)@ && r == (DivInstr { op, size: sz, divisor: loc }),
{
    match loc {
        Location::Imm64(_) | Location::Imm32(_) => {
            out.push(Instr { op: BinOp::Mov, size: sz, src: loc, dst: Location::GPR(GPR::RCX) });
            DivInstr { op, size: sz, divisor: Location::GPR(GPR::RCX) }
        },
        _ => DivInstr { op, size: sz, divisor: loc },
    }
}

/// A widening move.
#[derive(Debug, Clone, Copy, PartialEq, Eq, Structural)]
pub enum ExtendOp {
    Movzx,
    Movsx,
}

/// One emitted widening move: `sz_src` bits of `src` into `sz_dst` bits of register `dst`.
#[derive(Debug, Clone, Copy, PartialEq, Eq, Structural)]
pub struct ExtendInstr {
    pub op: ExtendOp,
    pub sz_src: Size,
    pub src: Location,
    pub sz_dst: Size,
    pub dst: GPR,
}

/// Emits a widening move from `src` to `dst`. Its source cannot be an immediate and its
/// destination must be a register: an immediate goes through `tmp_src` first, and a memory
/// destination receives the result from `tmp_dst`. Returns the widening move; `before` and
/// `after` get the moves around it.
pub fn emit_relaxed_zx_sx(
    before: &mut Vec<Instr>,
    after: &mut Vec<Instr>,
    op: ExtendOp,
    sz_src: Size,
    src: Location,
    sz_dst: Size,
    dst: Location,
    tmp_src: GPR,
    tmp_dst: GPR,
) -> (r: ExtendInstr)
    requires
        !(src is XMM),
        dst is GPR || dst is Memory,
    ensures
        final(before)@ == old(before)@ + if is_imm(src) {
            seq![Instr { op: BinOp::Mov, size: Size::S64, src: src, dst: Location::GPR(tmp_src) }]
        } else {
            Seq::<Instr>::empty()
        },
        r.op == op && r.sz_src == sz_src && r.sz_dst == sz_dst,
        r.src == if is_imm(src) {
            Location::GPR(tmp_src)
        } else {
            src
        },
        dst matches Location::GPR(g) ==> r.dst == g && final(after)@ == old(after)@,
        dst is Memory ==> r.dst == tmp_dst && final(after)@ == old(after)@.push(
            Instr { op: BinOp::Mov, size: Size::S64, src: Location::GPR(tmp_dst), dst: dst },
        ),
{
    let ghost b0 = before@;
    let src = match src {
        Location::Imm32(_) | Location::Imm64(_) => {
            before.push(Instr { op: BinOp::Mov, size: Size::S64, src: src, dst: Location::GPR(tmp_src) });
            Location::GPR(tmp_src)
        },
        _ => {
            assert(before@ =~= b0 + Seq::<Instr>::empty());
            src
        },
    };
    match dst {
        Location::GPR(g) => ExtendInstr { op, sz_src, src, sz_dst, dst: g },
        _ => {
            after.push(Instr { op: BinOp::Mov, size: Size::S64, src: Location::GPR(tmp_dst), dst: dst });
            ExtendInstr { op, sz_src, src, sz_dst, dst: tmp_dst }
        },
    }
}

/// The number of instructions in `s` whose operation is `op`.
pub open spec fn count_op(s: Seq<Instr>, op: BinOp) -> nat
    decreases s.len(),
{
    if s.len() == 0 {
        0
    } else {
        count_op(s.drop_last(), op) + if s.last().op == op {
            1nat
        } else {
            0
        }
    }
}

/// Every pair of operand kinds gives a sequence of legally encoded instructions: one
/// instruction of the requested operation plus auxiliary moves, at most two of them.
#[verifier::rlimit(50)]
pub proof fn lemma_relaxed_binop_coverage(
    op: BinOp,
    sz: Size,
    src: Location,
    dst: Location,
    t1: GPR,
    t2: GPR,
)
    requires
        op != BinOp::Mov,
    ensures
        ({
            let s = spec_relaxed_binop(op, sz, src, dst, t1, t2);
            &&& forall|i: int| 0 <= i < s.len() ==> legal_form(#[trigger] s[i])
            &&& count_op(s, op) == 1
            &&& count_op(s, BinOp::Mov) == s.len() - 1
            &&& s.len() <= 3
        }),
{
    let s = spec_relaxed_binop(op, sz, src, dst, t1, t2);
    reveal_with_fuel(count_op, 5);
    assert(s.len() <= 1 ==> s.drop_last() =~= Seq::<Instr>::empty());
    if s.len() >= 2 {
        assert(s.drop_last().drop_last().len() == s.len() - 2);
    }
}

/// No move of `s` writes a register that a later move of `s` reads.
pub open spec fn no_clobber(s: Seq<(Location, GPR)>) -> bool {
    forall|i: int, j: int| 0 <= i < j < s.len() ==> s[j].0 != Location::GPR(s[i].1)
}

/// Whether move `k` of `s` writes a register that no other move of `s` reads.
pub open spec fn is_free(s: Seq<(Location, GPR)>, k: int) -> bool {
    forall|j: int| 0 <= j < s.len() && j != k ==> s[j].0 != Location::GPR(s[k].1)
}

/// The moves of `s` wait on one another: each writes a register that another one reads, so
/// they hold a cycle, and no order of them avoids overwriting a register before it is read.
pub open spec fn blocked(s: Seq<(Location, GPR)>) -> bool {
    s.len() > 0 && forall|k: int| 0 <= k < s.len() ==> !#[trigger] is_free(s, k)
}

fn move_is_free(s: &Vec<(Location, GPR)>, k: usize) -> (r: bool)
    requires
        k < s@.len(),
    ensures
        r == is_free(s@, k as int),
{
    let target = Location::GPR(s[k].1);
    let mut j: usize = 0;
    while j < s.len()
        invariant
            k < s@.len(),
            j <= s@.len(),
            target == Location::GPR(s@[k as int].1),
            forall|i: int| 0 <= i < j && i != k ==> s@[i].0 != target,
        decreases s@.len() - j,
    {
        if j != k && s[j].0 == target {
            return false;
        }
        j = j + 1;
    }
    true
}

fn find_free_move(s: &Vec<(Location, GPR)>) -> (r: Option<usize>)
    ensures
        r matches Some(k) ==> k < s@.len() && is_free(s@, k as int),
        r is None ==> forall|k: int| 0 <= k < s@.len() ==> !#[trigger] is_free(s@, k),
{
    let mut k: usize = 0;
    while k < s.len()
        invariant
            k <= s@.len(),
            forall|i: int| 0 <= i < k ==> !#[trigger] is_free(s@, i),
        decreases s@.len() - k,
    {
        if move_is_free(s, k) {
            return Some(k);
        }
        k = k + 1;
    }
    None
}

/// Orders the register moves that stage call arguments so that no move overwrites a
/// register that a later move still reads: each step takes a move whose destination no
/// remaining move reads. Returns whether every move could be placed so; if not, the moves
/// left over, at the end, wait on one another in a cycle.
pub fn sort_call_movs(movs: &mut Vec<(Location, GPR)>) -> (r: bool)
    ensures
        final(movs)@.len() == old(movs)@.len(),
        final(movs)@.to_multiset() == old(movs)@.to_multiset(),
        r ==> no_clobber(final(movs)@),
        !r ==> exists|k: int|
            0 <= k < final(movs)@.len() && no_clobber(#[trigger] final(movs)@.subrange(0, k))
                && blocked(final(movs)@.subrange(k, final(movs)@.len() as int)),
{
    broadcast use vstd::seq_lib::group_to_multiset_ensures;
    broadcast use vstd::multiset::group_multiset_properties;

    let mut out: Vec<(Location, GPR)> = Vec::new();
    let mut rest: Vec<(Location, GPR)> = Vec::new();
    let mut i: usize = 0;
    while i < movs.len()
        invariant
            i <= movs@.len(),
            rest@ == movs@.subrange(0, i as int),
            *movs == *old(movs),
        decreases movs@.len() - i,
    {
        rest.push(movs[i]);
        i = i + 1;
        assert(rest@ =~= movs@.subrange(0, i as int));
    }
    assert(rest@ =~= old(movs)@);
    assert(out@.to_multiset().add(rest@.to_multiset()) =~= old(movs)@.to_multiset());
    let mut stuck = false;
    while rest.len() > 0 && !stuck
        invariant
            out@.len() + rest@.len() == old(movs)@.len(),
            out@.to_multiset().add(rest@.to_multiset()) == old(movs)@.to_multiset(),
            no_clobber(out@),
            forall|a: int, b: int|
                0 <= a < out@.len() && 0 <= b < rest@.len() ==> rest@[b].0 != Location::GPR(
                    out@[a].1,
                ),
            stuck ==> blocked(rest@),
        decreases rest@.len() + if stuck {
            0int
        } else {
            1
        },
    {
        match find_free_move(&rest) {
            Some(k) => {
                let ghost before_out = out@;
                let ghost before_rest = rest@;
                let m = rest.remove(k);
                out.push(m);
                proof {
                    assert(m == before_rest[k as int]);
                    vstd::seq_lib::to_multiset_remove(before_rest, k as int);
                    vstd::seq_lib::to_multiset_build(before_out, m);
                    assert(rest@ == before_rest.remove(k as int));
                    assert(out@ == before_out.push(m));
                    assert(rest@.to_multiset() == before_rest.to_multiset().remove(m));
                    assert(out@.to_multiset() == before_out.to_multiset().insert(m));
                    assert(before_rest.to_multiset().count(m) > 0) by {
                        before_rest.to_multiset_ensures();
                        assert(before_rest[k as int] == m);
                        assert(before_rest.contains(m));
                    }
                    assert(out@.to_multiset().add(rest@.to_multiset()) =~= before_out.to_multiset().add(
                        before_rest.to_multiset(),
                    ));
                    assert forall|a: int, b: int|
                        0 <= a < out@.len() && 0 <= b < rest@.len() implies rest@[b].0
                        != Location::GPR(out@[a].1) by {
                        let ob = if b < k {
                            b
                        } else {
                            b + 1
                        };
                        assert(rest@[b] == before_rest[ob]);
                        if a < before_out.len() {
                            assert(out@[a] == before_out[a]);
                        } else {
                            assert(ob != k as int);
                        }
                    }
                    assert forall|a: int, b: int| 0 <= a < b < out@.len() implies out@[b].0
                        != Location::GPR(out@[a].1) by {
                        if b < before_out.len() {
                            assert(out@[a] == before_out[a] && out@[b] == before_out[b]);
                        } else {
                            assert(out@[a] == before_out[a]);
                            assert(out@[b] == before_rest[k as int]);
                        }
                    }
                }
            },
            None => {
                stuck = true;
            },
        }
    }
    let ghost split = out@.len();
    let ghost tail = rest@;
    let ghost head = out@;
    let r = !stuck;
    let mut j: usize = 0;
    while j < rest.len()
        invariant
            j <= rest@.len(),
            rest@ == tail,
            out@ == head + tail.subrange(0, j as int),
        decreases rest@.len() - j,
    {
        out.push(rest[j]);
        j = j + 1;
        assert(out@ =~= head + tail.subrange(0, j as int));
    }
    proof {
        assert(tail.subrange(0, tail.len() as int) =~= tail);
        vstd::seq_lib::lemma_multiset_commutative(head, tail);
        if stuck {
            assert(out@.subrange(0, split as int) =~= head);
            assert(out@.subrange(split as int, out@.len() as int) =~= tail);
        } else {
            assert(out@ =~= head);
        }
    }
    *movs = out;
    r
}

} // verus!
