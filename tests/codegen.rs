use wasmer::checks::MemoryClass;
use wasmer::control::DynamicLabel;
use wasmer::codegen::{emit_call_indirect, emit_memory_op, Code, Condition, FunctionCode, Operator};
use wasmer::emit::{BinOp, Instr, Location, Size, GPR};
use wasmer::trap::{TrapKind, TrapSink};
use wasmer::types::Type;

fn op(op: BinOp, size: Size, src: Location, dst: Location) -> Code {
    Code::Op(Instr { op, size, src, dst })
}

#[test]
fn add_function_translates_to_one_add() {
    let mut f = FunctionCode::new(2, Some(Type::I32), None);
    let mut out: Vec<Code> = Vec::new();
    let mut traps = TrapSink::new();
    for o in [Operator::GetLocal(0), Operator::GetLocal(1), Operator::I32Add, Operator::End] {
        assert!(f.feed_opcode(o, &mut out, &mut traps).is_ok());
    }
    let l0 = Location::Memory(GPR::RBP, -8);
    let l1 = Location::Memory(GPR::RBP, -16);
    let slot0 = Location::Memory(GPR::RBP, -24);
    assert_eq!(
        out,
        vec![
            op(BinOp::Mov, Size::S32, l0, Location::GPR(GPR::RAX)),
            op(BinOp::Add, Size::S32, l1, Location::GPR(GPR::RAX)),
            op(BinOp::Mov, Size::S32, Location::GPR(GPR::RAX), slot0),
            Code::Label(DynamicLabel(0)),
            Code::Return,
        ]
    );
    assert_eq!(traps.lookup(0), None);
}

#[test]
fn unreachable_code_is_skipped_and_its_trap_recorded() {
    let mut f = FunctionCode::new(0, None, None);
    let mut out: Vec<Code> = Vec::new();
    let mut traps = TrapSink::new();
    f.feed_opcode(Operator::Block(None), &mut out, &mut traps).unwrap();
    f.feed_opcode(Operator::Unreachable, &mut out, &mut traps).unwrap();
    f.feed_opcode(Operator::I32Const(5), &mut out, &mut traps).unwrap();
    f.feed_opcode(Operator::Block(None), &mut out, &mut traps).unwrap();
    f.feed_opcode(Operator::End, &mut out, &mut traps).unwrap();
    f.feed_opcode(Operator::I32Add, &mut out, &mut traps).unwrap();
    assert_eq!(out, vec![Code::Ud2]);
    f.feed_opcode(Operator::End, &mut out, &mut traps).unwrap();
    f.feed_opcode(Operator::I32Const(7), &mut out, &mut traps).unwrap();
    f.feed_opcode(Operator::Drop, &mut out, &mut traps).unwrap();
    f.feed_opcode(Operator::End, &mut out, &mut traps).unwrap();
    assert_eq!(out, vec![Code::Ud2, Code::Label(DynamicLabel(1)), Code::Label(DynamicLabel(0)), Code::Return]);
    assert_eq!(traps.lookup(0), Some(TrapKind::Unreachable));
}

#[test]
fn set_local_moves_through_a_temporary_from_memory() {
    let mut f = FunctionCode::new(2, None, None);
    let mut out: Vec<Code> = Vec::new();
    let mut traps = TrapSink::new();
    f.feed_opcode(Operator::GetLocal(0), &mut out, &mut traps).unwrap();
    f.feed_opcode(Operator::SetLocal(1), &mut out, &mut traps).unwrap();
    assert_eq!(
        out,
        vec![
            op(BinOp::Mov, Size::S64, Location::Memory(GPR::RBP, -8), Location::GPR(GPR::RCX)),
            op(BinOp::Mov, Size::S64, Location::GPR(GPR::RCX), Location::Memory(GPR::RBP, -16)),
        ]
    );
}

#[test]
fn dynamic_memory_access_is_bound_checked() {
    let mut out: Vec<Code> = Vec::new();
    let mut traps = TrapSink::new();
    let addr = Location::GPR(GPR::RBX);
    let r = emit_memory_op(&mut out, &mut traps, false, MemoryClass::Dynamic, addr, 8, 4, GPR::R8, GPR::R9, GPR::R10, GPR::R11);
    assert_eq!(r, GPR::R8);
    assert_eq!(out.len(), 5 + 6 + 4);
    assert_eq!(out[0], op(BinOp::Mov, Size::S64, Location::Memory(GPR::R15, 0), Location::GPR(GPR::R9)));
    let w = std::mem::size_of::<usize>() as i32;
    assert_eq!(out[2], op(BinOp::Mov, Size::S64, Location::Memory(GPR::R9, w), Location::GPR(GPR::R10)));
    assert_eq!(out[6], op(BinOp::Mov, Size::S64, Location::Imm64(12), Location::GPR(GPR::R11)));
    assert_eq!(out[10], Code::TrapIf(Condition::Above));
    assert_eq!(traps.lookup(10), Some(TrapKind::MemoryOutOfBounds));
    assert_eq!(out[14], op(BinOp::Add, Size::S64, Location::GPR(GPR::R9), Location::GPR(GPR::R8)));
}

#[test]
fn static_memory_access_is_not_checked() {
    let mut out: Vec<Code> = Vec::new();
    let mut traps = TrapSink::new();
    let w = std::mem::size_of::<usize>() as i32;
    emit_memory_op(&mut out, &mut traps, true, MemoryClass::Static, Location::Imm32(0), u32::MAX, 4, GPR::R8, GPR::R9, GPR::R10, GPR::R11);
    assert_eq!(out.len(), 9);
    assert_eq!(out[6], op(BinOp::Mov, Size::S64, Location::Imm64(u32::MAX as u64), Location::GPR(GPR::R11)));
    assert_eq!(out[0], op(BinOp::Mov, Size::S64, Location::Memory(GPR::R15, 3 * w), Location::GPR(GPR::R9)));
    assert!(!out.contains(&Code::TrapIf(Condition::Above)));
    assert_eq!(traps.lookup(9), None);
}

#[test]
fn load_from_dynamic_memory_checks_its_bound() {
    let mut f = FunctionCode::new(1, Some(Type::I32), Some((false, MemoryClass::Dynamic)));
    let mut out: Vec<Code> = Vec::new();
    let mut traps = TrapSink::new();
    f.feed_opcode(Operator::GetLocal(0), &mut out, &mut traps).unwrap();
    f.feed_opcode(Operator::I32Load(0), &mut out, &mut traps).unwrap();
    f.feed_opcode(Operator::End, &mut out, &mut traps).unwrap();
    assert_eq!(out.len(), 15 + 2 + 2);
    assert_eq!(out[6], op(BinOp::Mov, Size::S64, Location::Imm64(4), Location::GPR(GPR::R11)));
    assert_eq!(out[10], Code::TrapIf(Condition::Above));
    assert_eq!(traps.lookup(10), Some(TrapKind::MemoryOutOfBounds));
    assert_eq!(out[15], op(BinOp::Mov, Size::S32, Location::Memory(GPR::RAX, 0), Location::GPR(GPR::RCX)));
    assert_eq!(out[16], op(BinOp::Mov, Size::S32, Location::GPR(GPR::RCX), Location::Memory(GPR::RBP, -16)));
    assert_eq!(out[18], Code::Return);
}

#[test]
fn signed_division_records_zero_and_overflow_sites() {
    let mut f = FunctionCode::new(2, Some(Type::I32), None);
    let mut out: Vec<Code> = Vec::new();
    let mut traps = TrapSink::new();
    for o in [Operator::GetLocal(0), Operator::GetLocal(1), Operator::I32DivS, Operator::End] {
        f.feed_opcode(o, &mut out, &mut traps).unwrap();
    }
    assert_eq!(out[0], op(BinOp::Mov, Size::S32, Location::Memory(GPR::RBP, -16), Location::GPR(GPR::RCX)));
    assert_eq!(out[2], Code::TrapIf(Condition::Equal));
    assert_eq!(out[4], Code::Cdq);
    assert_eq!(traps.lookup(2), Some(TrapKind::IntegerDivideByZero));
    assert_eq!(traps.lookup(5), Some(TrapKind::IntegerOverflow));
    assert_eq!(out[6], op(BinOp::Mov, Size::S32, Location::GPR(GPR::RAX), Location::Memory(GPR::RBP, -24)));
    assert_eq!(out[8], Code::Return);
}

#[test]
fn unsigned_remainder_takes_rdx() {
    let mut f = FunctionCode::new(0, Some(Type::I32), None);
    let mut out: Vec<Code> = Vec::new();
    let mut traps = TrapSink::new();
    for o in [Operator::I32Const(10), Operator::I32Const(3), Operator::I32RemU, Operator::End] {
        f.feed_opcode(o, &mut out, &mut traps).unwrap();
    }
    assert_eq!(out[4], op(BinOp::Xor, Size::S32, Location::GPR(GPR::RDX), Location::GPR(GPR::RDX)));
    assert_eq!(out[6], op(BinOp::Mov, Size::S32, Location::GPR(GPR::RDX), Location::Memory(GPR::RBP, -8)));
    assert_eq!(traps.lookup(2), Some(TrapKind::IntegerDivideByZero));
    assert_eq!(traps.lookup(5), None);
}

#[test]
fn i64_add_uses_64_bit_operations() {
    let mut f = FunctionCode::new(0, Some(Type::I64), None);
    let mut out: Vec<Code> = Vec::new();
    let mut traps = TrapSink::new();
    for o in [Operator::I64Const(1 << 40), Operator::I64Const(2), Operator::I64Add, Operator::End] {
        f.feed_opcode(o, &mut out, &mut traps).unwrap();
    }
    let slot0 = Location::Memory(GPR::RBP, -8);
    assert_eq!(out[0], op(BinOp::Mov, Size::S64, Location::Imm64(1 << 40), Location::GPR(GPR::RAX)));
    assert_eq!(out[1], op(BinOp::Mov, Size::S64, Location::Imm64(2), Location::GPR(GPR::RCX)));
    assert_eq!(out[2], op(BinOp::Add, Size::S64, Location::GPR(GPR::RCX), Location::GPR(GPR::RAX)));
    assert_eq!(out[3], op(BinOp::Mov, Size::S64, Location::GPR(GPR::RAX), slot0));
}

#[test]
fn if_else_joins_both_branches_in_one_slot() {
    let mut f = FunctionCode::new(1, Some(Type::I32), None);
    let mut out: Vec<Code> = Vec::new();
    let mut traps = TrapSink::new();
    for o in [
        Operator::GetLocal(0),
        Operator::If(Some(Type::I32)),
        Operator::I32Const(10),
        Operator::Else,
        Operator::I32Const(20),
        Operator::End,
        Operator::End,
    ] {
        f.feed_opcode(o, &mut out, &mut traps).unwrap();
    }
    let slot0 = Location::Memory(GPR::RBP, -16);
    assert_eq!(
        out,
        vec![
            op(BinOp::Cmp, Size::S32, Location::Imm32(0), Location::Memory(GPR::RBP, -8)),
            Code::Jmp(Some(Condition::Equal), DynamicLabel(2)),
            op(BinOp::Mov, Size::S64, Location::Imm32(10), slot0),
            Code::Jmp(None, DynamicLabel(1)),
            Code::Label(DynamicLabel(2)),
            op(BinOp::Mov, Size::S64, Location::Imm32(20), slot0),
            Code::Label(DynamicLabel(1)),
            Code::Label(DynamicLabel(0)),
            Code::Return,
        ]
    );
}

#[test]
fn branches_carry_their_result_and_skip_dead_code() {
    let mut f = FunctionCode::new(1, Some(Type::I32), None);
    let mut out: Vec<Code> = Vec::new();
    let mut traps = TrapSink::new();
    for o in [
        Operator::Block(Some(Type::I32)),
        Operator::I32Const(7),
        Operator::GetLocal(0),
        Operator::BrIf(0),
        Operator::Drop,
        Operator::I32Const(9),
        Operator::Br(0),
        Operator::I32Const(1),
        Operator::End,
        Operator::Return,
        Operator::End,
    ] {
        f.feed_opcode(o, &mut out, &mut traps).unwrap();
    }
    let slot0 = Location::Memory(GPR::RBP, -16);
    assert_eq!(
        out,
        vec![
            op(BinOp::Cmp, Size::S32, Location::Imm32(0), Location::Memory(GPR::RBP, -8)),
            Code::Jmp(Some(Condition::Equal), DynamicLabel(2)),
            op(BinOp::Mov, Size::S64, Location::Imm32(7), slot0),
            Code::Jmp(None, DynamicLabel(1)),
            Code::Label(DynamicLabel(2)),
            op(BinOp::Mov, Size::S64, Location::Imm32(9), slot0),
            Code::Jmp(None, DynamicLabel(1)),
            Code::Label(DynamicLabel(1)),
            Code::Jmp(None, DynamicLabel(0)),
            Code::Label(DynamicLabel(0)),
            Code::Return,
        ]
    );
}

#[test]
fn loops_bind_their_label_at_the_head() {
    let mut f = FunctionCode::new(1, None, None);
    let mut out: Vec<Code> = Vec::new();
    let mut traps = TrapSink::new();
    for o in [Operator::Loop(None), Operator::GetLocal(0), Operator::BrIf(0), Operator::End, Operator::End] {
        f.feed_opcode(o, &mut out, &mut traps).unwrap();
    }
    assert_eq!(out[0], Code::Label(DynamicLabel(1)));
    assert_eq!(out[3], Code::Jmp(None, DynamicLabel(1)));
    assert_eq!(out[4], Code::Label(DynamicLabel(2)));
    assert_eq!(out[5], Code::Label(DynamicLabel(0)));
    assert_eq!(out.len(), 7);
}

#[test]
fn comparison_sets_a_zero_or_one_result() {
    let mut f = FunctionCode::new(1, Some(Type::I32), None);
    let mut out: Vec<Code> = Vec::new();
    let mut traps = TrapSink::new();
    for o in [Operator::GetLocal(0), Operator::I32Const(5), Operator::I32LtS, Operator::End] {
        f.feed_opcode(o, &mut out, &mut traps).unwrap();
    }
    let l0 = Location::Memory(GPR::RBP, -8);
    let slot0 = Location::Memory(GPR::RBP, -16);
    assert_eq!(
        out,
        vec![
            op(BinOp::Cmp, Size::S32, Location::Imm32(5), l0),
            Code::SetCond(Condition::Less, GPR::RAX),
            op(BinOp::And, Size::S32, Location::Imm32(0xff), Location::GPR(GPR::RAX)),
            op(BinOp::Mov, Size::S32, Location::GPR(GPR::RAX), slot0),
            Code::Label(DynamicLabel(0)),
            Code::Return,
        ]
    );
}

#[test]
fn br_table_jumps_through_a_table_of_arms() {
    let mut f = FunctionCode::new(1, None, None);
    let mut out: Vec<Code> = Vec::new();
    let mut traps = TrapSink::new();
    for o in [Operator::Block(None), Operator::Block(None), Operator::Block(None), Operator::Block(None), Operator::GetLocal(0)] {
        f.feed_opcode(o, &mut out, &mut traps).unwrap();
    }
    f.feed_br_table(&vec![0, 1, 2], 3, &mut out);
    assert_eq!(
        out,
        vec![
            op(BinOp::Mov, Size::S32, Location::Memory(GPR::RBP, -8), Location::GPR(GPR::RCX)),
            op(BinOp::Cmp, Size::S32, Location::Imm32(3), Location::GPR(GPR::RCX)),
            Code::Jmp(Some(Condition::AboveEqual), DynamicLabel(8)),
            Code::JmpTable(0, GPR::RCX),
            Code::Label(DynamicLabel(5)),
            Code::Jmp(None, DynamicLabel(4)),
            Code::Label(DynamicLabel(6)),
            Code::Jmp(None, DynamicLabel(3)),
            Code::Label(DynamicLabel(7)),
            Code::Jmp(None, DynamicLabel(2)),
            Code::Label(DynamicLabel(8)),
            Code::Jmp(None, DynamicLabel(1)),
        ]
    );
    assert_eq!(f.br_table_labels(), &vec![vec![DynamicLabel(5), DynamicLabel(6), DynamicLabel(7)]]);
    let n = out.len();
    f.feed_opcode(Operator::I32Const(1), &mut out, &mut traps).unwrap();
    f.feed_opcode(Operator::End, &mut out, &mut traps).unwrap();
    assert_eq!(out[n..].to_vec(), vec![Code::Label(DynamicLabel(4))]);
}

#[test]
fn call_indirect_checks_bounds_and_signature_before_the_call() {
    let mut out: Vec<Code> = Vec::new();
    let mut traps = TrapSink::new();
    let w = std::mem::size_of::<usize>() as i32;
    let r = emit_call_indirect(&mut out, &mut traps, false, 1, Location::Memory(GPR::RBP, -8), GPR::RAX, GPR::RCX, GPR::RDX);
    assert_eq!(r, GPR::RDX);
    assert_eq!(out.len(), 14);
    assert_eq!(out[0], op(BinOp::Mov, Size::S64, Location::Memory(GPR::R15, w), Location::GPR(GPR::RAX)));
    assert_eq!(out[5], op(BinOp::Cmp, Size::S64, Location::GPR(GPR::RCX), Location::GPR(GPR::RDX)));
    assert_eq!(out[6], Code::TrapIf(Condition::AboveEqual));
    assert_eq!(out[7], op(BinOp::Imul, Size::S64, Location::Imm32(3 * w as u32), Location::GPR(GPR::RDX)));
    assert_eq!(out[9], op(BinOp::Mov, Size::S64, Location::Memory(GPR::R15, 7 * w), Location::GPR(GPR::RCX)));
    assert_eq!(out[10], op(BinOp::Mov, Size::S32, Location::Memory(GPR::RCX, 4), Location::GPR(GPR::RCX)));
    assert_eq!(out[11], op(BinOp::Cmp, Size::S32, Location::GPR(GPR::RCX), Location::Memory(GPR::RDX, 2 * w)));
    assert_eq!(out[12], Code::TrapIf(Condition::NotEqual));
    assert_eq!(out[13], op(BinOp::Mov, Size::S64, Location::Memory(GPR::RDX, 0), Location::GPR(GPR::RDX)));
    assert_eq!(traps.lookup(6), Some(TrapKind::CallIndirectOutOfBounds));
    assert_eq!(traps.lookup(12), Some(TrapKind::CallIndirectSignatureMismatch));
}
