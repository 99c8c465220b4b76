use wasmer::checks::{
    br_table_target, check_memory_access, div_s_i32, div_u_i32, rem_s_i32, rem_u_i32, resolve_indirect_call,
    MemoryClass,
};
use wasmer::trap::TrapKind;
use wasmer::types::{SigRegistry, FuncSig, Type};
use wasmer::vm::{Anyfunc, SigId};

#[test]
fn signed_division_traps_on_overflow_and_zero() {
    assert_eq!(div_s_i32(i32::MIN, -1), Err(TrapKind::IntegerOverflow));
    assert_eq!(div_s_i32(10, 0), Err(TrapKind::IntegerDivideByZero));
    assert_eq!(div_s_i32(-10, 3), Ok(-3));
    assert_eq!(div_s_i32(7, -2), Ok(-3));
    assert_eq!(div_s_i32(i32::MIN, 1), Ok(i32::MIN));
}

#[test]
fn signed_remainder_of_min_by_minus_one_is_zero() {
    assert_eq!(rem_s_i32(i32::MIN, -1), Ok(0));
    assert_eq!(rem_s_i32(-10, 3), Ok(-1));
    assert_eq!(rem_s_i32(10, -3), Ok(1));
    assert_eq!(rem_s_i32(10, 0), Err(TrapKind::IntegerDivideByZero));
}

#[test]
fn unsigned_division() {
    assert_eq!(div_u_i32(u32::MAX, 2), Ok(0x7fff_ffff));
    assert_eq!(rem_u_i32(10, 3), Ok(1));
    assert_eq!(div_u_i32(1, 0), Err(TrapKind::IntegerDivideByZero));
    assert_eq!(rem_u_i32(1, 0), Err(TrapKind::IntegerDivideByZero));
}

#[test]
fn dynamic_memory_of_one_page_is_bound_checked() {
    let page: u64 = 65536;
    assert_eq!(check_memory_access(MemoryClass::Dynamic, 0, 0, 4, page), Ok(0));
    assert_eq!(check_memory_access(MemoryClass::Dynamic, 65532, 0, 4, page), Ok(65532));
    assert_eq!(check_memory_access(MemoryClass::Dynamic, 65533, 0, 4, page), Err(TrapKind::MemoryOutOfBounds));
    assert_eq!(check_memory_access(MemoryClass::Dynamic, 65530, 4, 4, page), Err(TrapKind::MemoryOutOfBounds));
    assert_eq!(check_memory_access(MemoryClass::Static, 65533, 0, 4, page), Ok(65533));
}

#[test]
fn br_table_selects_target_or_default() {
    let results = [10, 20, 30, 40];
    let targets = [0u32, 1, 2];
    let pick = |i: u32| results[br_table_target(&targets, 3, i) as usize];
    assert_eq!(pick(0), 10);
    assert_eq!(pick(1), 20);
    assert_eq!(pick(2), 30);
    assert_eq!(pick(3), 40);
    assert_eq!(pick(5), 40);
    assert_eq!(pick(u32::MAX), 40);
}

#[test]
fn indirect_call_with_wrong_signature_traps() {
    let mut reg = SigRegistry::new();
    let f_sig = reg.lookup_sig_index(&FuncSig::new(vec![], vec![Type::I32]));
    let g_sig = reg.lookup_sig_index(&FuncSig::new(vec![Type::I32], vec![Type::I32]));
    let table = [
        Anyfunc { func: 0x100, ctx: 0x900, sig_id: SigId(f_sig) },
        Anyfunc { func: 0x200, ctx: 0x900, sig_id: SigId(g_sig) },
    ];
    let sigs = [SigId(f_sig), SigId(g_sig)];
    assert_eq!(resolve_indirect_call(&table, &sigs, 0, 1, 0x700), Err(TrapKind::CallIndirectSignatureMismatch));
    assert_eq!(resolve_indirect_call(&table, &sigs, 0, 0, 0x700), Ok((0x100, 0x700)));
    assert_eq!(resolve_indirect_call(&table, &sigs, 1, 1, 0x700), Ok((0x200, 0x700)));
    assert_eq!(resolve_indirect_call(&table, &sigs, 0, 2, 0x700), Err(TrapKind::CallIndirectOutOfBounds));
    let empty = [Anyfunc::null()];
    assert_eq!(resolve_indirect_call(&empty, &sigs, 0, 0, 0x700), Err(TrapKind::CallIndirectSignatureMismatch));
}
