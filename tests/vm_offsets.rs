use wasmer::vm::{Anyfunc, Ctx, ImportedFunc, LocalGlobal, LocalMemory, LocalTable, SigId};

fn word() -> usize {
    std::mem::size_of::<usize>()
}

#[test]
fn ctx() {
    assert_eq!(Ctx::offset_memories() as usize, 0);
    assert_eq!(Ctx::offset_tables() as usize, word());
    assert_eq!(Ctx::offset_globals() as usize, 2 * word());
    assert_eq!(Ctx::offset_imported_memories() as usize, 3 * word());
    assert_eq!(Ctx::offset_imported_tables() as usize, 4 * word());
    assert_eq!(Ctx::offset_imported_globals() as usize, 5 * word());
    assert_eq!(Ctx::offset_imported_funcs() as usize, 6 * word());
    assert_eq!(Ctx::offset_signatures() as usize, 7 * word());
    assert_eq!(Ctx::offset_local_functions() as usize, 8 * word());
}

#[test]
fn imported_func() {
    assert_eq!(ImportedFunc::offset_func() as usize, 0);
    assert_eq!(ImportedFunc::offset_ctx() as usize, word());
}

#[test]
fn local_table() {
    assert_eq!(LocalTable::offset_base() as usize, 0);
    assert_eq!(LocalTable::offset_count() as usize, word());
}

#[test]
fn local_memory() {
    assert_eq!(LocalMemory::offset_base() as usize, 0);
    assert_eq!(LocalMemory::offset_bound() as usize, word());
}

#[test]
fn local_global() {
    assert_eq!(LocalGlobal::offset_data() as usize, 0);
}

#[test]
fn cc_anyfunc() {
    assert_eq!(Anyfunc::offset_func() as usize, 0);
    assert_eq!(Anyfunc::offset_ctx() as usize, word());
    assert_eq!(Anyfunc::offset_sig_id() as usize, 2 * word());
}

#[test]
fn record_sizes_on_this_machine() {
    assert_eq!(ImportedFunc::size() as usize, 2 * word());
    assert_eq!(LocalTable::size() as usize, 3 * word());
    assert_eq!(LocalMemory::size() as usize, 3 * word());
    assert_eq!(LocalGlobal::size(), 8);
    assert_eq!(Anyfunc::size() as usize, 3 * word());
}

#[test]
fn null_records_are_empty() {
    let g = LocalGlobal::null();
    assert_eq!(g.data, 0);
    let f = Anyfunc::null();
    assert_eq!(f.func, 0);
    assert_eq!(f.ctx, 0);
    assert_eq!(f.sig_id, SigId(u32::MAX));
}
