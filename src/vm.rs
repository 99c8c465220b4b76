use vstd::prelude::*;

verus! {

broadcast use vstd::layout::group_layout_axioms;

/// The size in bytes of a machine word: every pointer field of the records below is one word.
pub open spec fn word() -> nat {
    vstd::layout::size_of::<usize>()
}

/// The byte offset of field `i` in a record whose fields, in order, have the sizes `sizes`,
/// each size a whole number of words so that no padding comes between them.
pub open spec fn record_offset(sizes: Seq<nat>, i: nat) -> nat
    decreases i,
{
    if i == 0 || sizes.len() == 0 {
        0
    } else if i > sizes.len() {
        record_offset(sizes, sizes.len())
    } else {
        record_offset(sizes, (i - 1) as nat) + sizes[i - 1]
    }
}

/// The fields of `InternalCtx`: eight word-sized pointers.
pub open spec fn internal_ctx_layout() -> Seq<nat> {
    seq![word(), word(), word(), word(), word(), word(), word(), word()]
}

/// The leading fields of `Ctx`: the inlined `InternalCtx`, then the local functions pointer.
pub open spec fn ctx_layout() -> Seq<nat> {
    seq![8 * word(), word()]
}

/// `ImportedFunc`: function pointer, owning context pointer.
pub open spec fn imported_func_layout() -> Seq<nat> {
    seq![word(), word()]
}

/// `LocalTable`: base pointer, element count, table pointer.
pub open spec fn local_table_layout() -> Seq<nat> {
    seq![word(), word(), word()]
}

/// `LocalMemory`: base pointer, bound in bytes, memory pointer.
pub open spec fn local_memory_layout() -> Seq<nat> {
    seq![word(), word(), word()]
}

/// `LocalGlobal`: one 64-bit word of data.
pub open spec fn local_global_layout() -> Seq<nat> {
    seq![8]
}

/// `Anyfunc`: function pointer, owning context pointer, then the 32-bit signature id,
/// which the record pads to a whole word.
pub open spec fn anyfunc_layout() -> Seq<nat> {
    seq![word(), word(), word()]
}

proof fn lemma_word_bounds()
    ensures
        word() == 4 || word() == 8,
{
    assert(vstd::layout::size_of::<usize>() * 8 == usize::BITS);
}

fn word_size() -> (r: u8)
    ensures
        r as nat == word(),
        r == 4 || r == 8,
{
    proof {
        lemma_word_bounds();
    }
    core::mem::size_of::<usize>() as u8
}

proof fn lemma_uniform_offsets(n: nat, i: nat)
    requires
        i <= n,
    ensures
        record_offset(Seq::new(n, |j: int| word()), i) == i * word(),
    decreases i,
{
    let s = Seq::new(n, |j: int| word());
    if i > 0 {
        lemma_uniform_offsets(n, (i - 1) as nat);
        assert(s.len() == n);
        assert(s[i - 1] == word());
        assert(record_offset(s, i) == record_offset(s, (i - 1) as nat) + s[i - 1]);
        assert(i * word() == (i - 1) * word() + word()) by (nonlinear_arith);
    }
}

/// Every documented offset of the context and of the records that generated code reads is
/// the position of the field in its record: field `k` of a record of word-sized fields lies
/// at `k` words, and the local functions pointer follows the eight words of `InternalCtx`.
pub proof fn lemma_offset_stability()
    ensures
        forall|k: nat| k <= 8 ==> #[trigger] record_offset(internal_ctx_layout(), k) == k * word(),
        record_offset(ctx_layout(), 0) == 0,
        record_offset(ctx_layout(), 1) == 8 * word(),
        record_offset(imported_func_layout(), 0) == 0,
        record_offset(imported_func_layout(), 1) == word(),
        record_offset(local_table_layout(), 0) == 0,
        record_offset(local_table_layout(), 1) == word(),
        record_offset(local_memory_layout(), 0) == 0,
        record_offset(local_memory_layout(), 1) == word(),
        record_offset(local_global_layout(), 0) == 0,
        record_offset(anyfunc_layout(), 0) == 0,
        record_offset(anyfunc_layout(), 1) == word(),
        record_offset(anyfunc_layout(), 2) == 2 * word(),
{
    assert forall|k: nat| k <= 8 implies #[trigger] record_offset(internal_ctx_layout(), k) == k
        * word() by {
        assert(internal_ctx_layout() =~= Seq::new(8, |j: int| word()));
        lemma_uniform_offsets(8, k);
    }
    assert(imported_func_layout() =~= Seq::new(2, |j: int| word()));
    lemma_uniform_offsets(2, 1);
    assert(local_table_layout() =~= Seq::new(3, |j: int| word()));
    lemma_uniform_offsets(3, 1);
    assert(anyfunc_layout() =~= Seq::new(3, |j: int| word()));
    lemma_uniform_offsets(3, 2);
    reveal_with_fuel(record_offset, 3);
}

/// The pointers that generated code reads from the context, at fixed offsets. Each field
/// holds the address of an array owned by the instance's backings.
#[derive(Debug, Clone, Copy)]
pub struct InternalCtx {
    /// The array of locally defined memories, indexed by memory index.
    pub memories: usize,
    /// The array of locally defined tables, indexed by table index.
    pub tables: usize,
    /// The array of locally defined globals, indexed by global index.
    pub globals: usize,
    /// The array of imported memories.
    pub imported_memories: usize,
    /// The array of imported tables.
    pub imported_tables: usize,
    /// The array of imported globals.
    pub imported_globals: usize,
    /// The array of imported functions.
    pub imported_funcs: usize,
    /// The array that maps module-local signature indices to process-wide signature ids.
    pub dynamic_sigindices: usize,
}

/// The context of a running WebAssembly instance: `InternalCtx` first, then the array of
/// local function entry points, then fields that generated code does not read.
#[derive(Debug)]
pub struct Ctx<Data = ()> {
    pub internal: InternalCtx,
    pub local_functions: usize,
    local_backing: usize,
    import_backing: usize,
    module: usize,
    pub data: Data,
}

impl Ctx<()> {
    pub fn offset_memories() -> (r: u8)
        ensures
            r as nat == record_offset(internal_ctx_layout(), 0),
            r as nat == 0 * word(),
    {
        proof {
            lemma_offset_stability();
        }
        0 * word_size()
    }

    pub fn offset_tables() -> (r: u8)
        ensures
            r as nat == record_offset(internal_ctx_layout(), 1),
            r as nat == 1 * word(),
    {
        proof {
            lemma_offset_stability();
        }
        1 * word_size()
    }

    pub fn offset_globals() -> (r: u8)
        ensures
            r as nat == record_offset(internal_ctx_layout(), 2),
            r as nat == 2 * word(),
    {
        proof {
            lemma_offset_stability();
        }
        2 * word_size()
    }

    pub fn offset_imported_memories() -> (r: u8)
        ensures
            r as nat == record_offset(internal_ctx_layout(), 3),
            r as nat == 3 * word(),
    {
        proof {
            lemma_offset_stability();
        }
        3 * word_size()
    }

    pub fn offset_imported_tables() -> (r: u8)
        ensures
            r as nat == record_offset(internal_ctx_layout(), 4),
            r as nat == 4 * word(),
    {
        proof {
            lemma_offset_stability();
        }
        4 * word_size()
    }

    pub fn offset_imported_globals() -> (r: u8)
        ensures
            r as nat == record_offset(internal_ctx_layout(), 5),
            r as nat == 5 * word(),
    {
        proof {
            lemma_offset_stability();
        }
        5 * word_size()
    }

    pub fn offset_imported_funcs() -> (r: u8)
        ensures
            r as nat == record_offset(internal_ctx_layout(), 6),
            r as nat == 6 * word(),
    {
        proof {
            lemma_offset_stability();
        }
        6 * word_size()
    }

    pub fn offset_signatures() -> (r: u8)
        ensures
            r as nat == record_offset(internal_ctx_layout(), 7),
            r as nat == 7 * word(),
    {
        proof {
            lemma_offset_stability();
        }
        7 * word_size()
    }

    pub fn offset_local_functions() -> (r: u8)
        ensures
            r as nat == record_offset(ctx_layout(), 1),
            r as nat == 8 * word(),
    {
        proof {
            lemma_offset_stability();
        }
        8 * word_size()
    }
}

/// The target of a function pointer: a `Func` is only ever pointed at, and its private field
/// keeps code outside this module from making one.
pub struct Func {
    _opaque: (),
}

/// An imported function, with the context that owns it.
#[derive(Debug, Clone, Copy)]
pub struct ImportedFunc {
    pub func: usize,
    pub ctx: usize,
}

impl ImportedFunc {
    pub fn offset_func() -> (r: u8)
        ensures
            r as nat == record_offset(imported_func_layout(), 0),
            r == 0,
    {
        proof {
            lemma_offset_stability();
        }
        0 * word_size()
    }

    pub fn offset_ctx() -> (r: u8)
        ensures
            r as nat == record_offset(imported_func_layout(), 1),
            r as nat == word(),
    {
        proof {
            lemma_offset_stability();
        }
        word_size()
    }

    pub fn size() -> (r: u8)
        ensures
            r as nat == record_offset(imported_func_layout(), 2),
            r as nat == 2 * word(),
    {
        proof {
            lemma_offset_stability();
            reveal_with_fuel(record_offset, 3);
        }
        2 * word_size()
    }
}

/// A table as generated code sees it.
#[derive(Debug, Clone, Copy)]
pub struct LocalTable {
    /// The address of the table's elements.
    pub base: usize,
    /// The number of elements (not a size in bytes).
    pub count: usize,
    /// The table that this represents.
    pub table: usize,
}

impl LocalTable {
    pub fn offset_base() -> (r: u8)
        ensures
            r as nat == record_offset(local_table_layout(), 0),
            r == 0,
    {
        proof {
            lemma_offset_stability();
        }
        0 * word_size()
    }

    pub fn offset_count() -> (r: u8)
        ensures
            r as nat == record_offset(local_table_layout(), 1),
            r as nat == word(),
    {
        proof {
            lemma_offset_stability();
        }
        word_size()
    }

    pub fn size() -> (r: u8)
        ensures
            r as nat == record_offset(local_table_layout(), 3),
            r as nat == 3 * word(),
    {
        proof {
            reveal_with_fuel(record_offset, 4);
        }
        3 * word_size()
    }
}

/// A linear memory as generated code sees it.
#[derive(Debug, Clone, Copy)]
pub struct LocalMemory {
    /// The address of the memory's first byte.
    pub base: usize,
    /// The current size of the memory in bytes.
    pub bound: usize,
    /// The memory that this represents.
    pub memory: usize,
}

impl LocalMemory {
    pub fn offset_base() -> (r: u8)
        ensures
            r as nat == record_offset(local_memory_layout(), 0),
            r == 0,
    {
        proof {
            lemma_offset_stability();
        }
        0 * word_size()
    }

    pub fn offset_bound() -> (r: u8)
        ensures
            r as nat == record_offset(local_memory_layout(), 1),
            r as nat == word(),
    {
        proof {
            lemma_offset_stability();
        }
        word_size()
    }

    pub fn size() -> (r: u8)
        ensures
            r as nat == record_offset(local_memory_layout(), 3),
            r as nat == 3 * word(),
    {
        proof {
            reveal_with_fuel(record_offset, 4);
        }
        3 * word_size()
    }
}

/// A global as generated code sees it.
#[derive(Debug, Clone, Copy)]
pub struct LocalGlobal {
    pub data: u64,
}

impl LocalGlobal {
    pub fn offset_data() -> (r: u8)
        ensures
            r as nat == record_offset(local_global_layout(), 0),
            r == 0,
    {
        proof {
            lemma_offset_stability();
        }
        0 * word_size()
    }

    pub fn null() -> (r: Self)
        ensures
            r.data == 0,
    {
        Self { data: 0 }
    }

    pub fn size() -> (r: u8)
        ensures
            r as nat == record_offset(local_global_layout(), 1),
            r == 8,
    {
        proof {
            reveal_with_fuel(record_offset, 2);
        }
        8
    }
}

/// A process-wide signature identifier.
#[derive(Debug, Clone, Copy, PartialEq, Eq, Structural)]
pub struct SigId(pub u32);

/// A caller-checked function reference, as stored in a table.
#[derive(Debug, Clone, Copy)]
pub struct Anyfunc {
    pub func: usize,
    pub ctx: usize,
    pub sig_id: SigId,
}

impl Anyfunc {
    /// An empty table slot: no function, and a signature id that no signature is given.
    pub fn null() -> (r: Self)
        ensures
            r.func == 0,
            r.ctx == 0,
            r.sig_id == SigId(u32::MAX),
    {
        Self { func: 0, ctx: 0, sig_id: SigId(u32::MAX) }
    }

    pub fn offset_func() -> (r: u8)
        ensures
            r as nat == record_offset(anyfunc_layout(), 0),
            r == 0,
    {
        proof {
            lemma_offset_stability();
        }
        0 * word_size()
    }

    pub fn offset_ctx() -> (r: u8)
        ensures
            r as nat == record_offset(anyfunc_layout(), 1),
            r as nat == word(),
    {
        proof {
            lemma_offset_stability();
        }
        word_size()
    }

    pub fn offset_sig_id() -> (r: u8)
        ensures
            r as nat == record_offset(anyfunc_layout(), 2),
            r as nat == 2 * word(),
    {
        proof {
            lemma_offset_stability();
        }
        2 * word_size()
    }

    pub fn size() -> (r: u8)
        ensures
            r as nat == record_offset(anyfunc_layout(), 3),
            r as nat == 3 * word(),
    {
        proof {
            reveal_with_fuel(record_offset, 4);
        }
        3 * word_size()
    }
}

} // verus!
