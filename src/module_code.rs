use vstd::prelude::*;
use crate::emit::{BinOp, Instr, Location, Size, GPR};
use crate::vm::{word, Ctx, ImportedFunc};

verus! {

broadcast use vstd::std_specs::hash::group_hash_axioms;

/// A failure of code generation.
#[derive(Debug, Clone, PartialEq, Eq)]
pub struct CodegenError {
    pub message: &'static str,
}

/// The labels of a module's functions, keyed by function index: the code offset where each
/// function's body was bound, once it is.
pub struct LabelTable {
    labels: std::collections::HashMap<usize, Option<usize>>,
}

/// What finalizing a label table of `n` labels with entries `m` gives from function `i` on,
/// in a buffer at `base`: the entry pointers, or the first failure, either an index without
/// a label or a label never bound.
pub open spec fn finalize_from(m: Map<usize, Option<usize>>, i: nat, n: nat, base: usize) -> Result<
    Seq<usize>,
    &'static str,
>
    decreases n - i,
{
    if i >= n {
        Ok(Seq::empty())
    } else if !m.contains_key(i as usize) {
        Err("label not found")
    } else if m[i as usize] is None {
        Err("offset is none")
    } else {
        match finalize_from(m, i + 1, n, base) {
            Ok(rest) => Ok(seq![(base + m[i as usize]->0) as usize] + rest),
            Err(e) => Err(e),
        }
    }
}

/// What binding each `(function index, offset)` of `binds` in turn makes of a label map.
pub open spec fn apply_binds(m: Map<usize, Option<usize>>, binds: Seq<(usize, usize)>) -> Map<
    usize,
    Option<usize>,
>
    decreases binds.len(),
{
    if binds.len() == 0 {
        m
    } else {
        apply_binds(m, binds.drop_last()).insert(binds.last().0, Some(binds.last().1))
    }
}

impl LabelTable {
    pub closed spec fn entries(&self) -> Map<usize, Option<usize>> {
        self.labels@
    }

    /// Every bound label lies where `base` plus its offset fits a machine word.
    pub open spec fn fits(&self, base: usize) -> bool {
        forall|k: usize|
            #[trigger] self.entries().contains_key(k) && self.entries()[k] is Some ==> base
                + self.entries()[k]->0 <= usize::MAX
    }

    pub fn new() -> (r: Self)
        ensures
            r.entries() == Map::<usize, Option<usize>>::empty(),
    {
        LabelTable { labels: std::collections::HashMap::new() }
    }

    /// Gives function `index` a label, not bound yet, unless it has one.
    pub fn declare(&mut self, index: usize)
        ensures
            final(self).entries() == if old(self).entries().contains_key(index) {
                old(self).entries()
            } else {
                old(self).entries().insert(index, None)
            },
    {
        if !self.labels.contains_key(&index) {
            self.labels.insert(index, None);
        }
    }

    /// The number of functions with a label.
    pub fn len(&self) -> (r: usize)
        ensures
            r == self.entries().dom().len(),
    {
        self.labels.len()
    }

    /// Binds the label of function `index` at code offset `offset`.
    pub fn bind(&mut self, index: usize, offset: usize)
        ensures
            final(self).entries() == old(self).entries().insert(index, Some(offset)),
    {
        self.labels.insert(index, Some(offset));
    }

    /// The entry pointer of each function, in the buffer that starts at `base`: for each
    /// index below the number of labels, `base` plus the offset its label is bound at.
    pub fn finalize(&self, base: usize) -> (r: Result<Vec<usize>, CodegenError>)
        requires
            self.fits(base),
        ensures
            match finalize_from(self.entries(), 0, self.entries().dom().len(), base) {
                Ok(v) => r matches Ok(out) && out@ == v,
                Err(m) => r matches Err(e) && e.message == m,
            },
    {
        let n = self.labels.len();
        let mut out: Vec<usize> = Vec::new();
        let mut i: usize = 0;
        while i < n
            invariant
                n == self.entries().dom().len(),
                i <= n,
                self.fits(base),
                finalize_from(self.entries(), 0, n as nat, base) == match finalize_from(
                    self.entries(),
                    i as nat,
                    n as nat,
                    base,
                ) {
                    Ok(rest) => Ok(out@ + rest),
                    Err(e) => Err::<Seq<usize>, &'static str>(e),
                },
            decreases n - i,
        {
            let ghost before = out@;
            match self.labels.get(&i) {
                None => {
                    return Err(CodegenError { message: "label not found" });
                },
                Some(None) => {
                    return Err(CodegenError { message: "offset is none" });
                },
                Some(Some(offset)) => {
                    let offset = *offset;
                    assert(self.entries().contains_key(i) && self.entries()[i] is Some);
                    out.push(base + offset);
                    proof {
                        match finalize_from(self.entries(), (i + 1) as nat, n as nat, base) {
                            Ok(rest) => {
                                assert(before + (seq![(base + offset) as usize] + rest) =~= out@
                                    + rest);
                            },
                            Err(_) => {},
                        }
                    }
                },
            }
            i = i + 1;
        }
        assert(out@ + Seq::<usize>::empty() =~= out@);
        Ok(out)
    }
}

/// The module-level state of code generation: the label of every function, how many
/// functions are imported, and how many local functions have begun.
pub struct ModuleCodeGenerator {
    labels: LabelTable,
    func_import_count: usize,
    functions: usize,
    br_table_data: Vec<Vec<usize>>,
}

impl ModuleCodeGenerator {
    pub closed spec fn label_table(&self) -> LabelTable {
        self.labels
    }

    pub closed spec fn import_count(&self) -> nat {
        self.func_import_count as nat
    }

    pub closed spec fn function_count(&self) -> nat {
        self.functions as nat
    }

    /// The jump tables emitted so far, each entry an offset in the code buffer.
    pub closed spec fn br_tables(&self) -> Seq<Seq<usize>> {
        self.br_table_data@.map_values(|t: Vec<usize>| t@)
    }

    /// Every jump-table entry lies where `base` plus its offset fits a machine word.
    pub open spec fn tables_fit(&self, base: usize) -> bool {
        forall|t: int, e: int|
            0 <= t < self.br_tables().len() && 0 <= e < self.br_tables()[t].len() ==> base
                + #[trigger] self.br_tables()[t][e] <= usize::MAX
    }

    /// Keeps a jump table whose entries are offsets in the code buffer, to be made absolute
    /// when the code is finalized.
    pub fn add_br_table(&mut self, table: Vec<usize>)
        ensures
            final(self).br_tables() == old(self).br_tables().push(table@),
            final(self).label_table() == old(self).label_table(),
            final(self).import_count() == old(self).import_count(),
            final(self).function_count() == old(self).function_count(),
    {
        let ghost t = table@;
        self.br_table_data.push(table);
        assert(self.br_tables() =~= old(self).br_tables().push(t));
    }

    pub fn new() -> (r: Self)
        ensures
            r.label_table().entries() == Map::<usize, Option<usize>>::empty(),
            r.import_count() == 0,
            r.function_count() == 0,
            r.br_tables().len() == 0,
    {
        ModuleCodeGenerator {
            labels: LabelTable::new(),
            func_import_count: 0,
            functions: 0,
            br_table_data: Vec::new(),
        }
    }

    /// Emits the trampoline of the next imported function at code offset `offset`: its
    /// label, numbered by how many labels there are, is bound there, and the loads of its
    /// tail call are returned.
    pub fn feed_import_function(&mut self, offset: usize) -> (r: Vec<Instr>)
        requires
            old(self).label_table().entries().dom().len() < 0x800_0000,
            old(self).import_count() < usize::MAX,
        ensures
            ({
                let id = old(self).label_table().entries().dom().len();
                &&& r@ == spec_import_trampoline(id)
                &&& final(self).label_table().entries() == old(self).label_table().entries().insert(
                    id as usize,
                    Some(offset),
                )
                &&& final(self).import_count() == old(self).import_count() + 1
                &&& final(self).function_count() == old(self).function_count()
            }),
    {
        let id = self.labels.len();
        self.labels.bind(id, offset);
        self.func_import_count = self.func_import_count + 1;
        import_trampoline(id)
    }

    /// Begins the next local function at code offset `offset`: its index, after the
    /// imports and the functions before it, is returned, and its label is bound there.
    pub fn next_function(&mut self, offset: usize) -> (r: usize)
        requires
            old(self).function_count() + old(self).import_count() < usize::MAX,
        ensures
            r == old(self).function_count() + old(self).import_count(),
            final(self).label_table().entries() == old(self).label_table().entries().insert(
                r,
                Some(offset),
            ),
            final(self).import_count() == old(self).import_count(),
            final(self).function_count() == old(self).function_count() + 1,
    {
        let id = self.functions + self.func_import_count;
        self.labels.declare(id);
        self.labels.bind(id, offset);
        self.functions = self.functions + 1;
        proof {
            let e = old(self).label_table().entries();
            let d = if e.contains_key(id) {
                e
            } else {
                e.insert(id, None)
            };
            assert(d.insert(id, Some(offset)) =~= e.insert(id, Some(offset)));
        }
        id
    }

    /// The executable view of the code, in the buffer at `base`: the entry pointer of every
    /// function, and the jump tables with absolute addresses. A module without a local
    /// function has no code to finalize.
    pub fn finalize(&self, base: usize) -> (r: Result<ExecutionContext, CodegenError>)
        requires
            self.label_table().fits(base),
            self.tables_fit(base),
        ensures
            self.function_count() == 0 ==> (r matches Err(e) && e.message == "no function"),
            self.function_count() > 0 ==> match finalize_from(
                self.label_table().entries(),
                0,
                self.label_table().entries().dom().len(),
                base,
            ) {
                Ok(v) => r matches Ok(ctx) && ctx.pointers() == v && ctx.import_count()
                    == self.import_count() && ctx.br_tables().len() == self.br_tables().len()
                    && forall|t: int|
                    0 <= t < self.br_tables().len() ==> (#[trigger] ctx.br_tables()[t]).len()
                        == self.br_tables()[t].len() && forall|e: int|
                        0 <= e < self.br_tables()[t].len() ==> #[trigger] ctx.br_tables()[t][e]
                            == base + self.br_tables()[t][e],
                Err(m) => r matches Err(e) && e.message == m,
            },
    {
        if self.functions == 0 {
            return Err(CodegenError { message: "no function" });
        }
        let pointers = self.labels.finalize(base)?;
        proof {
            assert forall|t: int, e: int|
                0 <= t < self.br_table_data@.len() && 0 <= e < self.br_table_data@[t]@.len()
                    implies base + #[trigger] self.br_table_data@[t]@[e] <= usize::MAX by {
                assert(self.br_tables()[t] == self.br_table_data@[t]@);
            }
        }
        let tables = patch_br_tables(&self.br_table_data, base);
        let ctx = ExecutionContext {
            function_pointers: pointers,
            func_import_count: self.func_import_count,
            br_table_data: tables,
        };
        proof {
            assert forall|t: int| 0 <= t < self.br_tables().len() implies (
            #[trigger] ctx.br_tables()[t]).len() == self.br_tables()[t].len() && forall|e: int|
                0 <= e < self.br_tables()[t].len() ==> #[trigger] ctx.br_tables()[t][e] == base
                    + self.br_tables()[t][e] by {
                assert(ctx.br_tables()[t] == tables@[t]@);
                assert(self.br_tables()[t] == self.br_table_data@[t]@);
            }
        }
        Ok(ctx)
    }
}

/// Finalizing the same labels in two buffers gives the same outcome: both succeed or both
/// fail alike, and each function lies at the same distance from the start of its buffer.
pub proof fn lemma_finalize_relative(
    m: Map<usize, Option<usize>>,
    i: nat,
    n: nat,
    b1: usize,
    b2: usize,
)
    requires
        forall|k: usize|
            #[trigger] m.contains_key(k) && m[k] is Some ==> b1 + m[k]->0 <= usize::MAX && b2
                + m[k]->0 <= usize::MAX,
    ensures
        (finalize_from(m, i, n, b1) is Ok) == (finalize_from(m, i, n, b2) is Ok),
        finalize_from(m, i, n, b1) matches Err(e1) ==> finalize_from(m, i, n, b2) == Err::<
            Seq<usize>,
            &'static str,
        >(e1),
        finalize_from(m, i, n, b1) matches Ok(v1) ==> (finalize_from(m, i, n, b2) matches Ok(v2)
            && v1.len() == v2.len() && forall|k: int|
            0 <= k < v1.len() ==> #[trigger] v1[k] - b1 == v2[k] - b2),
    decreases n - i,
{
    if i < n && m.contains_key(i as usize) && m[i as usize] is Some {
        lemma_finalize_relative(m, i + 1, n, b1, b2);
        if let (Ok(r1), Ok(r2)) = (finalize_from(m, i + 1, n, b1), finalize_from(m, i + 1, n, b2)) {
            let v1 = seq![(b1 + m[i as usize]->0) as usize] + r1;
            let v2 = seq![(b2 + m[i as usize]->0) as usize] + r2;
            assert forall|k: int| 0 <= k < v1.len() implies #[trigger] v1[k] - b1 == v2[k] - b2 by {
                if k > 0 {
                    assert(v1[k] == r1[k - 1] && v2[k] == r2[k - 1]);
                }
            }
        }
    }
}

/// Resolution depends on nothing but the binds: two tables that went through the same
/// sequence of binds from empty finalize to the same pointers, or fail alike; so finalizing
/// again, or finalizing a table rebuilt by the same binds, gives the same pointers.
pub proof fn lemma_finalize_deterministic(
    a: LabelTable,
    b: LabelTable,
    binds: Seq<(usize, usize)>,
    base: usize,
)
    requires
        a.entries() == apply_binds(Map::empty(), binds),
        b.entries() == apply_binds(Map::empty(), binds),
    ensures
        finalize_from(a.entries(), 0, a.entries().dom().len(), base) == finalize_from(
            b.entries(),
            0,
            b.entries().dom().len(),
            base,
        ),
        forall|k: usize|
            #[trigger] a.entries().contains_key(k) ==> a.entries()[k] is Some,
{
    lemma_binds_all_bound(binds);
}

proof fn lemma_binds_all_bound(binds: Seq<(usize, usize)>)
    ensures
        forall|k: usize|
            #[trigger] apply_binds(Map::empty(), binds).contains_key(k) ==> apply_binds(
                Map::empty(),
                binds,
            )[k] is Some,
    decreases binds.len(),
{
    if binds.len() > 0 {
        lemma_binds_all_bound(binds.drop_last());
    }
}

/// The loads of the tail-call trampoline of imported function `id`: the imported functions
/// array from the context (in RDI), then the function pointer of entry `id`, both into RAX;
/// the trampoline then jumps through RAX.
pub open spec fn spec_import_trampoline(id: nat) -> Seq<Instr> {
    seq![
        Instr {
            op: BinOp::Mov,
            size: Size::S64,
            src: Location::Memory(GPR::RDI, (6 * word()) as i32),
            dst: Location::GPR(GPR::RAX),
        },
        Instr {
            op: BinOp::Mov,
            size: Size::S64,
            src: Location::Memory(GPR::RAX, (2 * word() * id) as i32),
            dst: Location::GPR(GPR::RAX),
        },
    ]
}

/// Emits the loads of the trampoline of imported function `id`; the entry's displacement
/// must fit the 32 bits that x86-64 encodes.
pub fn import_trampoline(id: usize) -> (r: Vec<Instr>)
    requires
        id < 0x800_0000,
    ensures
        r@ == spec_import_trampoline(id as nat),
{
    let funcs = Ctx::offset_imported_funcs();
    let size = ImportedFunc::size();
    let field = ImportedFunc::offset_func();
    proof {
        assert(word() == 4 || word() == 8) by {
            assert(vstd::layout::size_of::<usize>() * 8 == usize::BITS);
        }
        assert(size as nat * id <= 16 * 0x7ff_ffff) by (nonlinear_arith)
            requires
                size <= 16,
                id < 0x800_0000,
        ;
    }
    let disp: u64 = size as u64 * id as u64 + field as u64;
    let mut r: Vec<Instr> = Vec::new();
    r.push(
        Instr {
            op: BinOp::Mov,
            size: Size::S64,
            src: Location::Memory(GPR::RDI, funcs as i32),
            dst: Location::GPR(GPR::RAX),
        },
    );
    r.push(
        Instr {
            op: BinOp::Mov,
            size: Size::S64,
            src: Location::Memory(GPR::RAX, disp as i32),
            dst: Location::GPR(GPR::RAX),
        },
    );
    assert(r@ =~= spec_import_trampoline(id as nat));
    r
}

/// Turns the offsets recorded in jump tables into absolute addresses in the buffer at `base`.
pub fn patch_br_tables(tables: &Vec<Vec<usize>>, base: usize) -> (r: Vec<Vec<usize>>)
    requires
        forall|t: int, e: int|
            0 <= t < tables@.len() && 0 <= e < tables@[t]@.len() ==> base + #[trigger] tables@[t]@[e]
                <= usize::MAX,
    ensures
        r@.len() == tables@.len(),
        forall|t: int|
            0 <= t < r@.len() ==> (#[trigger] r@[t])@.len() == tables@[t]@.len() && forall|e: int|
                0 <= e < r@[t]@.len() ==> #[trigger] r@[t]@[e] == base + tables@[t]@[e],
{
    let mut out: Vec<Vec<usize>> = Vec::new();
    let mut t: usize = 0;
    while t < tables.len()
        invariant
            t <= tables@.len(),
            out@.len() == t,
            forall|a: int, e: int|
                0 <= a < tables@.len() && 0 <= e < tables@[a]@.len() ==> base
                    + #[trigger] tables@[a]@[e] <= usize::MAX,
            forall|a: int|
                0 <= a < t ==> (#[trigger] out@[a])@.len() == tables@[a]@.len() && forall|e: int|
                    0 <= e < out@[a]@.len() ==> #[trigger] out@[a]@[e] == base + tables@[a]@[e],
        decreases tables@.len() - t,
    {
        let table = &tables[t];
        let mut patched: Vec<usize> = Vec::new();
        let mut e: usize = 0;
        while e < table.len()
            invariant
                t < tables@.len(),
                *table == tables@[t as int],
                e <= table@.len(),
                patched@.len() == e,
                forall|a: int, x: int|
                    0 <= a < tables@.len() && 0 <= x < tables@[a]@.len() ==> base
                        + #[trigger] tables@[a]@[x] <= usize::MAX,
                forall|x: int| 0 <= x < e ==> #[trigger] patched@[x] == base + table@[x],
            decreases table@.len() - e,
        {
            assert(base + tables@[t as int]@[e as int] <= usize::MAX);
            patched.push(base + table[e]);
            e = e + 1;
        }
        out.push(patched);
        t = t + 1;
    }
    out
}

/// The entry points of a compiled module: one pointer per function, imports first.
#[derive(Debug, Clone)]
pub struct ExecutionContext {
    function_pointers: Vec<usize>,
    func_import_count: usize,
    br_table_data: Vec<Vec<usize>>,
}

impl ExecutionContext {
    pub closed spec fn pointers(&self) -> Seq<usize> {
        self.function_pointers@
    }

    pub closed spec fn import_count(&self) -> nat {
        self.func_import_count as nat
    }

    /// The jump tables of the code, with absolute addresses.
    pub closed spec fn br_tables(&self) -> Seq<Seq<usize>> {
        self.br_table_data@.map_values(|t: Vec<usize>| t@)
    }

    pub fn new(function_pointers: Vec<usize>, func_import_count: usize) -> (r: Self)
        ensures
            r.pointers() == function_pointers@,
            r.import_count() == func_import_count,
            r.br_tables().len() == 0,
    {
        ExecutionContext { function_pointers, func_import_count, br_table_data: Vec::new() }
    }

    /// The entry pointer of every function, imports first.
    pub fn function_pointers(&self) -> (r: &Vec<usize>)
        ensures
            r@ == self.pointers(),
    {
        &self.function_pointers
    }

    /// The jump tables of the code.
    pub fn br_table_data(&self) -> (r: &Vec<Vec<usize>>)
        ensures
            r@.map_values(|t: Vec<usize>| t@) == self.br_tables(),
    {
        &self.br_table_data
    }

    /// The entry point of the local function `local_index`: none past the end, nor for a
    /// null pointer.
    pub fn get_func(&self, local_index: usize) -> (r: Option<usize>)
        ensures
            ({
                let i = self.import_count() + local_index;
                r == if i < self.pointers().len() && self.pointers()[i as int] != 0 {
                    Some(self.pointers()[i as int])
                } else {
                    None::<usize>
                }
            }),
    {
        if self.func_import_count > self.function_pointers.len() {
            return None;
        }
        if local_index >= self.function_pointers.len() - self.func_import_count {
            return None;
        }
        let p = self.function_pointers[self.func_import_count + local_index];
        if p == 0 {
            None
        } else {
            Some(p)
        }
    }
}

} // verus!
