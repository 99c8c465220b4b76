use vstd::prelude::*;

verus! {

/// An index of one of the module's index spaces, split at the number of imports of its
/// kind: imports come first, then the module's own items.
#[derive(Debug, Clone, Copy, PartialEq, Eq, Structural)]
pub enum LocalOrImport {
    Local(usize),
    Import(usize),
}

/// Classifies `index` in an index space whose first `import_count` entries are imported.
pub fn local_or_import(index: usize, import_count: usize) -> (r: LocalOrImport)
    ensures
        index < import_count ==> r == LocalOrImport::Import(index),
        index >= import_count ==> r == LocalOrImport::Local((index - import_count) as usize),
{
    if index < import_count {
        LocalOrImport::Import(index)
    } else {
        LocalOrImport::Local(index - import_count)
    }
}

/// The type of a wasm value.
#[derive(Debug, Clone, Copy, PartialEq, Eq, Structural)]
pub enum Type {
    I32,
    I64,
    F32,
    F64,
}

/// A wasm value. A float is held as the bits of its IEEE 754 encoding.
#[derive(Debug, Clone, Copy, PartialEq, Eq, Structural)]
pub enum Value {
    I32(i32),
    I64(i64),
    F32(u32),
    F64(u64),
}

impl Value {
    pub open spec fn spec_ty(&self) -> Type {
        match self {
            Value::I32(_) => Type::I32,
            Value::I64(_) => Type::I64,
            Value::F32(_) => Type::F32,
            Value::F64(_) => Type::F64,
        }
    }

    pub fn ty(&self) -> (r: Type)
        ensures
            r == self.spec_ty(),
    {
        match self {
            Value::I32(_) => Type::I32,
            Value::I64(_) => Type::I64,
            Value::F32(_) => Type::F32,
            Value::F64(_) => Type::F64,
        }
    }
}

/// The types of a function's parameters and results, as plain sequences.
pub struct SigView {
    pub params: Seq<Type>,
    pub results: Seq<Type>,
}

/// The signature of a function: parameter types, and result types (at most one in practice).
#[derive(Debug, Clone)]
pub struct FuncSig {
    params: Vec<Type>,
    results: Vec<Type>,
}

impl View for FuncSig {
    type V = SigView;

    closed spec fn view(&self) -> SigView {
        SigView { params: self.params@, results: self.results@ }
    }
}

/// Whether the types of `args` are, one for one, the types in `params`.
pub open spec fn args_match(params: Seq<Type>, args: Seq<Value>) -> bool {
    &&& params.len() == args.len()
    &&& forall|i: int| 0 <= i < args.len() ==> #[trigger] args[i].spec_ty() == params[i]
}

fn same_types(a: &Vec<Type>, b: &Vec<Type>) -> (r: bool)
    ensures
        r == (a@ == b@),
{
    if a.len() != b.len() {
        return false;
    }
    let mut i: usize = 0;
    while i < a.len()
        invariant
            a@.len() == b@.len(),
            i <= a@.len(),
            forall|j: int| 0 <= j < i ==> a@[j] == b@[j],
        decreases a@.len() - i,
    {
        if a[i] != b[i] {
            return false;
        }
        i = i + 1;
    }
    assert(a@ =~= b@);
    true
}

impl FuncSig {
    pub fn new(params: Vec<Type>, results: Vec<Type>) -> (r: Self)
        ensures
            r@.params == params@,
            r@.results == results@,
    {
        FuncSig { params, results }
    }

    pub fn params(&self) -> (r: &[Type])
        ensures
            r@ == self@.params,
    {
        self.params.as_slice()
    }

    pub fn results(&self) -> (r: &[Type])
        ensures
            r@ == self@.results,
    {
        self.results.as_slice()
    }

    /// A copy of this signature.
    pub fn duplicate(&self) -> (r: FuncSig)
        ensures
            r@ == self@,
    {
        let params = self.params.clone();
        let results = self.results.clone();
        assert(params@ =~= self.params@);
        assert(results@ =~= self.results@);
        FuncSig { params, results }
    }

    /// Whether two signatures are structurally equal.
    pub fn same_as(&self, other: &FuncSig) -> (r: bool)
        ensures
            r == (self@ == other@),
    {
        let p = same_types(&self.params, &other.params);
        let q = same_types(&self.results, &other.results);
        proof {
            if p && q {
                assert(self@ == other@);
            }
        }
        p && q
    }

    /// Whether `args` can be passed to a function of this signature.
    pub fn check_param_value_types(&self, args: &[Value]) -> (r: bool)
        ensures
            r == args_match(self@.params, args@),
    {
        if self.params.len() != args.len() {
            return false;
        }
        let mut i: usize = 0;
        while i < args.len()
            invariant
                self.params@.len() == args@.len(),
                i <= args@.len(),
                self@.params == self.params@,
                forall|j: int| 0 <= j < i ==> #[trigger] args@[j].spec_ty() == self.params@[j],
            decreases args@.len() - i,
        {
            if args[i].ty() != self.params[i] {
                return false;
            }
            i = i + 1;
        }
        true
    }
}

/// The index of `s` in `sigs`, or the length of `sigs` when `s` is not there: the id that
/// interning `s` gives.
pub open spec fn interned_id(sigs: Seq<SigView>, s: SigView) -> nat
    decreases sigs.len(),
{
    if sigs.len() == 0 {
        0
    } else if interned_id(sigs.drop_last(), s) < sigs.len() - 1 {
        interned_id(sigs.drop_last(), s)
    } else if sigs.last() == s {
        (sigs.len() - 1) as nat
    } else {
        sigs.len()
    }
}

/// The table after interning `s`: unchanged when `s` is there, else `s` appended.
pub open spec fn interned_after(sigs: Seq<SigView>, s: SigView) -> Seq<SigView> {
    if interned_id(sigs, s) < sigs.len() {
        sigs
    } else {
        sigs.push(s)
    }
}

proof fn lemma_interned_id(sigs: Seq<SigView>, s: SigView)
    ensures
        interned_id(sigs, s) <= sigs.len(),
        interned_id(sigs, s) < sigs.len() ==> sigs[interned_id(sigs, s) as int] == s,
        interned_id(sigs, s) < sigs.len() ==> forall|j: int|
            0 <= j < interned_id(sigs, s) ==> sigs[j] != s,
        interned_id(sigs, s) == sigs.len() ==> forall|j: int| 0 <= j < sigs.len() ==> sigs[j] != s,
    decreases sigs.len(),
{
    if sigs.len() > 0 {
        let d = sigs.drop_last();
        lemma_interned_id(d, s);
        assert forall|j: int| 0 <= j < d.len() implies d[j] == sigs[j] by {}
    }
}

/// Interning is faithful: two signatures interned one after the other into the same table
/// get the same id exactly when they are structurally equal.
pub proof fn lemma_interning_idempotent(sigs: Seq<SigView>, s1: SigView, s2: SigView)
    ensures
        (interned_id(sigs, s1) == interned_id(interned_after(sigs, s1), s2)) <==> (s1 == s2),
{
    let after = interned_after(sigs, s1);
    lemma_interned_id(sigs, s1);
    lemma_interned_id(after, s1);
    lemma_interned_id(after, s2);
    let i1 = interned_id(sigs, s1);
    let i2 = interned_id(after, s2);
    assert(after[i1 as int] == s1);
    if s1 == s2 {
        if i2 < i1 {
            assert(after[i2 as int] == s2);
        }
        if i2 > i1 {
            assert(after[i1 as int] != s2);
        }
    } else {
        if i1 == i2 {
            assert(after[i2 as int] == s2);
        }
    }
}

/// The table that gives each distinct signature a process-wide id.
pub struct SigRegistry {
    sigs: Vec<FuncSig>,
}

impl SigRegistry {
    pub closed spec fn table(&self) -> Seq<SigView> {
        self.sigs@.map_values(|f: FuncSig| f@)
    }

    pub fn new() -> (r: Self)
        ensures
            r.table().len() == 0,
    {
        SigRegistry { sigs: Vec::new() }
    }

    /// The id of `sig`, giving it a new one if no equal signature has one yet.
    pub fn lookup_sig_index(&mut self, sig: &FuncSig) -> (r: u32)
        requires
            old(self).table().len() < u32::MAX,
        ensures
            r == interned_id(old(self).table(), sig@),
            final(self).table() == interned_after(old(self).table(), sig@),
    {
        proof {
            lemma_interned_id(self.table(), sig@);
        }
        let mut i: usize = 0;
        while i < self.sigs.len()
            invariant
                i <= self.table().len(),
                self.table().len() == self.sigs@.len(),
                *self == *old(self),
                self.table().len() < u32::MAX,
                forall|j: int| 0 <= j < i ==> self.table()[j] != sig@,
                interned_id(self.table(), sig@) <= self.table().len(),
                interned_id(self.table(), sig@) < self.table().len() ==> self.table()[interned_id(
                    self.table(),
                    sig@,
                ) as int] == sig@,
                interned_id(self.table(), sig@) < self.table().len() ==> forall|j: int|
                    0 <= j < interned_id(self.table(), sig@) ==> self.table()[j] != sig@,
                interned_id(self.table(), sig@) == self.table().len() ==> forall|j: int|
                    0 <= j < self.table().len() ==> self.table()[j] != sig@,
            decreases self.sigs@.len() - i,
        {
            if self.sigs[i].same_as(sig) {
                assert(self.table()[i as int] == sig@);
                return i as u32;
            }
            i = i + 1;
        }
        let ghost before = self.table();
        self.sigs.push(sig.duplicate());
        proof {
            assert(self.table() =~= before.push(sig@));
        }
        i as u32
    }

    /// The signature with id `index`.
    pub fn lookup_signature(&self, index: u32) -> (r: FuncSig)
        requires
            index < self.table().len(),
        ensures
            r@ == self.table()[index as int],
    {
        self.sigs[index as usize].duplicate()
    }
}

} // verus!
