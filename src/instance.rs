use vstd::prelude::*;
use crate::trap::TrapKind;
use crate::types::{FuncSig, LocalOrImport, SigView, Type, Value, args_match, local_or_import};
use crate::vm::ImportedFunc;

verus! {

/// An index into one of the module's index spaces, tagged with its kind.
#[derive(Debug, Clone, Copy, PartialEq, Eq, Structural)]
pub enum ResourceIndex {
    Func(usize),
    Memory(usize),
    Table(usize),
    Global(usize),
}

/// What a module declares, as the runtime reads it after decoding.
#[derive(Debug)]
pub struct ModuleInfo {
    /// The module's signatures, by signature index.
    pub signatures: Vec<FuncSig>,
    /// The signature index of each function, imports first.
    pub func_assoc: Vec<usize>,
    /// The exports, by name; no name occurs twice.
    pub exports: Vec<(String, ResourceIndex)>,
    /// How many functions are imported.
    pub imported_func_count: usize,
}

/// The export called `name` in `exports`, if there is one.
pub open spec fn find_export(exports: Seq<(String, ResourceIndex)>, name: Seq<char>) -> Option<
    ResourceIndex,
>
    decreases exports.len(),
{
    if exports.len() == 0 {
        None
    } else if exports[0].0@ == name {
        Some(exports[0].1)
    } else {
        find_export(exports.drop_first(), name)
    }
}

impl ModuleInfo {
    /// Every function has a signature, and every exported function exists.
    pub open spec fn wf(&self) -> bool {
        &&& forall|i: int|
            0 <= i < self.func_assoc@.len() ==> #[trigger] self.func_assoc@[i]
                < self.signatures@.len()
        &&& forall|i: int|
            0 <= i < self.exports@.len() ==> (#[trigger] self.exports@[i].1 matches ResourceIndex::Func(
                f,
            ) ==> f < self.func_assoc@.len())
        &&& self.imported_func_count <= self.func_assoc@.len()
    }

    pub open spec fn sig_of(&self, func_index: int) -> SigView {
        self.signatures@[self.func_assoc@[func_index] as int]@
    }

    /// Looks an export up by name.
    pub fn export_index(&self, name: &str) -> (r: Option<ResourceIndex>)
        requires
            self.wf(),
        ensures
            r == find_export(self.exports@, name@),
            r matches Some(ResourceIndex::Func(f)) ==> f < self.func_assoc@.len(),
    {
        let wanted = name.to_owned();
        let mut i: usize = 0;
        assert(self.exports@.subrange(0, self.exports@.len() as int) =~= self.exports@);
        while i < self.exports.len()
            invariant
                self.wf(),
                wanted@ == name@,
                i <= self.exports@.len(),
                find_export(self.exports@, name@) == find_export(
                    self.exports@.subrange(i as int, self.exports@.len() as int),
                    name@,
                ),
            decreases self.exports@.len() - i,
        {
            let ghost rest = self.exports@.subrange(i as int, self.exports@.len() as int);
            assert(rest.drop_first() =~= self.exports@.subrange(
                i + 1,
                self.exports@.len() as int,
            ));
            if self.exports[i].0 == wanted {
                assert(self.exports@[i as int].1 == rest[0].1);
                return Some(self.exports[i].1);
            }
            i = i + 1;
        }
        None
    }
}

/// Why a name could not be resolved to something callable.
#[derive(Debug)]
pub enum ResolveError {
    /// The arguments' types are not the signature's parameters.
    Signature { expected: FuncSig, found: Vec<Type> },
    ExportNotFound { name: String },
    ExportWrongType { name: String },
}

/// Why a call failed.
#[derive(Debug)]
pub enum CallError {
    Resolve(ResolveError),
    Runtime(TrapKind),
}

/// The context that an exported function runs with.
#[derive(Debug, Clone, Copy, PartialEq, Eq, Structural)]
pub enum Context {
    /// The context at this address.
    External(usize),
    /// The context of the instance that the function is looked up in.
    Internal,
}

/// The entry point of a function.
#[derive(Debug, Clone, Copy, PartialEq, Eq, Structural)]
pub struct FuncPointer(usize);

impl FuncPointer {
    pub closed spec fn addr(&self) -> usize {
        self.0
    }

    /// Wraps an entry point; nothing checks that it is one, or of which signature.
    pub fn new(f: usize) -> (r: Self)
        ensures
            r.addr() == f,
    {
        FuncPointer(f)
    }

    pub fn inner(&self) -> (r: usize)
        ensures
            r == self.addr(),
    {
        self.0
    }
}

/// What an export is.
#[derive(Debug)]
pub enum Export {
    /// A function: its entry point, the context it runs with, and its signature.
    Function { func: FuncPointer, ctx: Context, signature: FuncSig },
    Memory(usize),
    Table(usize),
    Global(usize),
}

/// A call that is ready to be made: the entry point, the context that goes in the first
/// argument register, and the checked arguments.
#[derive(Debug)]
pub struct Invocation {
    pub func_index: usize,
    pub func: usize,
    pub ctx: usize,
    pub args: Vec<Value>,
}

/// An instance of a module: its own context and the entry points its functions resolve to.
#[derive(Debug)]
pub struct Instance {
    pub module: ModuleInfo,
    /// The entry point of each local function.
    pub local_functions: Vec<usize>,
    /// The imported functions, with the contexts that own them.
    pub imported_funcs: Vec<ImportedFunc>,
    /// The address of this instance's context.
    pub ctx: usize,
}

fn types_equal(a: &[Type], b: &[Type]) -> (r: bool)
    ensures
        r == (a@ == b@),
{
    if a.len() != b.len() {
        return false;
    }
    let mut i: usize = 0;
    while i < a.len()
        invariant
            a@.len() == b@.len(),
            i <= a@.len(),
            forall|j: int| 0 <= j < i ==> a@[j] == b@[j],
        decreases a@.len() - i,
    {
        if a[i] != b[i] {
            return false;
        }
        i = i + 1;
    }
    assert(a@ =~= b@);
    true
}

fn slice_to_vec_types(a: &[Type]) -> (r: Vec<Type>)
    ensures
        r@ == a@,
{
    vstd::slice::slice_to_vec(a)
}

/// A function of an instance resolved with its parameter and result types fixed: its
/// entry point and the context it runs with, for calls without a check per call.
#[derive(Debug)]
pub struct TypedFunc {
    pub func_index: usize,
    pub func: usize,
    pub ctx: usize,
}

/// A function of an instance, resolved by name, to be called with arguments checked at each
/// call.
#[derive(Debug)]
pub struct DynFunc<'a> {
    signature: FuncSig,
    instance: &'a Instance,
    func_index: usize,
}

impl Instance {
    pub open spec fn wf(&self) -> bool {
        &&& self.module.wf()
        &&& self.imported_funcs@.len() == self.module.imported_func_count
        &&& self.local_functions@.len() + self.module.imported_func_count
            == self.module.func_assoc@.len()
    }

    /// The entry point of function `f`: an import's own pointer, or the local entry.
    pub open spec fn spec_func_ptr(&self, f: int) -> usize {
        if f < self.module.imported_func_count {
            self.imported_funcs@[f].func
        } else {
            self.local_functions@[f - self.module.imported_func_count]
        }
    }

    /// The context that function `f` runs with: the importing instance's for an import, this
    /// instance's own for a local function.
    pub open spec fn spec_func_ctx(&self, f: int) -> usize {
        if f < self.module.imported_func_count {
            self.imported_funcs@[f].ctx
        } else {
            self.ctx
        }
    }

    fn func_ptr_and_ctx(&self, func_index: usize) -> (r: (usize, usize))
        requires
            self.wf(),
            func_index < self.module.func_assoc@.len(),
        ensures
            r.0 == self.spec_func_ptr(func_index as int),
            r.1 == self.spec_func_ctx(func_index as int),
    {
        match local_or_import(func_index, self.module.imported_func_count) {
            LocalOrImport::Import(i) => {
                let f = self.imported_funcs[i];
                (f.func, f.ctx)
            },
            LocalOrImport::Local(i) => (self.local_functions[i], self.ctx),
        }
    }

    /// Resolves the exported function `name` as one taking `params` and giving `results`.
    pub fn func(&self, name: &str, params: &[Type], results: &[Type]) -> (r: Result<
        TypedFunc,
        ResolveError,
    >)
        requires
            self.wf(),
        ensures
            match find_export(self.module.exports@, name@) {
                None => r matches Err(ResolveError::ExportNotFound { name: n }) && n@ == name@,
                Some(ResourceIndex::Func(f)) => if self.module.sig_of(f as int).params == params@
                    && self.module.sig_of(f as int).results == results@ {
                    r matches Ok(t) && t.func_index == f && t.func == self.spec_func_ptr(f as int)
                        && t.ctx == self.spec_func_ctx(f as int)
                } else {
                    r matches Err(ResolveError::Signature { expected, found }) && expected@
                        == self.module.sig_of(f as int) && found@ == params@
                },
                Some(_) => r matches Err(ResolveError::ExportWrongType { name: n }) && n@ == name@,
            },
    {
        match self.module.export_index(name) {
            None => Err(ResolveError::ExportNotFound { name: name.to_owned() }),
            Some(ResourceIndex::Func(func_index)) => {
                let sig_index = self.module.func_assoc[func_index];
                let signature = &self.module.signatures[sig_index];
                if !types_equal(signature.params(), params) || !types_equal(
                    signature.results(),
                    results,
                ) {
                    return Err(
                        ResolveError::Signature {
                            expected: signature.duplicate(),
                            found: slice_to_vec_types(params),
                        },
                    );
                }
                let (func, ctx) = self.func_ptr_and_ctx(func_index);
                Ok(TypedFunc { func_index, func, ctx })
            },
            Some(_) => Err(ResolveError::ExportWrongType { name: name.to_owned() }),
        }
    }

    /// Resolves the exported function `name`.
    pub fn dyn_func(&self, name: &str) -> (r: Result<DynFunc<'_>, ResolveError>)
        requires
            self.wf(),
        ensures
            match find_export(self.module.exports@, name@) {
                None => r matches Err(ResolveError::ExportNotFound { name: n }) && n@ == name@,
                Some(ResourceIndex::Func(f)) => r matches Ok(d) && d.index() == f
                    && d.signature_view() == self.module.sig_of(f as int),
                Some(_) => r matches Err(ResolveError::ExportWrongType { name: n }) && n@ == name@,
            },
    {
        match self.module.export_index(name) {
            None => Err(ResolveError::ExportNotFound { name: name.to_owned() }),
            Some(ResourceIndex::Func(func_index)) => {
                let sig_index = self.module.func_assoc[func_index];
                let signature = self.module.signatures[sig_index].duplicate();
                Ok(DynFunc { signature, instance: self, func_index })
            },
            Some(_) => Err(ResolveError::ExportWrongType { name: name.to_owned() }),
        }
    }

    /// Prepares a call of the exported function `name` with `args`: resolves the name, checks
    /// the arguments against the signature, and gives the entry point and context to run.
    pub fn call(&self, name: &str, args: &[Value]) -> (r: Result<Invocation, CallError>)
        requires
            self.wf(),
        ensures
            match find_export(self.module.exports@, name@) {
                None => r matches Err(CallError::Resolve(ResolveError::ExportNotFound { name: n }))
                    && n@ == name@,
                Some(ResourceIndex::Func(f)) => if args_match(
                    self.module.sig_of(f as int).params,
                    args@,
                ) {
                    r matches Ok(inv) && inv.func_index == f && inv.func == self.spec_func_ptr(
                        f as int,
                    ) && inv.ctx == self.spec_func_ctx(f as int) && inv.args@ == args@
                } else {
                    r matches Err(CallError::Resolve(ResolveError::Signature { expected, found }))
                        && expected@ == self.module.sig_of(f as int) && found@ == arg_types(args@)
                },
                Some(_) => r matches Err(CallError::Resolve(ResolveError::ExportWrongType { name: n }))
                    && n@ == name@,
            },
    {
        let func_index = match self.module.export_index(name) {
            None => {
                return Err(CallError::Resolve(ResolveError::ExportNotFound { name: name.to_owned() }));
            },
            Some(ResourceIndex::Func(func_index)) => func_index,
            Some(_) => {
                return Err(
                    CallError::Resolve(ResolveError::ExportWrongType { name: name.to_owned() }),
                );
            },
        };
        self.call_with_index(func_index, args)
    }

    /// Prepares a call of function `func_index` with `args`.
    pub fn call_with_index(&self, func_index: usize, args: &[Value]) -> (r: Result<
        Invocation,
        CallError,
    >)
        requires
            self.wf(),
            func_index < self.module.func_assoc@.len(),
        ensures
            if args_match(self.module.sig_of(func_index as int).params, args@) {
                r matches Ok(inv) && inv.func_index == func_index && inv.func == self.spec_func_ptr(
                    func_index as int,
                ) && inv.ctx == self.spec_func_ctx(func_index as int) && inv.args@ == args@
            } else {
                r matches Err(CallError::Resolve(ResolveError::Signature { expected, found }))
                    && expected@ == self.module.sig_of(func_index as int) && found@ == arg_types(
                    args@,
                )
            },
    {
        let sig_index = self.module.func_assoc[func_index];
        let signature = &self.module.signatures[sig_index];
        if !signature.check_param_value_types(args) {
            return Err(
                CallError::Resolve(
                    ResolveError::Signature {
                        expected: signature.duplicate(),
                        found: types_of(args),
                    },
                ),
            );
        }
        let (func, ctx) = self.func_ptr_and_ctx(func_index);
        Ok(Invocation { func_index, func, ctx, args: vstd::slice::slice_to_vec(args) })
    }

    /// The export called `name`, if there is one.
    pub fn export(&self, name: &str) -> (r: Option<Export>)
        requires
            self.wf(),
        ensures
            r is Some <==> find_export(self.module.exports@, name@) is Some,
            find_export(self.module.exports@, name@) matches Some(i) ==> r.unwrap().matches_index(
                self,
                i,
            ),
    {
        match self.module.export_index(name) {
            Some(index) => Some(self.get_export_from_index(&index)),
            None => None,
        }
    }

    /// The export that `export_index` designates.
    pub fn get_export_from_index(&self, export_index: &ResourceIndex) -> (r: Export)
        requires
            self.wf(),
            export_index matches ResourceIndex::Func(f) ==> f < self.module.func_assoc@.len(),
        ensures
            r.matches_index(self, *export_index),
    {
        match *export_index {
            ResourceIndex::Func(func_index) => {
                let (func, ctx) = self.func_ptr_and_ctx(func_index);
                let sig_index = self.module.func_assoc[func_index];
                let signature = self.module.signatures[sig_index].duplicate();
                Export::Function { func: FuncPointer::new(func), ctx: Context::External(ctx), signature }
            },
            ResourceIndex::Memory(i) => Export::Memory(i),
            ResourceIndex::Global(i) => Export::Global(i),
            ResourceIndex::Table(i) => Export::Table(i),
        }
    }
}

impl Export {
    /// Whether this export is what `index` designates in `inst`.
    pub open spec fn matches_index(&self, inst: &Instance, index: ResourceIndex) -> bool {
        match index {
            ResourceIndex::Func(f) => self matches Export::Function { func, ctx, signature }
                && func.addr() == inst.spec_func_ptr(f as int) && ctx == Context::External(
                inst.spec_func_ctx(f as int),
            ) && signature@ == inst.module.sig_of(f as int),
            ResourceIndex::Memory(i) => self matches Export::Memory(j) && i == j,
            ResourceIndex::Table(i) => self matches Export::Table(j) && i == j,
            ResourceIndex::Global(i) => self matches Export::Global(j) && i == j,
        }
    }
}

/// The types of the values `args`, in order.
pub open spec fn arg_types(args: Seq<Value>) -> Seq<Type> {
    args.map_values(|v: Value| v.spec_ty())
}

fn types_of(args: &[Value]) -> (r: Vec<Type>)
    ensures
        r@ == arg_types(args@),
{
    let mut out: Vec<Type> = Vec::new();
    let mut i: usize = 0;
    while i < args.len()
        invariant
            i <= args@.len(),
            out@.len() == i,
            forall|k: int| 0 <= k < i ==> out@[k] == #[trigger] args@[k].spec_ty(),
        decreases args@.len() - i,
    {
        out.push(args[i].ty());
        i = i + 1;
    }
    assert(out@ =~= arg_types(args@));
    out
}

impl<'a> DynFunc<'a> {
    pub closed spec fn index(&self) -> usize {
        self.func_index
    }

    pub closed spec fn signature_view(&self) -> SigView {
        self.signature@
    }

    pub closed spec fn owner(&self) -> &'a Instance {
        self.instance
    }

    /// The function is one of its instance's functions.
    pub closed spec fn wf(&self) -> bool {
        &&& self.instance.wf()
        &&& self.func_index < self.instance.module.func_assoc@.len()
        &&& self.signature@ == self.instance.module.sig_of(self.func_index as int)
    }

    /// Prepares a call with `params`, checked against the signature.
    pub fn call(&self, params: &[Value]) -> (r: Result<Invocation, CallError>)
        requires
            self.wf(),
        ensures
            if args_match(self.signature_view().params, params@) {
                r matches Ok(inv) && inv.func_index == self.index() && inv.func
                    == self.owner().spec_func_ptr(self.index() as int) && inv.ctx
                    == self.owner().spec_func_ctx(self.index() as int) && inv.args@ == params@
            } else {
                r matches Err(CallError::Resolve(ResolveError::Signature { expected, found }))
                    && expected@ == self.signature_view() && found@ == arg_types(params@)
            },
    {
        self.instance.call_with_index(self.func_index, params)
    }

    pub fn signature(&self) -> (r: &FuncSig)
        ensures
            r@ == self.signature_view(),
    {
        &self.signature
    }

    /// The entry point of the function.
    pub fn raw(&self) -> (r: usize)
        requires
            self.wf(),
        ensures
            r == self.owner().spec_func_ptr(self.index() as int),
    {
        self.instance.func_ptr_and_ctx(self.func_index).0
    }
}

} // verus!
