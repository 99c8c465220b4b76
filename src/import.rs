use vstd::prelude::*;
use crate::instance::{Context, Export, FuncPointer, Instance, ResourceIndex, find_export};
use crate::types::FuncSig;

verus! {

#[verifier::external_type_specification]
#[verifier::external_body]
#[verifier::reject_recursive_types(K)]
#[verifier::reject_recursive_types(V)]
#[verifier::reject_recursive_types(S)]
pub struct ExHashMap<K, V, S>(hashbrown::HashMap<K, V, S>);


/// A map from a name to the position of what it names.
pub type NameMap = hashbrown::HashMap<String, usize, std::collections::hash_map::RandomState>;

/// What a name map holds: each name with its position.
pub uninterp spec fn name_entries(m: NameMap) -> Map<Seq<char>, usize>;

/// Relies on hashbrown's `Default` for `HashMap`: a new map is empty.
#[verifier::external_body]
fn name_map_new() -> (r: NameMap)
    ensures
        name_entries(r).dom().is_empty(),
{
    hashbrown::HashMap::default()
}

/// Relies on hashbrown::HashMap::insert: afterwards `k` maps to `v`, and every other name to
/// what it mapped to before.
#[verifier::external_body]
fn name_map_insert(m: &mut NameMap, k: String, v: usize)
    ensures
        name_entries(*final(m)) == name_entries(*old(m)).insert(k@, v),
{
    m.insert(k, v);
}

/// Relies on hashbrown::HashMap::get, looking a `String` key up by `&str`: the position that
/// `k` maps to, if any.
#[verifier::external_body]
fn name_map_get(m: &NameMap, k: &str) -> (r: Option<usize>)
    ensures
        r == (if name_entries(*m).contains_key(k@) {
            Some(name_entries(*m)[k@])
        } else {
            None
        }),
{
    m.get(k).copied()
}

impl Export {
    /// A copy of this export.
    pub fn duplicate(&self) -> (r: Export)
        ensures
            r.same(self),
    {
        match self {
            Export::Function { func, ctx, signature } => Export::Function {
                func: *func,
                ctx: *ctx,
                signature: signature.duplicate(),
            },
            Export::Memory(i) => Export::Memory(*i),
            Export::Table(i) => Export::Table(*i),
            Export::Global(i) => Export::Global(*i),
        }
    }

    /// Whether two exports designate the same thing.
    pub open spec fn same(&self, other: &Export) -> bool {
        match (self, other) {
            (
                Export::Function { func: f1, ctx: c1, signature: s1 },
                Export::Function { func: f2, ctx: c2, signature: s2 },
            ) => f1 == f2 && c1 == c2 && s1@ == s2@,
            (Export::Memory(i), Export::Memory(j)) => i == j,
            (Export::Table(i), Export::Table(j)) => i == j,
            (Export::Global(i), Export::Global(j)) => i == j,
            _ => false,
        }
    }
}

/// A set of exports by name, built by the embedder.
pub struct Namespace {
    names: NameMap,
    exports: Vec<Export>,
}

impl Namespace {
    pub closed spec fn names(&self) -> Map<Seq<char>, usize> {
        name_entries(self.names)
    }

    pub closed spec fn slots(&self) -> Seq<Export> {
        self.exports@
    }

    /// Every name designates one of the exports, each its own.
    pub open spec fn wf(&self) -> bool {
        &&& forall|n: Seq<char>|
            #[trigger] self.names().contains_key(n) ==> self.names()[n] < self.slots().len()
        &&& forall|n1: Seq<char>, n2: Seq<char>|
            #[trigger] self.names().contains_key(n1) && #[trigger] self.names().contains_key(n2)
                && self.names()[n1] == self.names()[n2] ==> n1 == n2
    }

    /// The export called `name`, if there is one.
    pub open spec fn lookup(&self, name: Seq<char>) -> Option<Export> {
        if self.names().contains_key(name) {
            Some(self.slots()[self.names()[name] as int])
        } else {
            None
        }
    }

    pub fn new() -> (r: Self)
        ensures
            r.wf(),
            forall|n: Seq<char>| #[trigger] r.lookup(n) is None,
    {
        Namespace { names: name_map_new(), exports: Vec::new() }
    }

    /// Adds `export` under `name`, replacing and returning what was there.
    pub fn insert(&mut self, name: String, export: Export) -> (r: Option<Export>)
        requires
            old(self).wf(),
        ensures
            final(self).wf(),
            r == old(self).lookup(name@),
            final(self).lookup(name@) == Some(export),
            forall|n: Seq<char>| n != name@ ==> #[trigger] final(self).lookup(n) == old(self).lookup(n),
    {
        match name_map_get(&self.names, name.as_str()) {
            Some(i) => {
                let ghost before = self.exports@;
                self.exports.push(export);
                let old_export = self.exports.swap_remove(i);
                proof {
                    assert(self.exports@ =~= before.update(i as int, export));
                    assert(old(self).names().contains_key(name@));
                    assert forall|n: Seq<char>| n != name@ implies #[trigger] self.lookup(n) == old(
                        self,
                    ).lookup(n) by {
                        if self.names().contains_key(n) {
                            let j = self.names()[n];
                            assert(old(self).names().contains_key(n));
                            if j != i {
                                assert(self.exports@[j as int] == before[j as int]);
                            }
                        }
                    }
                    assert forall|n: Seq<char>| #[trigger] self.names().contains_key(n) implies self.names()[n]
                        < self.slots().len() by {}
                }
                Some(old_export)
            },
            None => {
                let i = self.exports.len();
                let ghost before = self.exports@;
                let ghost key = name@;
                self.exports.push(export);
                name_map_insert(&mut self.names, name, i);
                proof {
                    assert forall|n: Seq<char>| n != key implies #[trigger] self.lookup(n) == old(
                        self,
                    ).lookup(n) by {
                        if self.names().contains_key(n) {
                            let j = self.names()[n];
                            assert(old(self).names().contains_key(n));
                            assert(self.exports@[j as int] == before[j as int]);
                        }
                    }
                }
                None
            },
        }
    }

    /// The export called `name`, if there is one.
    pub fn get_export(&self, name: &str) -> (r: Option<&Export>)
        requires
            self.wf(),
        ensures
            r is None <==> self.lookup(name@) is None,
            r matches Some(e) ==> self.lookup(name@) == Some(*e),
    {
        match name_map_get(&self.names, name) {
            Some(i) => Some(&self.exports[i]),
            None => None,
        }
    }
}

/// What an import object holds under a module name: an instance, whose exports it offers,
/// or a namespace.
pub enum NamespaceItem {
    Instance(Instance),
    Namespace(Namespace),
}

impl NamespaceItem {
    pub open spec fn wf(&self) -> bool {
        match self {
            NamespaceItem::Instance(i) => i.wf(),
            NamespaceItem::Namespace(n) => n.wf(),
        }
    }

    /// The export called `name`, if there is one.
    pub fn get_export(&self, name: &str) -> (r: Option<Export>)
        requires
            self.wf(),
        ensures
            self matches NamespaceItem::Namespace(ns) ==> (r is None <==> ns.lookup(name@) is None)
                && (r matches Some(e) ==> e.same(&ns.lookup(name@)->0)),
            self matches NamespaceItem::Instance(inst) ==> (r is Some <==> find_export(
                inst.module.exports@,
                name@,
            ) is Some) && (find_export(inst.module.exports@, name@) matches Some(i) ==> r.unwrap().matches_index(
                &inst,
                i,
            )),
    {
        match self {
            NamespaceItem::Instance(instance) => instance.export(name),
            NamespaceItem::Namespace(namespace) => match namespace.get_export(name) {
                Some(e) => Some(e.duplicate()),
                None => None,
            },
        }
    }

    /// Adds `export` under `name` to a namespace; an instance takes no additions.
    pub fn try_insert(&mut self, name: String, export: Export) -> (r: Result<(), ()>)
        requires
            old(self).wf(),
        ensures
            final(self).wf(),
            *old(self) is Instance ==> r is Err && *final(self) == *old(self),
            *old(self) matches NamespaceItem::Namespace(ns) ==> (r is Ok && (*final(self) matches NamespaceItem::Namespace(
                ns2,
            ) && ns2.lookup(name@) == Some(export) && forall|n: Seq<char>|
                n != name@ ==> #[trigger] ns2.lookup(n) == ns.lookup(n))),
    {
        match self {
            NamespaceItem::Instance(_) => Err(()),
            NamespaceItem::Namespace(ns) => {
                ns.insert(name, export);
                Ok(())
            },
        }
    }
}

/// Why an import could not be resolved.
#[derive(Debug, Clone, PartialEq, Eq)]
pub enum LinkError {
    ImportNotFound { namespace: String, name: String },
    IncorrectImportType { namespace: String, name: String },
    IncorrectImportSignature { namespace: String, name: String },
}

/// The imports that instantiation resolves a module's imports against: module name, then
/// field name, to an export.
pub struct ImportObject {
    names: NameMap,
    items: Vec<NamespaceItem>,
}

impl ImportObject {
    pub closed spec fn names(&self) -> Map<Seq<char>, usize> {
        name_entries(self.names)
    }

    pub closed spec fn slots(&self) -> Seq<NamespaceItem> {
        self.items@
    }

    pub open spec fn wf(&self) -> bool {
        &&& forall|n: Seq<char>|
            #[trigger] self.names().contains_key(n) ==> self.names()[n] < self.slots().len()
        &&& forall|n1: Seq<char>, n2: Seq<char>|
            #[trigger] self.names().contains_key(n1) && #[trigger] self.names().contains_key(n2)
                && self.names()[n1] == self.names()[n2] ==> n1 == n2
        &&& forall|i: int| 0 <= i < self.slots().len() ==> #[trigger] self.slots()[i].wf()
    }

    /// What is registered under `name`, if anything.
    pub open spec fn lookup(&self, name: Seq<char>) -> Option<NamespaceItem> {
        if self.names().contains_key(name) {
            Some(self.slots()[self.names()[name] as int])
        } else {
            None
        }
    }

    pub fn new() -> (r: Self)
        ensures
            r.wf(),
            forall|n: Seq<char>| #[trigger] r.lookup(n) is None,
    {
        ImportObject { names: name_map_new(), items: Vec::new() }
    }

    /// Registers `namespace` under `name`, replacing and returning what was there.
    pub fn register(&mut self, name: String, namespace: NamespaceItem) -> (r: Option<NamespaceItem>)
        requires
            old(self).wf(),
            namespace.wf(),
        ensures
            final(self).wf(),
            r == old(self).lookup(name@),
            final(self).lookup(name@) == Some(namespace),
            forall|n: Seq<char>| n != name@ ==> #[trigger] final(self).lookup(n) == old(self).lookup(n),
    {
        match name_map_get(&self.names, name.as_str()) {
            Some(i) => {
                let ghost before = self.items@;
                self.items.push(namespace);
                let old_item = self.items.swap_remove(i);
                proof {
                    assert(self.items@ =~= before.update(i as int, namespace));
                    assert(old(self).names().contains_key(name@));
                    assert forall|n: Seq<char>| n != name@ implies #[trigger] self.lookup(n) == old(
                        self,
                    ).lookup(n) by {
                        if self.names().contains_key(n) {
                            let j = self.names()[n];
                            assert(old(self).names().contains_key(n));
                            if j != i {
                                assert(self.items@[j as int] == before[j as int]);
                            }
                        }
                    }
                    assert forall|k: int| 0 <= k < self.slots().len() implies #[trigger] self.slots()[k].wf() by {
                        if k != i {
                            assert(self.items@[k] == before[k]);
                        }
                    }
                }
                Some(old_item)
            },
            None => {
                let i = self.items.len();
                let ghost before = self.items@;
                let ghost key = name@;
                self.items.push(namespace);
                name_map_insert(&mut self.names, name, i);
                proof {
                    assert forall|n: Seq<char>| n != key implies #[trigger] self.lookup(n) == old(
                        self,
                    ).lookup(n) by {
                        if self.names().contains_key(n) {
                            let j = self.names()[n];
                            assert(old(self).names().contains_key(n));
                            assert(self.items@[j as int] == before[j as int]);
                        }
                    }
                    assert forall|k: int| 0 <= k < self.slots().len() implies #[trigger] self.slots()[k].wf() by {
                        if k < before.len() {
                            assert(self.items@[k] == before[k]);
                            assert(old(self).slots()[k].wf());
                        } else {
                            assert(self.items@[k] == namespace);
                        }
                    }
                }
                None
            },
        }
    }

    /// What is registered under `namespace`, if anything.
    pub fn get_namespace(&self, namespace: &str) -> (r: Option<&NamespaceItem>)
        requires
            self.wf(),
        ensures
            r is None <==> self.lookup(namespace@) is None,
            r matches Some(item) ==> self.lookup(namespace@) == Some(*item) && item.wf(),
    {
        match name_map_get(&self.names, namespace) {
            Some(i) => Some(&self.items[i]),
            None => None,
        }
    }

    /// Resolves the function import `namespace`.`name` that a module declares with signature
    /// `expected`: its entry point and the context it runs with.
    pub fn resolve_function(&self, namespace: &str, name: &str, expected: &FuncSig) -> (r: Result<
        (FuncPointer, Context),
        LinkError,
    >)
        requires
            self.wf(),
        ensures
            self.lookup(namespace@) is None ==> r matches Err(LinkError::ImportNotFound { .. }),
            self.lookup(namespace@) matches Some(NamespaceItem::Namespace(ns)) ==> match ns.lookup(
                name@,
            ) {
                None => r matches Err(LinkError::ImportNotFound { .. }),
                Some(Export::Function { func, ctx, signature }) => if signature@ == expected@ {
                    r matches Ok((f, c)) && f == func && c == ctx
                } else {
                    r matches Err(LinkError::IncorrectImportSignature { .. })
                },
                Some(_) => r matches Err(LinkError::IncorrectImportType { .. }),
            },
            self.lookup(namespace@) matches Some(NamespaceItem::Instance(inst)) ==> match find_export(
                inst.module.exports@,
                name@,
            ) {
                None => r matches Err(LinkError::ImportNotFound { .. }),
                Some(ResourceIndex::Func(i)) => if inst.module.sig_of(i as int) == expected@ {
                    r matches Ok((f, c)) && f.addr() == inst.spec_func_ptr(i as int) && c
                        == Context::External(inst.spec_func_ctx(i as int))
                } else {
                    r matches Err(LinkError::IncorrectImportSignature { .. })
                },
                Some(_) => r matches Err(LinkError::IncorrectImportType { .. }),
            },
    {
        let item = match self.get_namespace(namespace) {
            Some(item) => item,
            None => {
                return Err(
                    LinkError::ImportNotFound {
                        namespace: namespace.to_owned(),
                        name: name.to_owned(),
                    },
                );
            },
        };
        match item.get_export(name) {
            None => Err(
                LinkError::ImportNotFound { namespace: namespace.to_owned(), name: name.to_owned() },
            ),
            Some(Export::Function { func, ctx, signature }) => {
                if signature.same_as(expected) {
                    Ok((func, ctx))
                } else {
                    Err(
                        LinkError::IncorrectImportSignature {
                            namespace: namespace.to_owned(),
                            name: name.to_owned(),
                        },
                    )
                }
            },
            Some(_) => Err(
                LinkError::IncorrectImportType {
                    namespace: namespace.to_owned(),
                    name: name.to_owned(),
                },
            ),
        }
    }
}

} // verus!
