use wasmer::import::{ImportObject, LinkError, Namespace, NamespaceItem};
use wasmer::instance::{Context, Export, FuncPointer, Instance, ModuleInfo, ResourceIndex};
use wasmer::types::{FuncSig, Type};

fn sig(params: Vec<Type>, results: Vec<Type>) -> FuncSig {
    FuncSig::new(params, results)
}

fn func_export(addr: usize, ctx: usize, s: FuncSig) -> Export {
    Export::Function { func: FuncPointer::new(addr), ctx: Context::External(ctx), signature: s }
}

#[test]
fn namespace_insert_replaces_and_returns_the_old_export() {
    let mut ns = Namespace::new();
    assert!(ns.insert("happy".to_string(), Export::Global(0)).is_none());
    assert!(ns.insert("small".to_string(), Export::Global(2)).is_none());
    let old = ns.insert("happy".to_string(), Export::Global(4));
    assert!(matches!(old, Some(Export::Global(0))));
    assert!(matches!(ns.get_export("happy"), Some(Export::Global(4))));
    assert!(matches!(ns.get_export("small"), Some(Export::Global(2))));
    assert!(ns.get_export("sad").is_none());
}

#[test]
fn import_object_registers_namespaces() {
    let mut imports = ImportObject::new();
    let mut dog = Namespace::new();
    dog.insert("happy".to_string(), Export::Global(0));
    assert!(imports.register("dog".to_string(), NamespaceItem::Namespace(dog)).is_none());
    let mut cat = Namespace::new();
    cat.insert("small".to_string(), Export::Global(3));
    imports.register("cat".to_string(), NamespaceItem::Namespace(cat));
    let cat_ns = imports.get_namespace("cat").unwrap();
    assert!(matches!(cat_ns.get_export("small"), Some(Export::Global(3))));
    let dog_ns = imports.get_namespace("dog").unwrap();
    assert!(dog_ns.get_export("happy").is_some());
    assert!(dog_ns.get_export("small").is_none());
    assert!(imports.get_namespace("cow").is_none());
    let replaced = imports.register("dog".to_string(), NamespaceItem::Namespace(Namespace::new()));
    assert!(matches!(replaced, Some(NamespaceItem::Namespace(_))));
    assert!(imports.get_namespace("dog").unwrap().get_export("happy").is_none());
}

fn sample_instance() -> Instance {
    Instance {
        module: ModuleInfo {
            signatures: vec![sig(vec![Type::I32], vec![Type::I32])],
            func_assoc: vec![0],
            exports: vec![("double".to_string(), ResourceIndex::Func(0)), ("mem".to_string(), ResourceIndex::Memory(0))],
            imported_func_count: 0,
        },
        local_functions: vec![0x4000],
        imported_funcs: vec![],
        ctx: 0x8000,
    }
}

#[test]
fn instances_take_no_additions() {
    let mut item = NamespaceItem::Instance(sample_instance());
    assert_eq!(item.try_insert("x".to_string(), Export::Global(1)), Err(()));
    let mut ns = NamespaceItem::Namespace(Namespace::new());
    assert_eq!(ns.try_insert("x".to_string(), Export::Global(1)), Ok(()));
    assert!(matches!(ns.get_export("x"), Some(Export::Global(1))));
}

#[test]
fn function_imports_resolve_or_fail_to_link() {
    let mut imports = ImportObject::new();
    let mut env = Namespace::new();
    env.insert("f".to_string(), func_export(0x100, 0x200, sig(vec![Type::I32], vec![])));
    env.insert("g".to_string(), Export::Table(0));
    imports.register("env".to_string(), NamespaceItem::Namespace(env));
    imports.register("other".to_string(), NamespaceItem::Instance(sample_instance()));
    let want = sig(vec![Type::I32], vec![]);
    assert_eq!(imports.resolve_function("env", "f", &want), Ok((FuncPointer::new(0x100), Context::External(0x200))));
    assert!(matches!(imports.resolve_function("env", "f", &sig(vec![], vec![])), Err(LinkError::IncorrectImportSignature { .. })));
    assert!(matches!(imports.resolve_function("env", "g", &want), Err(LinkError::IncorrectImportType { .. })));
    assert!(matches!(imports.resolve_function("env", "h", &want), Err(LinkError::ImportNotFound { .. })));
    assert!(matches!(imports.resolve_function("nowhere", "f", &want), Err(LinkError::ImportNotFound { .. })));
    let double = sig(vec![Type::I32], vec![Type::I32]);
    assert_eq!(imports.resolve_function("other", "double", &double), Ok((FuncPointer::new(0x4000), Context::External(0x8000))));
    assert!(matches!(imports.resolve_function("other", "mem", &double), Err(LinkError::IncorrectImportType { .. })));
}
