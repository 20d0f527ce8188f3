use kernc::driver::context::Context;
use kernc::parser::ast::NodeId;
use kernc::parser::ast::{UseMember, UsePathKind, UseTarget};
use kernc::sema::resolve_imports::{check_visibility, resolve_all, resolve_single_import, ImportDef};
use kernc::sema::resolve_path::{resolve_import_path, resolve_path_type, DefLink};
use kernc::sema::scope::{ScopeId, SymbolInfo, SymbolKind};
use kernc::sema::ty::{DefId, PrimitiveType, TypeId, TypeKind};
use kernc::utils::{Span, SymbolId};

fn sym(kind: SymbolKind, ty: TypeId, def: Option<u32>) -> SymbolInfo {
    SymbolInfo {
        kind,
        node_id: NodeId(0),
        type_id: ty,
        def_id: def.map(DefId),
        span: Span::new(0, 1),
        is_pub: true,
    }
}

fn last_message(ctx: &Context) -> String {
    ctx.diagnostics.last().map(|d| d.message.clone()).unwrap_or_default()
}

fn resolve(ctx: &mut Context, defs: &Vec<DefLink>, path: &[&str], generics: Vec<TypeId>) -> TypeId {
    let segs: Vec<SymbolId> = path.iter().map(|s| ctx.intern(s)).collect();
    resolve_path_type(ctx, defs, &segs, generics, ScopeId(0), Span::new(3, 7))
}

#[test]
fn path_builtin_primitive() {
    let mut ctx = Context::new(false);
    let defs = Vec::new();
    let i32_ty = TypeId::primitive(PrimitiveType::I32);
    assert_eq!(resolve(&mut ctx, &defs, &["i32"], Vec::new()), i32_ty);
    assert_eq!(ctx.diagnostics.len(), 0);
    assert_eq!(resolve(&mut ctx, &defs, &["i32"], vec![i32_ty]), i32_ty);
    assert_eq!(last_message(&ctx), "Primitive types do not take generic arguments");
    assert_eq!(ctx.error_count, 1);
}

#[test]
fn path_missing_and_not_module() {
    let mut ctx = Context::new(false);
    let x = ctx.intern("x");
    ctx.scopes.define(x, sym(SymbolKind::Var, TypeId::error(), None)).unwrap();
    let defs = Vec::new();
    assert_eq!(resolve(&mut ctx, &defs, &["Foo"], Vec::new()), TypeId::error());
    assert_eq!(last_message(&ctx), "Cannot find type `Foo` in this scope");
    assert_eq!(resolve(&mut ctx, &defs, &["x", "y"], Vec::new()), TypeId::error());
    assert_eq!(last_message(&ctx), "`x` is not a module");
    assert_eq!(resolve(&mut ctx, &defs, &["x"], Vec::new()), TypeId::error());
    assert_eq!(last_message(&ctx), "`x` is a variable, not a type");
    assert_eq!(ctx.error_count, 3);
    assert_eq!(ctx.scopes.current_scope_id(), Some(ScopeId(0)));
}

#[test]
fn path_through_module() {
    let mut ctx = Context::new(false);
    let m = ctx.intern("m");
    let t = ctx.intern("T");
    ctx.scopes.define(m, sym(SymbolKind::Module, TypeId::error(), Some(0))).unwrap();
    let inner = ctx.scopes.enter_scope();
    ctx.scopes.define(t, sym(SymbolKind::Struct, TypeId::error(), Some(1))).unwrap();
    ctx.scopes.exit_scope();
    let defs = vec![DefLink::Module { scope: inner, parent: None, name: m, imports: Vec::new() }, DefLink::Item { is_pub: true }];
    let r = resolve(&mut ctx, &defs, &["m", "T"], Vec::new());
    assert_eq!(r, TypeId(18));
    assert_eq!(ctx.type_registry.get(r), &TypeKind::Def(DefId(1), Vec::new()));
    assert_eq!(ctx.diagnostics.len(), 0);
    // The same path gives the same type again.
    assert_eq!(resolve(&mut ctx, &defs, &["m", "T"], Vec::new()), r);
    assert_eq!(resolve(&mut ctx, &defs, &["m", "U"], Vec::new()), TypeId::error());
    assert_eq!(last_message(&ctx), "Cannot find `U` in the target module");
    // A later segment is looked up in the module only, not around it.
    assert_eq!(resolve(&mut ctx, &defs, &["m", "m"], Vec::new()), TypeId::error());
}

#[test]
fn path_type_alias_and_param() {
    let mut ctx = Context::new(false);
    let a = ctx.intern("A");
    let p = ctx.intern("P");
    let param_ty = ctx.type_registry.intern(TypeKind::Param(p));
    let ptr_param = ctx.type_registry.intern(TypeKind::Pointer(param_ty));
    ctx.scopes.define(a, sym(SymbolKind::TypeAlias, ptr_param, Some(0))).unwrap();
    ctx.scopes.define(p, sym(SymbolKind::TypeParam, param_ty, None)).unwrap();
    let defs = vec![DefLink::TypeAlias { params: vec![p], is_pub: true }];
    let u8_ty = TypeId::primitive(PrimitiveType::U8);
    // Without arguments the alias is its target.
    assert_eq!(resolve(&mut ctx, &defs, &["A"], Vec::new()), ptr_param);
    // With one argument its parameter is replaced.
    let r = resolve(&mut ctx, &defs, &["A"], vec![u8_ty]);
    assert_eq!(ctx.type_registry.get(r), &TypeKind::Pointer(u8_ty));
    assert_eq!(ctx.diagnostics.len(), 0);
    // Wrong number of arguments.
    assert_eq!(resolve(&mut ctx, &defs, &["A"], vec![u8_ty, u8_ty]), TypeId::error());
    assert_eq!(
        last_message(&ctx),
        "Type alias `A` expects 1 generic arguments, but 2 were provided"
    );
    // A type parameter is its own type; arguments on it are refused.
    assert_eq!(resolve(&mut ctx, &defs, &["P"], Vec::new()), param_ty);
    assert_eq!(resolve(&mut ctx, &defs, &["P"], vec![u8_ty]), param_ty);
    assert_eq!(last_message(&ctx), "Type parameters cannot take generic arguments");
}

fn import_setup(root_name: &str) -> (Context, Vec<DefLink>, ScopeId) {
    let mut ctx = Context::new(false);
    let root = ctx.intern(root_name);
    let a = ctx.intern("a");
    let x = ctx.intern("x");
    ctx.scopes.define(a, sym(SymbolKind::Module, TypeId::error(), Some(1))).unwrap();
    let inner = ctx.scopes.enter_scope();
    ctx.scopes.define(x, sym(SymbolKind::Var, TypeId::error(), None)).unwrap();
    ctx.scopes.exit_scope();
    let defs = vec![
        DefLink::Module { scope: ScopeId(0), parent: None, name: root, imports: Vec::new() },
        DefLink::Module { scope: inner, parent: Some(DefId(0)), name: a, imports: Vec::new() },
    ];
    (ctx, defs, inner)
}

fn path_of(ctx: &mut Context, names: &[&str]) -> Vec<SymbolId> {
    names.iter().map(|s| ctx.intern(s)).collect()
}

#[test]
fn import_paths_walk_modules() {
    let (mut ctx, defs, inner) = import_setup("main");
    let span = Span::new(2, 5);
    let p = path_of(&mut ctx, &["a"]);
    assert_eq!(
        resolve_import_path(&mut ctx, &defs, DefId(0), UsePathKind::Absolute, &p, span, true),
        Some((DefId(1), inner))
    );
    let empty = Vec::new();
    assert_eq!(
        resolve_import_path(&mut ctx, &defs, DefId(1), UsePathKind::Relative, &empty, span, true),
        Some((DefId(1), inner))
    );
    assert_eq!(
        resolve_import_path(&mut ctx, &defs, DefId(1), UsePathKind::Super, &empty, span, true),
        Some((DefId(0), ScopeId(0)))
    );
    assert_eq!(ctx.diagnostics.len(), 0);

    let p = path_of(&mut ctx, &["a", "x"]);
    assert_eq!(resolve_import_path(&mut ctx, &defs, DefId(0), UsePathKind::Absolute, &p, span, true), None);
    assert_eq!(last_message(&ctx), "`x` is not a module");
    assert_eq!(
        ctx.diagnostics[0].hints,
        vec!["only modules can be used in the intermediate segments of an import path".to_string()]
    );
    let p = path_of(&mut ctx, &["b"]);
    assert_eq!(resolve_import_path(&mut ctx, &defs, DefId(0), UsePathKind::Relative, &p, span, true), None);
    assert_eq!(last_message(&ctx), "Unresolved import: cannot find module `b`");
    assert_eq!(resolve_import_path(&mut ctx, &defs, DefId(0), UsePathKind::Super, &empty, span, true), None);
    assert_eq!(last_message(&ctx), "Cannot use `..` because the current module is a top-level module");
    assert_eq!(ctx.error_count, 3);
    // Without errors wanted nothing is reported.
    assert_eq!(resolve_import_path(&mut ctx, &defs, DefId(0), UsePathKind::Relative, &p, span, false), None);
    assert_eq!(ctx.diagnostics.len(), 3);
}

#[test]
fn import_from_init_parent_is_refused() {
    let (mut ctx, defs, _) = import_setup("init");
    let empty = Vec::new();
    assert_eq!(
        resolve_import_path(&mut ctx, &defs, DefId(1), UsePathKind::Super, &empty, Span::new(0, 1), true),
        None
    );
    assert_eq!(last_message(&ctx), "Child modules are strictly forbidden from importing `init.kn` contents");
}

fn import_world() -> (Context, Vec<DefLink>) {
    let (mut ctx, mut defs, inner) = import_setup("main");
    let p = ctx.intern("p");
    let q = ctx.intern("q");
    ctx.scopes.set_current_scope(inner);
    ctx.scopes.define(p, sym(SymbolKind::Function, TypeId::error(), Some(2))).unwrap();
    ctx.scopes.define(q, sym(SymbolKind::Function, TypeId::error(), Some(3))).unwrap();
    ctx.scopes.set_current_scope(ScopeId(0));
    defs.push(DefLink::Item { is_pub: false });
    defs.push(DefLink::Item { is_pub: true });
    (ctx, defs)
}

#[test]
fn visibility_of_imported_symbols() {
    let defs = vec![DefLink::Item { is_pub: false }, DefLink::Item { is_pub: true }, DefLink::Impl];
    assert!(check_visibility(&defs, Some(DefId(0)), DefId(5), DefId(5)));
    assert!(!check_visibility(&defs, Some(DefId(0)), DefId(5), DefId(6)));
    assert!(check_visibility(&defs, Some(DefId(1)), DefId(5), DefId(6)));
    assert!(check_visibility(&defs, Some(DefId(2)), DefId(5), DefId(6)));
    assert!(check_visibility(&defs, None, DefId(5), DefId(6)));
}

#[test]
fn single_import_of_one_name() {
    let (mut ctx, defs) = import_world();
    let path = path_of(&mut ctx, &["a", "x"]);
    let imp = ImportDef {
        path_kind: UsePathKind::Absolute,
        path,
        target: UseTarget::Module(None),
        span: Span::new(10, 20),
        is_reexport: true,
    };
    assert!(resolve_single_import(&mut ctx, &defs, DefId(0), &imp, true));
    let x = ctx.intern("x");
    let info = ctx.scopes.resolve_in(ScopeId(0), x).copied().unwrap();
    assert!(info.is_pub);
    assert_eq!(info.span, Span::new(10, 20));
    assert_eq!(ctx.diagnostics.len(), 0);

    // Under another name.
    let path = path_of(&mut ctx, &["a", "q"]);
    let y = ctx.intern("y");
    let imp = ImportDef {
        path_kind: UsePathKind::Relative,
        path,
        target: UseTarget::Module(Some(y)),
        span: Span::new(1, 2),
        is_reexport: false,
    };
    assert!(resolve_single_import(&mut ctx, &defs, DefId(0), &imp, true));
    assert_eq!(ctx.scopes.resolve_in(ScopeId(0), y).map(|i| i.def_id), Some(Some(DefId(3))));

    // A private name is refused.
    let path = path_of(&mut ctx, &["a", "p"]);
    let imp = ImportDef {
        path_kind: UsePathKind::Absolute,
        path,
        target: UseTarget::Module(None),
        span: Span::new(1, 2),
        is_reexport: false,
    };
    assert!(!resolve_single_import(&mut ctx, &defs, DefId(0), &imp, true));
    assert_eq!(last_message(&ctx), "Symbol `p` is private");
    let p = ctx.intern("p");
    assert!(ctx.scopes.resolve_in(ScopeId(0), p).is_none());

    // A name that is not there.
    let path = path_of(&mut ctx, &["a", "nope"]);
    let imp = ImportDef {
        path_kind: UsePathKind::Absolute,
        path,
        target: UseTarget::Module(None),
        span: Span::new(1, 2),
        is_reexport: false,
    };
    assert!(!resolve_single_import(&mut ctx, &defs, DefId(0), &imp, true));
    assert_eq!(last_message(&ctx), "Cannot find module or symbol `nope`");
    assert_eq!(ctx.error_count, 2);
}

#[test]
fn single_import_of_members() {
    let (mut ctx, defs) = import_world();
    let path = path_of(&mut ctx, &["a"]);
    let q = ctx.intern("q");
    let zz = ctx.intern("zz");
    let p = ctx.intern("p");
    let member = |name: SymbolId, start: usize| UseMember { name, alias: None, span: Span::new(start, start + 1) };
    let imp = ImportDef {
        path_kind: UsePathKind::Absolute,
        path,
        target: UseTarget::Members(vec![member(q, 30), member(zz, 40), member(p, 50)]),
        span: Span::new(0, 60),
        is_reexport: false,
    };
    assert!(!resolve_single_import(&mut ctx, &defs, DefId(0), &imp, true));
    assert!(ctx.scopes.resolve_in(ScopeId(0), q).is_some());
    assert!(ctx.scopes.resolve_in(ScopeId(0), p).is_none());
    assert_eq!(ctx.diagnostics.len(), 2);
    assert_eq!(ctx.diagnostics[0].message, "Cannot find `zz` in the target module");
    assert_eq!(ctx.diagnostics[0].primary_span, Span::new(40, 41));
    assert_eq!(ctx.diagnostics[1].message, "Symbol `p` is private and cannot be imported");
    // With errors not wanted the same import reports nothing.
    let path = path_of(&mut ctx, &["a"]);
    let imp2 = ImportDef {
        path_kind: UsePathKind::Absolute,
        path,
        target: UseTarget::Members(vec![member(zz, 1)]),
        span: Span::new(0, 60),
        is_reexport: false,
    };
    assert!(!resolve_single_import(&mut ctx, &defs, DefId(0), &imp2, false));
    assert_eq!(ctx.diagnostics.len(), 2);
}

#[test]
fn resolve_all_imports_until_nothing_changes() {
    let mut ctx = Context::new(false);
    let root = ctx.intern("main");
    let a = ctx.intern("a");
    let b = ctx.intern("b");
    let q = ctx.intern("q");
    let zz = ctx.intern("zz");
    ctx.scopes.define(a, sym(SymbolKind::Module, TypeId::error(), Some(1))).unwrap();
    ctx.scopes.define(b, sym(SymbolKind::Module, TypeId::error(), Some(2))).unwrap();
    let a_scope = ctx.scopes.enter_scope();
    ctx.scopes.define(q, sym(SymbolKind::Function, TypeId::error(), Some(3))).unwrap();
    ctx.scopes.exit_scope();
    let b_scope = ctx.scopes.enter_scope();
    ctx.scopes.exit_scope();
    // `use b.q;` in the root needs `pub use ..a.q;` in `b` first.
    let root_imports = vec![
        ImportDef {
            path_kind: UsePathKind::Absolute,
            path: vec![b, q],
            target: UseTarget::Module(None),
            span: Span::new(1, 2),
            is_reexport: false,
        },
        ImportDef {
            path_kind: UsePathKind::Absolute,
            path: vec![a, zz],
            target: UseTarget::Module(None),
            span: Span::new(3, 4),
            is_reexport: false,
        },
    ];
    let b_imports = vec![ImportDef {
        path_kind: UsePathKind::Super,
        path: vec![a, q],
        target: UseTarget::Module(None),
        span: Span::new(5, 6),
        is_reexport: true,
    }];
    let defs = vec![
        DefLink::Module { scope: ScopeId(0), parent: None, name: root, imports: root_imports },
        DefLink::Module { scope: a_scope, parent: Some(DefId(0)), name: a, imports: Vec::new() },
        DefLink::Module { scope: b_scope, parent: Some(DefId(0)), name: b, imports: b_imports },
        DefLink::Item { is_pub: true },
    ];
    resolve_all(&mut ctx, &defs);
    let in_b = ctx.scopes.resolve_in(b_scope, q).copied().unwrap();
    assert!(in_b.is_pub);
    assert_eq!(in_b.def_id, Some(DefId(3)));
    let in_root = ctx.scopes.resolve_in(ScopeId(0), q).copied().unwrap();
    assert_eq!(in_root.def_id, Some(DefId(3)));
    assert!(!in_root.is_pub);
    // Only the import that never resolves is reported, once.
    assert_eq!(ctx.diagnostics.len(), 1);
    assert_eq!(ctx.diagnostics[0].message, "Cannot find module or symbol `zz`");
    assert_eq!(ctx.diagnostics[0].primary_span, Span::new(3, 4));
}
