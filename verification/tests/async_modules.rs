use indexmap::IndexSet;

use esm_references::async_module::{
    add_async_dependency_handler, AsyncModule, AsyncModuleInfo, AsyncModuleOptions,
    OptionAsyncModule, OptionAsyncModuleOptions,
};
use esm_references::esm::{EsmAssetReference, ImportAnnotations};
use esm_references::magic_identifier::mangle;
use esm_references::program::{hoist_marker_stmt, ModuleItem, Program, Stmt};
use esm_references::resolve::{
    ModuleHandle, ModuleId, ModuleResolveResult, ModuleResolveResultItem,
};

fn reference(request: &str, chunking_type: Option<&str>, import_externals: bool) -> EsmAssetReference {
    EsmAssetReference::new(
        1,
        request.to_string(),
        None,
        ImportAnnotations { transition: None, chunking_type: chunking_type.map(|s| s.to_string()) },
        None,
        import_externals,
    )
}

fn handle(identity: &str, chunk_item: u64) -> ModuleHandle {
    ModuleHandle {
        chunkable: true,
        identity: identity.to_string(),
        chunk_item,
        id: ModuleId::Num(chunk_item as u32),
    }
}

fn internal_result(identity: &str, chunk_item: u64) -> ModuleResolveResult {
    ModuleResolveResult { items: vec![ModuleResolveResultItem::Module(handle(identity, chunk_item))] }
}

fn external_result(request: &str) -> ModuleResolveResult {
    ModuleResolveResult { items: vec![ModuleResolveResultItem::External(request.to_string())] }
}

fn module(references: Vec<EsmAssetReference>, has_top_level_await: bool, import_externals: bool) -> AsyncModule {
    AsyncModule {
        placeable: handle("app/m.js", 1),
        references,
        has_top_level_await,
        import_externals,
    }
}

fn async_set(items: &[u64]) -> AsyncModuleInfo {
    let mut set: IndexSet<u64> = IndexSet::new();
    for &i in items {
        set.insert(i);
    }
    AsyncModuleInfo { referenced_async_modules: set }
}

fn idents_of(set: &IndexSet<String>) -> Vec<&str> {
    set.iter().map(|s| s.as_str()).collect()
}

#[test]
fn top_level_await_alone_makes_a_module_self_async() {
    let m = module(vec![], true, false);
    assert!(m.is_self_async(&vec![]));
}

#[test]
fn without_await_and_without_the_externals_policy_never_self_async() {
    let m = module(vec![reference("fs", None, false)], false, false);
    assert!(!m.is_self_async(&vec![external_result("fs")]));
}

#[test]
fn externals_policy_with_an_external_reference_is_self_async() {
    let m = module(
        vec![reference("./a", None, true), reference("fs", None, true)],
        false,
        true,
    );
    assert!(m.is_self_async(&vec![internal_result("app/a.js", 10), external_result("fs")]));
    let only_internal = module(vec![reference("./a", None, true)], false, true);
    assert!(!only_internal.is_self_async(&vec![internal_result("app/a.js", 10)]));
}

#[test]
fn async_idents_lists_both_contributors_in_reference_order() {
    let m = module(
        vec![reference("./a", None, true), reference("fs", None, true)],
        false,
        true,
    );
    let results = vec![internal_result("app/a.js", 10), external_result("fs")];
    let idents = m.get_async_idents(&results, &async_set(&[10]));
    assert_eq!(
        idents_of(&idents),
        vec![
            mangle("imported module app/a.js").as_str(),
            mangle("external fs").as_str(),
        ]
    );
}

#[test]
fn chunking_exclusion_does_not_suppress_async_propagation() {
    let excluded_fs = reference("fs", Some("none"), true);
    let results = vec![internal_result("app/a.js", 10), external_result("fs")];
    let cg = excluded_fs
        .code_generation(
            &esm_references::resolve::ChunkingContext { supports_commonjs_externals: true },
            &results[1],
        )
        .unwrap();
    assert_eq!(cg.mutations.len(), 0);
    let m = module(vec![reference("./a", None, true), excluded_fs], false, true);
    let idents = m.get_async_idents(&results, &async_set(&[10]));
    assert_eq!(
        idents_of(&idents),
        vec![
            mangle("imported module app/a.js").as_str(),
            mangle("external fs").as_str(),
        ]
    );
}

#[test]
fn async_idents_collapse_duplicates_to_the_first_occurrence() {
    let m = module(
        vec![
            reference("fs", None, true),
            reference("./a", None, true),
            reference("fs", None, true),
        ],
        false,
        true,
    );
    let results = vec![
        external_result("fs"),
        internal_result("app/a.js", 10),
        external_result("fs"),
    ];
    let idents = m.get_async_idents(&results, &async_set(&[10]));
    assert_eq!(
        idents_of(&idents),
        vec![
            mangle("external fs").as_str(),
            mangle("imported module app/a.js").as_str(),
        ]
    );
}

#[test]
fn internal_reference_outside_the_async_set_contributes_nothing() {
    let m = module(vec![reference("./a", None, true)], false, true);
    let idents = m.get_async_idents(&vec![internal_result("app/a.js", 10)], &async_set(&[99]));
    assert_eq!(idents.len(), 0);
}

#[test]
fn external_reference_without_the_externals_policy_contributes_nothing() {
    let m = module(vec![reference("fs", None, false)], false, false);
    let idents = m.get_async_idents(&vec![external_result("fs")], &async_set(&[]));
    assert_eq!(idents.len(), 0);
}

#[test]
fn wrapper_decision_uses_only_the_top_level_await_flag() {
    let m = module(vec![], true, false);
    assert_eq!(
        m.module_options(Some(&async_set(&[]))).0,
        Some(AsyncModuleOptions { has_top_level_await: true })
    );
    assert_eq!(m.module_options(None).0, None);
}

#[test]
fn optional_descriptor_forwards_the_wrapper_decision() {
    assert_eq!(OptionAsyncModule::none().module_options(Some(&async_set(&[]))).0, None);
    assert_eq!(OptionAsyncModuleOptions::none().0, None);
    let held = OptionAsyncModule(Some(module(vec![], false, false)));
    assert_eq!(
        held.module_options(Some(&async_set(&[]))).0,
        Some(AsyncModuleOptions { has_top_level_await: false })
    );
    assert_eq!(held.module_options(None).0, None);
}

#[test]
fn async_code_generation_emits_the_two_wiring_statements() {
    let m = module(
        vec![reference("./a", None, true), reference("fs", None, true)],
        false,
        true,
    );
    let results = vec![internal_result("app/a.js", 10), external_result("fs")];
    let cg = m.code_generation(Some(&async_set(&[10])), &results);
    let a = mangle("imported module app/a.js");
    let b = mangle("external fs");
    assert_eq!(cg.mutations.len(), 1);
    assert_eq!(
        cg.mutations[0].hoisted,
        vec![
            Stmt::Source(format!(
                "var __turbopack_async_dependencies__ = __turbopack_handle_async_dependencies__([{}, {}]);",
                a, b
            )),
            Stmt::Source(format!(
                "[{}, {}] = __turbopack_async_dependencies__.then ? (await __turbopack_async_dependencies__)() : __turbopack_async_dependencies__;",
                a, b
            )),
        ]
    );
}

#[test]
fn async_code_generation_without_idents_or_without_a_set_emits_nothing() {
    let m = module(vec![reference("./a", None, true)], true, true);
    let results = vec![internal_result("app/a.js", 10)];
    assert_eq!(m.code_generation(Some(&async_set(&[99])), &results).mutations.len(), 0);
    assert_eq!(m.code_generation(None, &results).mutations.len(), 0);
}

#[test]
fn async_dependency_handler_hoists_both_statements() {
    let mut idents: IndexSet<String> = IndexSet::new();
    idents.insert("a".to_string());
    let p = add_async_dependency_handler(Program::Module(vec![]), &idents);
    assert_eq!(
        p,
        Program::Module(vec![
            ModuleItem::Stmt(Stmt::Source(
                "var __turbopack_async_dependencies__ = __turbopack_handle_async_dependencies__([a]);"
                    .to_string()
            )),
            ModuleItem::Stmt(Stmt::Source(
                "[a] = __turbopack_async_dependencies__.then ? (await __turbopack_async_dependencies__)() : __turbopack_async_dependencies__;"
                    .to_string()
            )),
            ModuleItem::Stmt(hoist_marker_stmt()),
        ])
    );
}
