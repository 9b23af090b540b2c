use esm_references::esm::{
    ChunkingPolicy, CodeGenError, EcmaScriptModulesReferenceSubType, EsmAssetReference,
    EsmAssetReferences, ImportAnnotations, ReferencedAsset,
};
use esm_references::magic_identifier::mangle;
use esm_references::program::Stmt;
use esm_references::resolve::{
    ChunkingContext, ModuleHandle, ModuleId, ModuleResolveResult, ModuleResolveResultItem,
};

fn annotations(chunking_type: Option<&str>) -> ImportAnnotations {
    ImportAnnotations { transition: None, chunking_type: chunking_type.map(|s| s.to_string()) }
}

fn reference(request: &str, chunking_type: Option<&str>, import_externals: bool) -> EsmAssetReference {
    EsmAssetReference::new(
        1,
        request.to_string(),
        None,
        annotations(chunking_type),
        None,
        import_externals,
    )
}

fn internal_module(identity: &str, chunk_item: u64, id: ModuleId) -> ModuleHandle {
    ModuleHandle { chunkable: true, identity: identity.to_string(), chunk_item, id }
}

fn result_of(items: Vec<ModuleResolveResultItem>) -> ModuleResolveResult {
    ModuleResolveResult { items }
}

fn context(supports: bool) -> ChunkingContext {
    ChunkingContext { supports_commonjs_externals: supports }
}

#[test]
fn chunking_policy_default_and_parallel_and_none() {
    assert_eq!(
        reference("./a", None, true).chunking_policy(),
        Ok(ChunkingPolicy::ParallelInheritAsync)
    );
    assert_eq!(
        reference("./a", Some("parallel"), true).chunking_policy(),
        Ok(ChunkingPolicy::ParallelInheritAsync)
    );
    assert_eq!(
        reference("./a", Some("none"), true).chunking_policy(),
        Ok(ChunkingPolicy::Excluded)
    );
}

#[test]
fn chunking_policy_unknown_annotation_echoes_the_literal() {
    assert_eq!(
        reference("./a", Some("bogus"), true).chunking_policy(),
        Err(CodeGenError::UnknownChunkingType("bogus".to_string()))
    );
}

#[test]
fn classification_honors_the_first_matching_entry() {
    let rr = result_of(vec![
        ModuleResolveResultItem::Ignored,
        ModuleResolveResultItem::External("fs".to_string()),
        ModuleResolveResultItem::Module(internal_module("app/a.js", 10, ModuleId::Num(1))),
    ]);
    assert_eq!(
        ReferencedAsset::from_resolve_result(&rr),
        ReferencedAsset::External("fs".to_string())
    );
}

#[test]
fn classification_skips_non_chunkable_modules_and_unresolvable_entries() {
    let non_chunkable = ModuleHandle {
        chunkable: false,
        identity: "raw".to_string(),
        chunk_item: 3,
        id: ModuleId::Num(3),
    };
    let target = internal_module("app/a.js", 10, ModuleId::Num(1));
    let rr = result_of(vec![
        ModuleResolveResultItem::Unresolvable,
        ModuleResolveResultItem::Module(non_chunkable),
        ModuleResolveResultItem::Module(target.duplicate()),
    ]);
    assert_eq!(ReferencedAsset::from_resolve_result(&rr), ReferencedAsset::Internal(target));
}

#[test]
fn classification_of_an_exhausted_scan_is_unclassified() {
    assert_eq!(
        ReferencedAsset::from_resolve_result(&result_of(vec![])),
        ReferencedAsset::Unclassified
    );
    assert_eq!(
        ReferencedAsset::from_resolve_result(&result_of(vec![ModuleResolveResultItem::Ignored])),
        ReferencedAsset::Unclassified
    );
}

#[test]
fn unresolvable_means_every_entry_is_the_marker() {
    assert!(result_of(vec![]).is_unresolvable());
    assert!(result_of(vec![
        ModuleResolveResultItem::Unresolvable,
        ModuleResolveResultItem::Unresolvable,
    ])
    .is_unresolvable());
    assert!(!result_of(vec![
        ModuleResolveResultItem::Unresolvable,
        ModuleResolveResultItem::Ignored,
    ])
    .is_unresolvable());
}

#[test]
fn identifiers_are_mangled_from_identity_or_request() {
    let internal = ReferencedAsset::Internal(internal_module("app/a.js", 10, ModuleId::Num(1)));
    assert_eq!(
        internal.get_ident(),
        Some("__TURBOPACK__imported$20$module$20$app$2f$a$2e$js__".to_string())
    );
    let external = ReferencedAsset::External("fs".to_string());
    assert_eq!(external.get_ident(), Some("__TURBOPACK__external$20$fs__".to_string()));
    assert_eq!(ReferencedAsset::Unclassified.get_ident(), None);
}

#[test]
fn unresolvable_reference_yields_exactly_one_throw_mutation() {
    let rr = result_of(vec![ModuleResolveResultItem::Unresolvable]);
    for chunking_type in [None, Some("none"), Some("parallel"), Some("bogus")] {
        let er = reference("./missing", chunking_type, true);
        let cg = er.code_generation(&context(true), &rr).unwrap();
        assert_eq!(cg.mutations.len(), 1);
        assert_eq!(
            cg.mutations[0].hoisted,
            vec![Stmt::Source(
                "throw new Error(\"Cannot find module './missing'\");".to_string()
            )]
        );
    }
}

#[test]
fn internal_reference_binds_its_chunk_item_id() {
    let er = reference("./a", None, true);
    let rr = result_of(vec![ModuleResolveResultItem::Module(internal_module(
        "app/a.js",
        10,
        ModuleId::Num(7),
    ))]);
    let cg = er.code_generation(&context(true), &rr).unwrap();
    let ident = mangle("imported module app/a.js");
    assert_eq!(cg.mutations.len(), 1);
    assert_eq!(
        cg.mutations[0].hoisted,
        vec![Stmt::Source(format!("var {} = __turbopack_import__(7);", ident))]
    );
}

#[test]
fn internal_reference_with_a_string_id_quotes_it() {
    let er = reference("./a", None, true);
    let rr = result_of(vec![ModuleResolveResultItem::Module(internal_module(
        "app/a.js",
        10,
        ModuleId::Str("chunk/a".to_string()),
    ))]);
    let cg = er.code_generation(&context(true), &rr).unwrap();
    let ident = mangle("imported module app/a.js");
    assert_eq!(
        cg.mutations[0].hoisted,
        vec![Stmt::Source(format!("var {} = __turbopack_import__(\"chunk/a\");", ident))]
    );
}

#[test]
fn external_reference_binds_through_import_or_require() {
    let rr = result_of(vec![ModuleResolveResultItem::External("fs".to_string())]);
    let ident = mangle("external fs");
    let cg = reference("fs", None, true).code_generation(&context(true), &rr).unwrap();
    assert_eq!(
        cg.mutations[0].hoisted,
        vec![Stmt::Source(format!("var {} = __turbopack_external_import__(\"fs\");", ident))]
    );
    let cg = reference("fs", None, false).code_generation(&context(true), &rr).unwrap();
    assert_eq!(
        cg.mutations[0].hoisted,
        vec![Stmt::Source(format!("var {} = __turbopack_external_require__(\"fs\", true);", ident))]
    );
}

#[test]
fn external_reference_without_the_capability_fails_before_any_mutation() {
    let rr = result_of(vec![ModuleResolveResultItem::External("fs".to_string())]);
    let r = reference("fs", None, true).code_generation(&context(false), &rr);
    assert_eq!(r, Err(CodeGenError::UnsupportedExternalModule("fs".to_string())));
}

#[test]
fn excluded_reference_yields_no_mutation() {
    let rr = result_of(vec![ModuleResolveResultItem::External("fs".to_string())]);
    let cg = reference("fs", Some("none"), true).code_generation(&context(false), &rr).unwrap();
    assert_eq!(cg.mutations.len(), 0);
}

#[test]
fn unknown_annotation_fails_synthesis_when_the_reference_resolves() {
    let rr = result_of(vec![ModuleResolveResultItem::External("fs".to_string())]);
    let r = reference("fs", Some("bogus"), true).code_generation(&context(true), &rr);
    assert_eq!(r, Err(CodeGenError::UnknownChunkingType("bogus".to_string())));
}

#[test]
fn unclassified_reference_yields_no_mutation() {
    let rr = result_of(vec![ModuleResolveResultItem::Ignored]);
    let cg = reference("./a", None, true).code_generation(&context(true), &rr).unwrap();
    assert_eq!(cg.mutations.len(), 0);
}

#[test]
fn constructor_and_subtype_carry_the_fields() {
    let er = EsmAssetReference::new(
        9,
        "./a".to_string(),
        Some(4),
        annotations(Some("parallel")),
        Some("part".to_string()),
        true,
    );
    assert_eq!(er.origin, 9);
    assert_eq!(er.request, "./a");
    assert_eq!(er.issue_source, Some(4));
    assert_eq!(er.export_name, Some("part".to_string()));
    assert!(er.import_externals);
    match er.reference_subtype() {
        EcmaScriptModulesReferenceSubType::ImportPart(p) => assert_eq!(p, "part"),
        EcmaScriptModulesReferenceSubType::Import => panic!("expected a named-part import"),
    }
    let plain = reference("./a", None, false);
    assert!(matches!(
        plain.reference_subtype(),
        EcmaScriptModulesReferenceSubType::Import
    ));
    let list = EsmAssetReferences(vec![plain, er]);
    assert_eq!(list.0.len(), 2);
}
