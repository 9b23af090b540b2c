use esm_references::program::{
    apply_mutation, clone_stmt, hoist_marker_stmt, insert_hoisted_stmt, stmts_equal, ModuleItem,
    Program, ProgramMutation, Stmt,
};

fn src(text: &str) -> Stmt {
    Stmt::Source(text.to_string())
}

#[test]
fn marker_is_the_mangled_hoisting_label() {
    assert_eq!(
        hoist_marker_stmt(),
        Stmt::StrLit("__TURBOPACK__ecmascript$20$hoisting$20$location__".to_string())
    );
}

#[test]
fn hoisting_into_empty_module_body_then_idempotent_then_second_statement() {
    let p = Program::Module(vec![]);
    let p = insert_hoisted_stmt(p, src("var a = 1;"));
    assert_eq!(
        p,
        Program::Module(vec![
            ModuleItem::Stmt(src("var a = 1;")),
            ModuleItem::Stmt(hoist_marker_stmt()),
        ])
    );
    let p = insert_hoisted_stmt(p, src("var a = 1;"));
    assert_eq!(
        p,
        Program::Module(vec![
            ModuleItem::Stmt(src("var a = 1;")),
            ModuleItem::Stmt(hoist_marker_stmt()),
        ])
    );
    let p = insert_hoisted_stmt(p, src("var b = 2;"));
    assert_eq!(
        p,
        Program::Module(vec![
            ModuleItem::Stmt(src("var a = 1;")),
            ModuleItem::Stmt(src("var b = 2;")),
            ModuleItem::Stmt(hoist_marker_stmt()),
        ])
    );
}

#[test]
fn module_hoisting_inserts_before_marker_and_skips_declarations() {
    let p = Program::Module(vec![
        ModuleItem::Decl("import x from \"y\";".to_string()),
        ModuleItem::Stmt(src("var a = 1;")),
        ModuleItem::Stmt(hoist_marker_stmt()),
        ModuleItem::Stmt(src("run();")),
    ]);
    let p = insert_hoisted_stmt(p, src("var b = 2;"));
    let expected = Program::Module(vec![
        ModuleItem::Decl("import x from \"y\";".to_string()),
        ModuleItem::Stmt(src("var a = 1;")),
        ModuleItem::Stmt(src("var b = 2;")),
        ModuleItem::Stmt(hoist_marker_stmt()),
        ModuleItem::Stmt(src("run();")),
    ]);
    assert_eq!(p, expected);
    let p = insert_hoisted_stmt(p, src("var a = 1;"));
    assert_eq!(p, expected);
}

#[test]
fn script_hoisting_has_no_duplicate_check() {
    let p = Program::Script(vec![]);
    let p = insert_hoisted_stmt(p, src("var a = 1;"));
    assert_eq!(
        p,
        Program::Script(vec![src("var a = 1;"), hoist_marker_stmt()])
    );
    let p = insert_hoisted_stmt(p, src("var a = 1;"));
    assert_eq!(
        p,
        Program::Script(vec![src("var a = 1;"), src("var a = 1;"), hoist_marker_stmt()])
    );
}

#[test]
fn apply_mutation_hoists_each_statement_in_order() {
    let m = ProgramMutation { hoisted: vec![src("one();"), src("two();")] };
    let p = apply_mutation(Program::Module(vec![]), &m);
    assert_eq!(
        p,
        Program::Module(vec![
            ModuleItem::Stmt(src("one();")),
            ModuleItem::Stmt(src("two();")),
            ModuleItem::Stmt(hoist_marker_stmt()),
        ])
    );
}

#[test]
fn statement_equality_and_copying() {
    let a = src("f();");
    let b = clone_stmt(&a);
    assert!(stmts_equal(&a, &b));
    assert!(!stmts_equal(&a, &src("g();")));
    assert!(!stmts_equal(&a, &Stmt::StrLit("f();".to_string())));
}
