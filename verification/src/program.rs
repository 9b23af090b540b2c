//! A model of a parsed program body, and the hoisting utility that gives
//! synthesized statements a stable, early insertion point.
//!
//! A statement is carried by its printed source text; the one statement kind
//! the hoisting logic inspects — an expression statement holding a single
//! string literal — is kept apart, because a reserved string literal (the
//! mangled hoisting-location label) marks the hoist point inside a body.

use vstd::prelude::*;

use crate::magic_identifier::{mangle, mangle_spec};

verus! {

/// The abstract value of a statement.
pub enum StmtView {
    StrLit(Seq<char>),
    Source(Seq<char>),
}

/// The abstract value of one item of a structured-module body.
pub enum ModuleItemView {
    Stmt(StmtView),
    Decl(Seq<char>),
}

/// The abstract value of a program body.
pub enum ProgramView {
    Module(Seq<ModuleItemView>),
    Script(Seq<StmtView>),
}

/// One statement, identified by its source text. `StrLit` is an expression
/// statement holding exactly one string literal with the given value.
#[derive(Debug, PartialEq, Eq)]
pub enum Stmt {
    StrLit(String),
    Source(String),
}

/// One item of a structured-module body: a statement, or a module-level
/// declaration (an import or export), identified by its source text.
#[derive(Debug, PartialEq, Eq)]
pub enum ModuleItem {
    Stmt(Stmt),
    Decl(String),
}

/// A program body: a structured module, or a flat script.
#[derive(Debug, PartialEq, Eq)]
pub enum Program {
    Module(Vec<ModuleItem>),
    Script(Vec<Stmt>),
}

impl View for Stmt {
    type V = StmtView;

    open spec fn view(&self) -> StmtView {
        match self {
            Stmt::StrLit(s) => StmtView::StrLit(s@),
            Stmt::Source(s) => StmtView::Source(s@),
        }
    }
}

impl View for ModuleItem {
    type V = ModuleItemView;

    open spec fn view(&self) -> ModuleItemView {
        match self {
            ModuleItem::Stmt(s) => ModuleItemView::Stmt(s@),
            ModuleItem::Decl(s) => ModuleItemView::Decl(s@),
        }
    }
}

/// The abstract values of a sequence of module items.
pub open spec fn module_items_view(s: Seq<ModuleItem>) -> Seq<ModuleItemView> {
    s.map_values(|it: ModuleItem| it@)
}

/// The abstract values of a sequence of statements.
pub open spec fn stmts_view(s: Seq<Stmt>) -> Seq<StmtView> {
    s.map_values(|st: Stmt| st@)
}

impl View for Program {
    type V = ProgramView;

    open spec fn view(&self) -> ProgramView {
        match self {
            Program::Module(body) => ProgramView::Module(module_items_view(body@)),
            Program::Script(body) => ProgramView::Script(stmts_view(body@)),
        }
    }
}

/// The reserved marker statement that denotes the hoist point: a string
/// literal holding the mangled hoisting-location label.
pub open spec fn marker_stmt_view() -> StmtView {
    StmtView::StrLit(mangle_spec("ecmascript hoisting location"@))
}

/// Builds the reserved marker statement.
pub fn hoist_marker_stmt() -> (r: Stmt)
    ensures
        r@ == marker_stmt_view(),
{
    Stmt::StrLit(mangle("ecmascript hoisting location"))
}

/// Structural equality of two statements.
pub fn stmts_equal(a: &Stmt, b: &Stmt) -> (r: bool)
    ensures
        r == (a@ == b@),
{
    match (a, b) {
        (Stmt::StrLit(x), Stmt::StrLit(y)) => *x == *y,
        (Stmt::Source(x), Stmt::Source(y)) => *x == *y,
        _ => false,
    }
}

/// Copies a statement.
pub fn clone_stmt(s: &Stmt) -> (r: Stmt)
    ensures
        r@ == s@,
{
    match s {
        Stmt::StrLit(v) => Stmt::StrLit(v.clone()),
        Stmt::Source(v) => Stmt::Source(v.clone()),
    }
}

/// Whether a module item is the reserved marker statement.
pub open spec fn is_marker_item(it: ModuleItemView) -> bool {
    it == ModuleItemView::Stmt(marker_stmt_view())
}

/// The position of the first marker statement in a module body, scanning from
/// index `i`.
pub open spec fn find_marker_module(b: Seq<ModuleItemView>, i: int) -> Option<int>
    decreases b.len() - i,
    when 0 <= i <= b.len()
{
    if i >= b.len() {
        None
    } else if is_marker_item(b[i]) {
        Some(i)
    } else {
        find_marker_module(b, i + 1)
    }
}

/// What `find_marker_module` returns: the first marker position, if any.
pub proof fn lemma_find_marker_module_props(b: Seq<ModuleItemView>, i: int)
    requires
        0 <= i <= b.len(),
    ensures
        match find_marker_module(b, i) {
            Some(p) => i <= p < b.len() && is_marker_item(b[p]) && forall|j: int|
                i <= j < p ==> !is_marker_item(#[trigger] b[j]),
            None => forall|j: int| i <= j < b.len() ==> !is_marker_item(#[trigger] b[j]),
        },
    decreases b.len() - i,
{
    if i < b.len() && !is_marker_item(b[i]) {
        lemma_find_marker_module_props(b, i + 1);
    }
}

/// A marker at `p` with none before it is what the scan finds.
pub proof fn lemma_find_marker_module_at(b: Seq<ModuleItemView>, i: int, p: int)
    requires
        0 <= i <= p < b.len(),
        is_marker_item(b[p]),
        forall|j: int| i <= j < p ==> !is_marker_item(#[trigger] b[j]),
    ensures
        find_marker_module(b, i) == Some(p),
    decreases p - i,
{
    if i < p {
        lemma_find_marker_module_at(b, i + 1, p);
    }
}

/// Whether a marker statement is in a script body at or after index `i`.
pub open spec fn find_marker_script(b: Seq<StmtView>, i: int) -> Option<int>
    decreases b.len() - i,
    when 0 <= i <= b.len()
{
    if i >= b.len() {
        None
    } else if b[i] == marker_stmt_view() {
        Some(i)
    } else {
        find_marker_script(b, i + 1)
    }
}

/// What `find_marker_script` returns: the first marker position, if any.
pub proof fn lemma_find_marker_script_props(b: Seq<StmtView>, i: int)
    requires
        0 <= i <= b.len(),
    ensures
        match find_marker_script(b, i) {
            Some(p) => i <= p < b.len() && b[p] == marker_stmt_view() && forall|j: int|
                i <= j < p ==> #[trigger] b[j] != marker_stmt_view(),
            None => forall|j: int| i <= j < b.len() ==> #[trigger] b[j] != marker_stmt_view(),
        },
    decreases b.len() - i,
{
    if i < b.len() && b[i] != marker_stmt_view() {
        lemma_find_marker_script_props(b, i + 1);
    }
}

/// Whether a statement structurally equal to `s` stands in the body before
/// position `p`.
pub open spec fn stmt_present_before(b: Seq<ModuleItemView>, p: int, s: StmtView) -> bool {
    exists|j: int| 0 <= j < p && #[trigger] b[j] == ModuleItemView::Stmt(s)
}

/// Hoisting into a structured-module body: if the marker is absent, the new
/// statement and the marker become the first two items; if it is present, the
/// new statement goes immediately before it, unless a structurally equal
/// statement already stands earlier in the body.
pub open spec fn module_hoist(b: Seq<ModuleItemView>, s: StmtView) -> Seq<ModuleItemView> {
    match find_marker_module(b, 0) {
        Some(p) => if stmt_present_before(b, p, s) {
            b
        } else {
            b.insert(p, ModuleItemView::Stmt(s))
        },
        None => seq![ModuleItemView::Stmt(s), ModuleItemView::Stmt(marker_stmt_view())] + b,
    }
}

/// Hoisting into a flat-script body: if the marker is absent, the new
/// statement and the marker become the first two statements; if it is
/// present, the new statement goes at its position, with no duplicate check.
pub open spec fn script_hoist(b: Seq<StmtView>, s: StmtView) -> Seq<StmtView> {
    match find_marker_script(b, 0) {
        Some(p) => b.insert(p, s),
        None => seq![s, marker_stmt_view()] + b,
    }
}

/// Hoisting into either kind of program body.
pub open spec fn program_hoist(p: ProgramView, s: StmtView) -> ProgramView {
    match p {
        ProgramView::Module(b) => ProgramView::Module(module_hoist(b, s)),
        ProgramView::Script(b) => ProgramView::Script(script_hoist(b, s)),
    }
}

/// The first marker position in a module body, as executable code.
fn find_marker_pos_module(body: &Vec<ModuleItem>, marker: &Stmt) -> (r: Option<usize>)
    requires
        marker@ == marker_stmt_view(),
    ensures
        match r {
            Some(p) => find_marker_module(module_items_view(body@), 0) == Some(p as int),
            None => find_marker_module(module_items_view(body@), 0) is None,
        },
{
    let ghost bv = module_items_view(body@);
    let mut i: usize = 0;
    while i < body.len()
        invariant
            i <= body@.len(),
            bv == module_items_view(body@),
            marker@ == marker_stmt_view(),
            forall|j: int| 0 <= j < i ==> !is_marker_item(#[trigger] bv[j]),
        decreases body@.len() - i,
    {
        let hit = match &body[i] {
            ModuleItem::Stmt(s) => stmts_equal(s, marker),
            ModuleItem::Decl(_) => false,
        };
        proof {
            assert(bv[i as int] == body@[i as int]@);
        }
        if hit {
            proof {
                lemma_find_marker_module_at(bv, 0, i as int);
            }
            return Some(i);
        }
        i = i + 1;
    }
    proof {
        lemma_find_marker_module_props(bv, 0);
    }
    None
}

/// The first marker position in a script body, as executable code.
fn find_marker_pos_script(body: &Vec<Stmt>, marker: &Stmt) -> (r: Option<usize>)
    requires
        marker@ == marker_stmt_view(),
    ensures
        match r {
            Some(p) => find_marker_script(stmts_view(body@), 0) == Some(p as int),
            None => find_marker_script(stmts_view(body@), 0) is None,
        },
{
    let ghost bv = stmts_view(body@);
    let mut i: usize = 0;
    while i < body.len()
        invariant
            i <= body@.len(),
            bv == stmts_view(body@),
            marker@ == marker_stmt_view(),
            forall|j: int| 0 <= j < i ==> #[trigger] bv[j] != marker_stmt_view(),
        decreases body@.len() - i,
    {
        let hit = stmts_equal(&body[i], marker);
        proof {
            assert(bv[i as int] == body@[i as int]@);
        }
        if hit {
            proof {
                assert(find_marker_script(bv, 0) == Some(i as int)) by {
                    lemma_find_marker_script_at(bv, 0, i as int);
                }
            }
            return Some(i);
        }
        i = i + 1;
    }
    proof {
        lemma_find_marker_script_props(bv, 0);
    }
    None
}

/// A marker at `p` with none before it is what the script scan finds.
proof fn lemma_find_marker_script_at(b: Seq<StmtView>, i: int, p: int)
    requires
        0 <= i <= p < b.len(),
        b[p] == marker_stmt_view(),
        forall|j: int| i <= j < p ==> #[trigger] b[j] != marker_stmt_view(),
    ensures
        find_marker_script(b, i) == Some(p),
    decreases p - i,
{
    if i < p {
        lemma_find_marker_script_at(b, i + 1, p);
    }
}

/// Whether a statement structurally equal to `stmt` stands before position
/// `p` of the body, as executable code.
fn stmt_present_in_prefix(body: &Vec<ModuleItem>, p: usize, stmt: &Stmt) -> (r: bool)
    requires
        p <= body@.len(),
    ensures
        r == stmt_present_before(module_items_view(body@), p as int, stmt@),
{
    let ghost bv = module_items_view(body@);
    let mut j: usize = 0;
    while j < p
        invariant
            j <= p <= body@.len(),
            bv == module_items_view(body@),
            forall|k: int| 0 <= k < j ==> #[trigger] bv[k] != ModuleItemView::Stmt(stmt@),
        decreases p - j,
    {
        let hit = match &body[j] {
            ModuleItem::Stmt(s) => stmts_equal(s, stmt),
            ModuleItem::Decl(_) => false,
        };
        proof {
            assert(bv[j as int] == body@[j as int]@);
        }
        if hit {
            return true;
        }
        j = j + 1;
    }
    false
}

/// Splices one synthesized statement into a program body at the stable hoist
/// point, per the hoisting contract of `module_hoist` and `script_hoist`.
pub fn insert_hoisted_stmt(program: Program, stmt: Stmt) -> (r: Program)
    ensures
        r@ == program_hoist(program@, stmt@),
{
    let marker = hoist_marker_stmt();
    match program {
        Program::Module(mut body) => {
            let ghost bv = module_items_view(body@);
            match find_marker_pos_module(&body, &marker) {
                Some(p) => {
                    proof {
                        lemma_find_marker_module_props(bv, 0);
                    }
                    if !stmt_present_in_prefix(&body, p, &stmt) {
                        body.insert(p, ModuleItem::Stmt(stmt));
                        proof {
                            assert(module_items_view(body@) =~= bv.insert(
                                p as int,
                                ModuleItemView::Stmt(stmt@),
                            ));
                        }
                    }
                },
                None => {
                    body.insert(0, ModuleItem::Stmt(marker));
                    body.insert(0, ModuleItem::Stmt(stmt));
                    proof {
                        assert(module_items_view(body@) =~= seq![
                            ModuleItemView::Stmt(stmt@),
                            ModuleItemView::Stmt(marker_stmt_view()),
                        ] + bv);
                    }
                },
            }
            Program::Module(body)
        },
        Program::Script(mut body) => {
            let ghost bv = stmts_view(body@);
            match find_marker_pos_script(&body, &marker) {
                Some(p) => {
                    proof {
                        lemma_find_marker_script_props(bv, 0);
                    }
                    body.insert(p, stmt);
                    proof {
                        assert(stmts_view(body@) =~= bv.insert(p as int, stmt@));
                    }
                },
                None => {
                    body.insert(0, marker);
                    body.insert(0, stmt);
                    proof {
                        assert(stmts_view(body@) =~= seq![stmt@, marker_stmt_view()] + bv);
                    }
                },
            }
            Program::Script(body)
        },
    }
}

/// One program mutation: a list of statements hoisted, in order, into the
/// program body.
#[derive(Debug, PartialEq, Eq)]
pub struct ProgramMutation {
    pub hoisted: Vec<Stmt>,
}

impl View for ProgramMutation {
    type V = Seq<StmtView>;

    open spec fn view(&self) -> Seq<StmtView> {
        stmts_view(self.hoisted@)
    }
}

/// The synthesized output for one reference or one module descriptor: an
/// ordered list of program mutations, applied later by a single rewrite pass.
#[derive(Debug, PartialEq, Eq)]
pub struct CodeGeneration {
    pub mutations: Vec<ProgramMutation>,
}

impl View for CodeGeneration {
    type V = Seq<Seq<StmtView>>;

    open spec fn view(&self) -> Seq<Seq<StmtView>> {
        self.mutations@.map_values(|m: ProgramMutation| m@)
    }
}

/// Hoisting a list of statements, in order.
pub open spec fn hoist_all(p: ProgramView, ss: Seq<StmtView>) -> ProgramView
    decreases ss.len(),
{
    if ss.len() == 0 {
        p
    } else {
        hoist_all(program_hoist(p, ss[0]), ss.drop_first())
    }
}

/// Applying a list of mutations, in order.
pub open spec fn apply_mutations_spec(p: ProgramView, ms: Seq<Seq<StmtView>>) -> ProgramView
    decreases ms.len(),
{
    if ms.len() == 0 {
        p
    } else {
        apply_mutations_spec(hoist_all(p, ms[0]), ms.drop_first())
    }
}

/// Applies one mutation: hoists each of its statements, in order.
pub fn apply_mutation(program: Program, m: &ProgramMutation) -> (r: Program)
    ensures
        r@ == hoist_all(program@, m@),
{
    let ghost p0 = program@;
    let mut cur = program;
    let mut i: usize = 0;
    proof {
        assert(m@.skip(0) =~= m@);
    }
    while i < m.hoisted.len()
        invariant
            i <= m@.len(),
            hoist_all(p0, m@) == hoist_all(cur@, m@.skip(i as int)),
        decreases m@.len() - i,
    {
        let stmt = clone_stmt(&m.hoisted[i]);
        proof {
            assert(m@.skip(i as int)[0] == m@[i as int]);
            assert(m@.skip(i as int).drop_first() =~= m@.skip(i + 1 as int));
        }
        cur = insert_hoisted_stmt(cur, stmt);
        i = i + 1;
    }
    proof {
        assert(m@.skip(m@.len() as int) =~= Seq::<StmtView>::empty());
    }
    cur
}

/// Applies a whole code generation: each mutation, in order.
pub fn apply_code_generation(program: Program, cg: &CodeGeneration) -> (r: Program)
    ensures
        r@ == apply_mutations_spec(program@, cg@),
{
    let ghost p0 = program@;
    let mut cur = program;
    let mut i: usize = 0;
    proof {
        assert(cg@.skip(0) =~= cg@);
    }
    while i < cg.mutations.len()
        invariant
            i <= cg@.len(),
            apply_mutations_spec(p0, cg@) == apply_mutations_spec(cur@, cg@.skip(i as int)),
        decreases cg@.len() - i,
    {
        proof {
            assert(cg@.skip(i as int)[0] == cg@[i as int]);
            assert(cg@.skip(i as int).drop_first() =~= cg@.skip(i + 1 as int));
            assert(cg@[i as int] == cg.mutations@[i as int]@);
        }
        cur = apply_mutation(cur, &cg.mutations[i]);
        i = i + 1;
    }
    proof {
        assert(cg@.skip(cg@.len() as int) =~= Seq::<Seq<StmtView>>::empty());
    }
    cur
}

/// Hoisting is idempotent on a structured-module body: inserting the same
/// statement twice yields exactly one copy. The one statement this does not
/// hold of is the reserved marker itself, which the scan would find.
pub proof fn lemma_module_hoist_idempotent(b: Seq<ModuleItemView>, s: StmtView)
    requires
        s != marker_stmt_view(),
    ensures
        module_hoist(module_hoist(b, s), s) == module_hoist(b, s),
{
    lemma_find_marker_module_props(b, 0);
    match find_marker_module(b, 0) {
        Some(p) => {
            if stmt_present_before(b, p, s) {
                assert(module_hoist(b, s) == b);
            } else {
                let b1 = b.insert(p, ModuleItemView::Stmt(s));
                b.insert_ensures(p, ModuleItemView::Stmt(s));
                assert(b1[p] == ModuleItemView::Stmt(s));
                assert(b1[p + 1] == b[p]);
                assert(is_marker_item(b1[p + 1]));
                assert(!is_marker_item(ModuleItemView::Stmt(s)));
                assert(forall|j: int| 0 <= j < p + 1 ==> !is_marker_item(#[trigger] b1[j]));
                lemma_find_marker_module_at(b1, 0, p + 1);
                assert(stmt_present_before(b1, p + 1, s));
                assert(module_hoist(b1, s) == b1);
            }
        },
        None => {
            let b1 = seq![ModuleItemView::Stmt(s), ModuleItemView::Stmt(marker_stmt_view())] + b;
            assert(b1[0] == ModuleItemView::Stmt(s));
            assert(b1[1] == ModuleItemView::Stmt(marker_stmt_view()));
            assert(!is_marker_item(b1[0]));
            lemma_find_marker_module_at(b1, 0, 1);
            assert(stmt_present_before(b1, 1, s));
            assert(module_hoist(b1, s) == b1);
        },
    }
}

} // verus!
