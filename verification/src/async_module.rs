//! The per-module async descriptor: whether a module is itself asynchronous,
//! which of its imported bindings must be awaited (the async-ident set), the
//! async-wrapper decision, and the synthesis of the async-dependency wiring.

use indexmap::IndexSet;
use vstd::prelude::*;
use vstd::string::StringExecFns;

use crate::esm::{
    classify_spec, external_ident_spec, internal_ident_spec, EsmAssetReference, ReferencedAsset,
    ReferencedAssetView,
};
use crate::index_set::{
    async_set_contains, async_set_items, ident_set_elems, ident_set_insert, ident_set_len,
    ident_set_new, ident_set_to_vec,
};
use crate::program::{insert_hoisted_stmt, program_hoist, CodeGeneration, Program, ProgramMutation, Stmt, StmtView};
use crate::resolve::{ModuleHandle, ModuleResolveResult, ResolveItemView};

verus! {

/// What the async-wrapper selection needs of one module: whether its body
/// holds a top-level await.
#[derive(PartialEq, Eq, Structural, Debug, Clone, Copy)]
pub struct AsyncModuleOptions {
    pub has_top_level_await: bool,
}

/// An optional [`AsyncModuleOptions`].
pub struct OptionAsyncModuleOptions(pub Option<AsyncModuleOptions>);

impl OptionAsyncModuleOptions {
    /// The absent wrapper decision.
    pub fn none() -> (r: Self)
        ensures
            r.0 is None,
    {
        OptionAsyncModuleOptions(None)
    }
}

/// The graph-wide async set for one compilation run: the chunk items, across
/// the whole chunk, that the caller's fixed point classified asynchronous.
pub struct AsyncModuleInfo {
    pub referenced_async_modules: IndexSet<u64>,
}

/// The per-module descriptor: the owning module, its import references in
/// first-seen order, its own top-level-await flag, and the externals-import
/// policy.
pub struct AsyncModule {
    pub placeable: ModuleHandle,
    pub references: Vec<EsmAssetReference>,
    pub has_top_level_await: bool,
    pub import_externals: bool,
}

/// An optional [`AsyncModule`].
pub struct OptionAsyncModule(pub Option<AsyncModule>);

/// Whether some reference classifies as external under the current resolver
/// snapshot, given the references' resolve results in reference order.
pub open spec fn has_external_reference(rrs: Seq<ModuleResolveResult>) -> bool {
    exists|i: int| 0 <= i < rrs.len() && (#[trigger] classify_spec(rrs[i]@)) is External
}

/// The module-local self-async formula: a top-level await, or the
/// externals-import policy together with at least one external reference.
pub open spec fn is_self_async_spec(
    has_top_level_await: bool,
    import_externals: bool,
    rrs: Seq<ModuleResolveResult>,
) -> bool {
    has_top_level_await || (import_externals && has_external_reference(rrs))
}

/// A top-level await alone makes a module self-async, whatever its
/// references resolve to.
pub proof fn lemma_top_level_await_is_self_async(import_externals: bool, rrs: Seq<ModuleResolveResult>)
    ensures
        is_self_async_spec(true, import_externals, rrs),
{
}

/// Without a top-level await and without the externals-import policy, a
/// module is never self-async, whatever its references resolve to.
pub proof fn lemma_no_await_no_externals_not_self_async(rrs: Seq<ModuleResolveResult>)
    ensures
        !is_self_async_spec(false, false, rrs),
{
}

/// First-occurrence deduplication: each string is kept at its first
/// occurrence, later occurrences are dropped, and the surviving order is the
/// input order.
pub open spec fn dedup_first(s: Seq<Seq<char>>) -> Seq<Seq<char>>
    decreases s.len(),
{
    if s.len() == 0 {
        Seq::empty()
    } else {
        let p = dedup_first(s.drop_last());
        if p.contains(s.last()) {
            p
        } else {
            p.push(s.last())
        }
    }
}

/// Deduplication keeps exactly the strings of the input.
pub proof fn lemma_dedup_first_membership(s: Seq<Seq<char>>, x: Seq<char>)
    ensures
        dedup_first(s).contains(x) == s.contains(x),
    decreases s.len(),
{
    if s.len() > 0 {
        let d = s.drop_last();
        lemma_dedup_first_membership(d, x);
        let p = dedup_first(d);
        if s.contains(x) {
            let i = choose|i: int| 0 <= i < s.len() && s[i] == x;
            if i < s.len() - 1 {
                assert(d[i] == x);
                assert(d.contains(x));
            } else {
                assert(s.last() == x);
            }
            if p.contains(x) {
                if !p.contains(s.last()) {
                    let k = choose|k: int| 0 <= k < p.len() && p[k] == x;
                    assert(p.push(s.last())[k] == x);
                    assert(dedup_first(s).contains(x));
                }
            } else {
                assert(x == s.last());
                assert(p.push(s.last())[p.len() as int] == x);
                assert(dedup_first(s).contains(x));
            }
        }
        if dedup_first(s).contains(x) {
            let k = choose|k: int| 0 <= k < dedup_first(s).len() && dedup_first(s)[k] == x;
            if p.contains(s.last()) {
                assert(d.contains(x));
                let m = choose|m: int| 0 <= m < d.len() && d[m] == x;
                assert(s[m] == x);
                assert(s.contains(x));
            } else {
                if k < p.len() {
                    assert(p[k] == x);
                    assert(d.contains(x));
                    let m = choose|m: int| 0 <= m < d.len() && d[m] == x;
                    assert(s[m] == x);
                    assert(s.contains(x));
                } else {
                    assert(x == s.last());
                    assert(s[s.len() - 1] == x);
                    assert(s.contains(x));
                }
            }
        }
    }
}

/// The deduplicated sequence holds no string twice.
pub proof fn lemma_dedup_first_no_dups(s: Seq<Seq<char>>)
    ensures
        forall|i: int, j: int|
            0 <= i < j < dedup_first(s).len() ==> dedup_first(s)[i] != dedup_first(s)[j],
    decreases s.len(),
{
    if s.len() > 0 {
        let d = s.drop_last();
        lemma_dedup_first_no_dups(d);
        let p = dedup_first(d);
        if !p.contains(s.last()) {
            assert forall|i: int, j: int|
                0 <= i < j < dedup_first(s).len() implies dedup_first(s)[i] != dedup_first(s)[j] by {
                if j < p.len() {
                    assert(dedup_first(s)[i] == p[i]);
                    assert(dedup_first(s)[j] == p[j]);
                } else {
                    assert(dedup_first(s)[j] == s.last());
                    assert(dedup_first(s)[i] == p[i]);
                    assert(!p.contains(s.last()));
                    if p[i] == s.last() {
                        assert(p.contains(s.last()));
                    }
                }
            }
        }
    }
}

/// The position of the first occurrence of `x` in `s`.
pub open spec fn first_index_of(s: Seq<Seq<char>>, x: Seq<char>) -> int
    decreases s.len(),
{
    if s.len() == 0 {
        0
    } else if s.drop_last().contains(x) {
        first_index_of(s.drop_last(), x)
    } else {
        s.len() - 1
    }
}

/// The first occurrence of a held string is a position holding it.
pub proof fn lemma_first_index_of_bounds(s: Seq<Seq<char>>, x: Seq<char>)
    requires
        s.contains(x),
    ensures
        0 <= first_index_of(s, x) < s.len(),
        s[first_index_of(s, x)] == x,
    decreases s.len(),
{
    let d = s.drop_last();
    if d.contains(x) {
        lemma_first_index_of_bounds(d, x);
        assert(s[first_index_of(d, x)] == d[first_index_of(d, x)]);
    } else {
        let i = choose|i: int| 0 <= i < s.len() && s[i] == x;
        if i < s.len() - 1 {
            assert(d[i] == x);
            assert(d.contains(x));
        }
        assert(s[s.len() - 1] == x);
    }
}

/// Deduplication preserves first-occurrence order: two survivors stand in the
/// order of their first occurrences in the input.
pub proof fn lemma_dedup_first_order(s: Seq<Seq<char>>, i: int, j: int)
    requires
        0 <= i < j < dedup_first(s).len(),
    ensures
        first_index_of(s, dedup_first(s)[i]) < first_index_of(s, dedup_first(s)[j]),
    decreases s.len(),
{
    if s.len() > 0 {
        let d = s.drop_last();
        let p = dedup_first(d);
        lemma_dedup_first_membership(d, dedup_first(s)[i]);
        lemma_dedup_first_membership(d, dedup_first(s)[j]);
        if p.contains(s.last()) {
            lemma_dedup_first_order(d, i, j);
            assert(p.contains(p[i]));
            assert(p.contains(p[j]));
            assert(d.contains(dedup_first(s)[i]));
            assert(d.contains(dedup_first(s)[j]));
        } else {
            if j < p.len() {
                lemma_dedup_first_order(d, i, j);
                assert(p.contains(p[i]));
                assert(p.contains(p[j]));
                assert(d.contains(dedup_first(s)[i]));
                assert(d.contains(dedup_first(s)[j]));
            } else {
                assert(dedup_first(s)[j] == s.last());
                assert(dedup_first(s)[i] == p[i]);
                assert(p.contains(p[i]));
                lemma_dedup_first_membership(d, p[i]);
                assert(d.contains(p[i]));
                lemma_first_index_of_bounds(d, p[i]);
                assert(first_index_of(s, p[i]) == first_index_of(d, p[i]));
                assert(!d.contains(s.last()));
                assert(first_index_of(s, s.last()) == s.len() - 1);
            }
        }
    }
}

/// The identifier one reference contributes to the async-ident set, if any:
/// an external reference under the externals-import policy, or an internal
/// reference whose chunk item the graph-wide async set holds. The chunking
/// policy plays no part here.
pub open spec fn async_ident_opt(
    items: Seq<ResolveItemView>,
    async_set: Set<u64>,
    import_externals: bool,
) -> Option<Seq<char>> {
    match classify_spec(items) {
        ReferencedAssetView::External(req) => if import_externals {
            Some(external_ident_spec(req))
        } else {
            None
        },
        ReferencedAssetView::Internal(m) => if async_set.contains(m.chunk_item) {
            Some(internal_ident_spec(m.identity))
        } else {
            None
        },
        ReferencedAssetView::Unclassified => None,
    }
}

/// The contributed identifiers of the first `n` references, in reference
/// order, duplicates still present.
pub open spec fn async_idents_up_to(
    rrs: Seq<ModuleResolveResult>,
    async_set: Set<u64>,
    import_externals: bool,
    n: int,
) -> Seq<Seq<char>>
    decreases n,
{
    if n <= 0 {
        Seq::empty()
    } else {
        let p = async_idents_up_to(rrs, async_set, import_externals, n - 1);
        match async_ident_opt(rrs[n - 1]@, async_set, import_externals) {
            Some(id) => p.push(id),
            None => p,
        }
    }
}

/// The async-ident set of a module: the contributed identifiers of all its
/// references, first occurrences only, in reference order.
pub open spec fn async_idents_spec(
    rrs: Seq<ModuleResolveResult>,
    async_set: Set<u64>,
    import_externals: bool,
) -> Seq<Seq<char>> {
    dedup_first(async_idents_up_to(rrs, async_set, import_externals, rrs.len() as int))
}

impl AsyncModule {
    /// Whether this module is itself asynchronous: it holds a top-level
    /// await, or the externals-import policy is on and some reference
    /// classifies as external. The graph-wide async set plays no part.
    pub fn is_self_async(&self, resolve_results: &Vec<ModuleResolveResult>) -> (r: bool)
        requires
            resolve_results@.len() == self.references@.len(),
        ensures
            r == is_self_async_spec(self.has_top_level_await, self.import_externals, resolve_results@),
    {
        if self.has_top_level_await {
            return true;
        }
        if !self.import_externals {
            return false;
        }
        let mut i: usize = 0;
        while i < resolve_results.len()
            invariant
                i <= resolve_results@.len(),
                self.import_externals,
                forall|j: int|
                    0 <= j < i ==> !((#[trigger] classify_spec(resolve_results@[j]@)) is External),
            decreases resolve_results@.len() - i,
        {
            let asset = ReferencedAsset::from_resolve_result(&resolve_results[i]);
            let is_external = match &asset {
                ReferencedAsset::External(_) => true,
                _ => false,
            };
            if is_external {
                proof {
                    assert(classify_spec(resolve_results@[i as int]@) is External);
                    assert(has_external_reference(resolve_results@));
                }
                return true;
            }
            i = i + 1;
        }
        false
    }

    /// Computes the async-ident set: iterate the references in their fixed
    /// order, classify each independently of its chunking policy, include
    /// qualifying identifiers, and collapse duplicates to their first
    /// occurrence.
    pub fn get_async_idents(
        &self,
        resolve_results: &Vec<ModuleResolveResult>,
        async_module_info: &AsyncModuleInfo,
    ) -> (r: IndexSet<String>)
        requires
            resolve_results@.len() == self.references@.len(),
        ensures
            ident_set_elems(r) == async_idents_spec(
                resolve_results@,
                async_set_items(async_module_info.referenced_async_modules),
                self.import_externals,
            ),
    {
        let ghost aset = async_set_items(async_module_info.referenced_async_modules);
        let ghost rrs = resolve_results@;
        let mut idents = ident_set_new();
        let mut i: usize = 0;
        while i < resolve_results.len()
            invariant
                i <= rrs.len(),
                rrs == resolve_results@,
                ident_set_elems(idents) == dedup_first(
                    async_idents_up_to(rrs, aset, self.import_externals, i as int),
                ),
                aset == async_set_items(async_module_info.referenced_async_modules),
            decreases rrs.len() - i,
        {
            let ghost prefix = async_idents_up_to(rrs, aset, self.import_externals, i as int);
            let asset = ReferencedAsset::from_resolve_result(&resolve_results[i]);
            let ident_opt: Option<String> = match &asset {
                ReferencedAsset::External(_) => {
                    if self.import_externals {
                        asset.get_ident()
                    } else {
                        None
                    }
                },
                ReferencedAsset::Internal(m) => {
                    if async_set_contains(&async_module_info.referenced_async_modules, m.chunk_item) {
                        asset.get_ident()
                    } else {
                        None
                    }
                },
                ReferencedAsset::Unclassified => None,
            };
            proof {
                assert(asset@ == classify_spec(rrs[i as int]@));
            }
            match ident_opt {
                Some(s) => {
                    proof {
                        assert(async_ident_opt(rrs[i as int]@, aset, self.import_externals)
                            == Some(s@));
                        let stepped = async_idents_up_to(rrs, aset, self.import_externals, i + 1);
                        assert(stepped == prefix.push(s@));
                        assert(stepped.drop_last() =~= prefix);
                        assert(stepped.last() == s@);
                    }
                    let _ = ident_set_insert(&mut idents, s);
                },
                None => {
                    proof {
                        assert(async_ident_opt(rrs[i as int]@, aset, self.import_externals) is None);
                        assert(async_idents_up_to(rrs, aset, self.import_externals, i + 1) == prefix);
                    }
                },
            }
            i = i + 1;
        }
        idents
    }

    /// The async-wrapper decision: absent when no graph-wide async set was
    /// supplied this run; otherwise sourced only from this module's own
    /// top-level-await flag.
    pub fn module_options(&self, async_module_info: Option<&AsyncModuleInfo>) -> (r:
        OptionAsyncModuleOptions)
        ensures
            match async_module_info {
                None => r.0 is None,
                Some(_) => r.0 == Some(
                    AsyncModuleOptions { has_top_level_await: self.has_top_level_await },
                ),
            },
    {
        match async_module_info {
            None => OptionAsyncModuleOptions(None),
            Some(_) => OptionAsyncModuleOptions(
                Some(AsyncModuleOptions { has_top_level_await: self.has_top_level_await }),
            ),
        }
    }
}

impl OptionAsyncModule {
    /// The absent descriptor.
    pub fn none() -> (r: Self)
        ensures
            r.0 is None,
    {
        OptionAsyncModule(None)
    }

    /// The async-wrapper decision of a held descriptor; absent otherwise.
    pub fn module_options(&self, async_module_info: Option<&AsyncModuleInfo>) -> (r:
        OptionAsyncModuleOptions)
        ensures
            match self.0 {
                Some(m) => match async_module_info {
                    None => r.0 is None,
                    Some(_) => r.0 == Some(
                        AsyncModuleOptions { has_top_level_await: m.has_top_level_await },
                    ),
                },
                None => r.0 is None,
            },
    {
        match &self.0 {
            Some(m) => m.module_options(async_module_info),
            None => OptionAsyncModuleOptions::none(),
        }
    }
}

/// The async identifiers joined with `", "`.
pub open spec fn ident_list_text(ids: Seq<Seq<char>>) -> Seq<char>
    decreases ids.len(),
{
    if ids.len() == 0 {
        Seq::empty()
    } else if ids.len() == 1 {
        ids[0]
    } else {
        ident_list_text(ids.drop_last()) + ", "@ + ids.last()
    }
}

/// The statement that gathers the awaited dependencies.
pub open spec fn async_deps_decl_text(ids: Seq<Seq<char>>) -> Seq<char> {
    "var __turbopack_async_dependencies__ = __turbopack_handle_async_dependencies__(["@
        + ident_list_text(ids) + "]);"@
}

/// The statement that re-destructures the gathered dependencies, awaiting
/// them only if the helper returned a thenable.
pub open spec fn async_deps_destructure_text(ids: Seq<Seq<char>>) -> Seq<char> {
    "["@ + ident_list_text(ids)
        + "] = __turbopack_async_dependencies__.then ? (await __turbopack_async_dependencies__)() : __turbopack_async_dependencies__;"@
}

/// The identifiers joined with `", "`, as executable code.
fn ident_list_string(ids: &Vec<String>) -> (r: String)
    ensures
        r@ == ident_list_text(ids@.map_values(|x: String| x@)),
{
    let ghost v = ids@.map_values(|x: String| x@);
    let mut t = String::new();
    let mut i: usize = 0;
    while i < ids.len()
        invariant
            i <= v.len(),
            v == ids@.map_values(|x: String| x@),
            t@ == ident_list_text(v.take(i as int)),
        decreases v.len() - i,
    {
        if i > 0 {
            t.append(", ");
        }
        t.append(ids[i].as_str());
        proof {
            assert(v.take(i + 1 as int).drop_last() =~= v.take(i as int));
            assert(v.take(i + 1 as int).last() == v[i as int]);
            if i == 0 {
                assert(t@ =~= v[0]);
                assert(v.take(1)[0] == v[0]);
            }
        }
        i = i + 1;
    }
    proof {
        assert(v.take(v.len() as int) =~= v);
    }
    t
}

/// Builds the two async-dependency statements for an ident set, in their
/// fixed order.
fn async_dependency_stmts(idents: &IndexSet<String>) -> (r: (Stmt, Stmt))
    ensures
        r.0@ == StmtView::Source(async_deps_decl_text(ident_set_elems(*idents))),
        r.1@ == StmtView::Source(async_deps_destructure_text(ident_set_elems(*idents))),
{
    let ids = ident_set_to_vec(idents);
    let list = ident_list_string(&ids);
    let mut first = String::from_str(
        "var __turbopack_async_dependencies__ = __turbopack_handle_async_dependencies__([",
    );
    first.append(list.as_str());
    first.append("]);");
    proof {
        assert(first@ =~= async_deps_decl_text(ident_set_elems(*idents)));
    }
    let mut second = String::from_str("[");
    second.append(list.as_str());
    second.append(
        "] = __turbopack_async_dependencies__.then ? (await __turbopack_async_dependencies__)() : __turbopack_async_dependencies__;",
    );
    proof {
        assert(second@ =~= async_deps_destructure_text(ident_set_elems(*idents)));
    }
    (Stmt::Source(first), Stmt::Source(second))
}

/// Splices the async-dependency wiring into a program body: the gathering
/// statement, then the re-destructuring statement, both hoisted.
pub fn add_async_dependency_handler(program: Program, idents: &IndexSet<String>) -> (r: Program)
    ensures
        r@ == program_hoist(
            program_hoist(
                program@,
                StmtView::Source(async_deps_decl_text(ident_set_elems(*idents))),
            ),
            StmtView::Source(async_deps_destructure_text(ident_set_elems(*idents))),
        ),
{
    let (first, second) = async_dependency_stmts(idents);
    let p = insert_hoisted_stmt(program, first);
    insert_hoisted_stmt(p, second)
}

/// The synthesis rule for one module descriptor: with a graph-wide async set
/// supplied and a non-empty async-ident set, exactly one mutation hoisting
/// the gathering statement and then the re-destructuring statement; nothing
/// otherwise.
pub open spec fn async_code_gen_spec(
    rrs: Seq<ModuleResolveResult>,
    async_set: Set<u64>,
    import_externals: bool,
) -> Seq<Seq<StmtView>> {
    let ids = async_idents_spec(rrs, async_set, import_externals);
    if ids.len() == 0 {
        Seq::empty()
    } else {
        seq![
            seq![
                StmtView::Source(async_deps_decl_text(ids)),
                StmtView::Source(async_deps_destructure_text(ids)),
            ],
        ]
    }
}

impl AsyncModule {
    /// Synthesizes this module's async-dependency mutation, per
    /// `async_code_gen_spec`; nothing when no graph-wide async set was
    /// supplied this run.
    pub fn code_generation(
        &self,
        async_module_info: Option<&AsyncModuleInfo>,
        resolve_results: &Vec<ModuleResolveResult>,
    ) -> (r: CodeGeneration)
        requires
            resolve_results@.len() == self.references@.len(),
        ensures
            match async_module_info {
                None => r@ == Seq::<Seq<StmtView>>::empty(),
                Some(info) => r@ == async_code_gen_spec(
                    resolve_results@,
                    async_set_items(info.referenced_async_modules),
                    self.import_externals,
                ),
            },
    {
        match async_module_info {
            None => {
                let cg = CodeGeneration { mutations: Vec::new() };
                proof {
                    assert(cg@ =~~= Seq::<Seq<StmtView>>::empty());
                }
                cg
            },
            Some(info) => {
                let idents = self.get_async_idents(resolve_results, info);
                if ident_set_len(&idents) == 0 {
                    let cg = CodeGeneration { mutations: Vec::new() };
                    proof {
                        assert(cg@ =~~= Seq::<Seq<StmtView>>::empty());
                    }
                    cg
                } else {
                    let (first, second) = async_dependency_stmts(&idents);
                    let ghost fv = first@;
                    let ghost sv = second@;
                    let mut hoisted: Vec<Stmt> = Vec::new();
                    hoisted.push(first);
                    hoisted.push(second);
                    let mut mutations: Vec<ProgramMutation> = Vec::new();
                    mutations.push(ProgramMutation { hoisted });
                    let cg = CodeGeneration { mutations };
                    proof {
                        assert(cg@ =~~= seq![seq![fv, sv]]);
                    }
                    cg
                }
            },
        }
    }
}

} // verus!
