//! Static ESM import references: classification of the resolver's answer,
//! identifier derivation, the chunking-policy decision, and the per-reference
//! synthesis of runtime-support statements.

use vstd::prelude::*;
use vstd::string::StringExecFns;

use crate::magic_identifier::{mangle, mangle_spec};
use crate::program::{CodeGeneration, ProgramMutation, Stmt, StmtView};
use crate::resolve::{
    ChunkingContext, ModuleHandle, ModuleHandleView, ModuleId, ModuleIdView, ModuleResolveResult,
    ModuleResolveResultItem, ResolveItemView, unresolvable_spec,
};
use crate::text::{chars_to_string, dec_seq, str_equal, u32_to_decimal};

verus! {

/// The abstract value of an asset classification.
pub enum ReferencedAssetView {
    Internal(ModuleHandleView),
    External(Seq<char>),
    Unclassified,
}

/// The classification of one import reference under the current resolver
/// snapshot: an internal chunkable module, an external module kept unbundled
/// (carrying the literal request string), or unclassified.
#[derive(Debug, PartialEq, Eq)]
pub enum ReferencedAsset {
    Internal(ModuleHandle),
    External(String),
    Unclassified,
}

impl View for ReferencedAsset {
    type V = ReferencedAssetView;

    open spec fn view(&self) -> ReferencedAssetView {
        match self {
            ReferencedAsset::Internal(m) => ReferencedAssetView::Internal(m@),
            ReferencedAsset::External(s) => ReferencedAssetView::External(s@),
            ReferencedAsset::Unclassified => ReferencedAssetView::Unclassified,
        }
    }
}

/// The classification scan from entry `i` on: the first entry that is an
/// external marker or a chunkable module wins; ignored and unresolvable
/// entries are skipped; an exhausted scan is unclassified.
pub open spec fn classify_from(items: Seq<ResolveItemView>, i: int) -> ReferencedAssetView
    decreases items.len() - i,
    when 0 <= i <= items.len()
{
    if i >= items.len() {
        ReferencedAssetView::Unclassified
    } else {
        match items[i] {
            ResolveItemView::External(req) => ReferencedAssetView::External(req),
            ResolveItemView::Module(m) => if m.chunkable {
                ReferencedAssetView::Internal(m)
            } else {
                classify_from(items, i + 1)
            },
            _ => classify_from(items, i + 1),
        }
    }
}

/// The classification of a whole resolve result. Only the first matching
/// entry is honored, even when several keyed entries exist.
pub open spec fn classify_spec(items: Seq<ResolveItemView>) -> ReferencedAssetView {
    classify_from(items, 0)
}

/// The synthetic identifier bound to an imported internal module.
pub open spec fn internal_ident_spec(identity: Seq<char>) -> Seq<char> {
    mangle_spec("imported module "@ + identity)
}

/// The synthetic identifier bound to an external module.
pub open spec fn external_ident_spec(request: Seq<char>) -> Seq<char> {
    mangle_spec("external "@ + request)
}

impl ReferencedAsset {
    /// Classifies the resolver's answer, honoring the first matching entry.
    pub fn from_resolve_result(resolve_result: &ModuleResolveResult) -> (r: Self)
        ensures
            r@ == classify_spec(resolve_result@),
    {
        let ghost items = resolve_result@;
        let mut i: usize = 0;
        while i < resolve_result.items.len()
            invariant
                i <= items.len(),
                items == resolve_result@,
                items.len() == resolve_result.items@.len(),
                classify_spec(items) == classify_from(items, i as int),
            decreases items.len() - i,
        {
            proof {
                assert(items[i as int] == resolve_result.items@[i as int]@);
            }
            match &resolve_result.items[i] {
                ModuleResolveResultItem::External(request) => {
                    return ReferencedAsset::External(request.clone());
                },
                ModuleResolveResultItem::Module(m) => {
                    if m.chunkable {
                        return ReferencedAsset::Internal(m.duplicate());
                    }
                },
                _ => {},
            }
            i = i + 1;
        }
        ReferencedAsset::Unclassified
    }

    /// The synthetic identifier this classification binds, if any.
    pub fn get_ident(&self) -> (r: Option<String>)
        ensures
            match *self {
                ReferencedAsset::Internal(m) => r matches Some(s) && s@ == internal_ident_spec(
                    m.identity@,
                ),
                ReferencedAsset::External(req) => r matches Some(s) && s@ == external_ident_spec(
                    req@,
                ),
                ReferencedAsset::Unclassified => r is None,
            },
    {
        match self {
            ReferencedAsset::Internal(m) => Some(Self::get_ident_from_placeable(m)),
            ReferencedAsset::External(request) => {
                let mut label = String::from_str("external ");
                label.append(request.as_str());
                Some(mangle(label.as_str()))
            },
            ReferencedAsset::Unclassified => None,
        }
    }

    /// The synthetic identifier for an internal module, derived from the
    /// module's fully-qualified identity string.
    pub fn get_ident_from_placeable(asset: &ModuleHandle) -> (r: String)
        ensures
            r@ == internal_ident_spec(asset.identity@),
    {
        let mut label = String::from_str("imported module ");
        label.append(asset.identity.as_str());
        mangle(label.as_str())
    }
}

/// The import annotations carried by one reference: an optional transition
/// name and an optional chunking-type override.
#[derive(Debug, PartialEq, Eq, Hash)]
pub struct ImportAnnotations {
    pub transition: Option<String>,
    pub chunking_type: Option<String>,
}

/// One static ESM import edge: a persistent, structurally comparable
/// descriptor. `origin` and `issue_source` are opaque handles into the
/// surrounding system; `request` is the literal import specifier.
#[derive(Debug, PartialEq, Eq, Hash)]
pub struct EsmAssetReference {
    pub origin: u64,
    pub request: String,
    pub annotations: ImportAnnotations,
    pub issue_source: Option<u64>,
    pub export_name: Option<String>,
    pub import_externals: bool,
}

/// A list of import references.
pub struct EsmAssetReferences(pub Vec<EsmAssetReference>);

/// The resolution subtype handed to the external resolver for one reference.
pub enum EcmaScriptModulesReferenceSubType {
    ImportPart(String),
    Import,
}

/// Whether an import reference takes part in chunking, and how.
#[derive(Debug, Clone, Copy, PartialEq, Eq)]
pub enum ChunkingPolicy {
    ParallelInheritAsync,
    Excluded,
}

/// The abstract value of a synthesis error.
pub enum CodeGenErrorView {
    UnknownChunkingType(Seq<char>),
    UnsupportedExternalModule(Seq<char>),
}

/// A synthesis error: an unknown chunking-type annotation (carrying the
/// offending literal value), or an external module requested under an
/// environment without the required capability (carrying the literal
/// request).
#[derive(Debug, PartialEq, Eq)]
pub enum CodeGenError {
    UnknownChunkingType(String),
    UnsupportedExternalModule(String),
}

impl View for CodeGenError {
    type V = CodeGenErrorView;

    open spec fn view(&self) -> CodeGenErrorView {
        match self {
            CodeGenError::UnknownChunkingType(s) => CodeGenErrorView::UnknownChunkingType(s@),
            CodeGenError::UnsupportedExternalModule(s) => CodeGenErrorView::UnsupportedExternalModule(
                s@,
            ),
        }
    }
}

/// The abstract value of an optional string.
pub open spec fn opt_str_view(o: Option<String>) -> Option<Seq<char>> {
    match o {
        Some(s) => Some(s@),
        None => None,
    }
}

/// The chunking-policy decision: an absent annotation or `"parallel"` means
/// parallel-inherit-async, `"none"` means excluded, and any other value is a
/// configuration error carrying that value.
pub open spec fn chunking_policy_spec(chunking_type: Option<Seq<char>>) -> Result<
    ChunkingPolicy,
    Seq<char>,
> {
    match chunking_type {
        None => Ok(ChunkingPolicy::ParallelInheritAsync),
        Some(s) => if s == "parallel"@ {
            Ok(ChunkingPolicy::ParallelInheritAsync)
        } else if s == "none"@ {
            Ok(ChunkingPolicy::Excluded)
        } else {
            Err(s)
        },
    }
}

impl EsmAssetReference {
    /// Builds a reference descriptor from its fields.
    pub fn new(
        origin: u64,
        request: String,
        issue_source: Option<u64>,
        annotations: ImportAnnotations,
        export_name: Option<String>,
        import_externals: bool,
    ) -> (r: Self)
        ensures
            r == (EsmAssetReference {
                origin,
                request,
                issue_source,
                annotations,
                export_name,
                import_externals,
            }),
    {
        EsmAssetReference { origin, request, issue_source, annotations, export_name, import_externals }
    }

    /// The resolution subtype for this reference: a named-part import where
    /// an export part is carried, a plain import otherwise.
    pub fn reference_subtype(&self) -> (r: EcmaScriptModulesReferenceSubType)
        ensures
            match self.export_name {
                Some(p) => r matches EcmaScriptModulesReferenceSubType::ImportPart(q) && q@ == p@,
                None => r is Import,
            },
    {
        match &self.export_name {
            Some(p) => EcmaScriptModulesReferenceSubType::ImportPart(p.clone()),
            None => EcmaScriptModulesReferenceSubType::Import,
        }
    }

    /// Decides the chunking policy from this reference's annotation.
    pub fn chunking_policy(&self) -> (r: Result<ChunkingPolicy, CodeGenError>)
        ensures
            match chunking_policy_spec(opt_str_view(self.annotations.chunking_type)) {
                Ok(p) => r == Ok::<ChunkingPolicy, CodeGenError>(p),
                Err(v) => r matches Err(e) && e@ == CodeGenErrorView::UnknownChunkingType(v),
            },
    {
        match &self.annotations.chunking_type {
            Some(s) => {
                if str_equal(s.as_str(), "parallel") {
                    Ok(ChunkingPolicy::ParallelInheritAsync)
                } else if str_equal(s.as_str(), "none") {
                    Ok(ChunkingPolicy::Excluded)
                } else {
                    Err(CodeGenError::UnknownChunkingType(s.clone()))
                }
            },
            None => Ok(ChunkingPolicy::ParallelInheritAsync),
        }
    }

    /// Classifies this reference under the resolver's current answer.
    pub fn get_referenced_asset(&self, resolved: &ModuleResolveResult) -> (r: ReferencedAsset)
        ensures
            r@ == classify_spec(resolved@),
    {
        ReferencedAsset::from_resolve_result(resolved)
    }
}

/// A string value as a quoted literal in generated code.
pub open spec fn js_string_lit(s: Seq<char>) -> Seq<char> {
    "\""@ + s + "\""@
}

/// A chunk-item id encoded as-is: a string id quoted, a numeric id in
/// decimal.
pub open spec fn module_id_text(id: ModuleIdView) -> Seq<char> {
    match id {
        ModuleIdView::Str(s) => js_string_lit(s),
        ModuleIdView::Num(n) => dec_seq(n as nat),
    }
}

/// The import binding for an internal module.
pub open spec fn import_stmt_text(ident: Seq<char>, id: ModuleIdView) -> Seq<char> {
    "var "@ + ident + " = __turbopack_import__("@ + module_id_text(id) + ");"@
}

/// The import binding for an external module under the ESM policy.
pub open spec fn external_import_stmt_text(ident: Seq<char>, request: Seq<char>) -> Seq<char> {
    "var "@ + ident + " = __turbopack_external_import__("@ + js_string_lit(request) + ");"@
}

/// The import binding for an external module under the require policy.
pub open spec fn external_require_stmt_text(ident: Seq<char>, request: Seq<char>) -> Seq<char> {
    "var "@ + ident + " = __turbopack_external_require__("@ + js_string_lit(request) + ", true);"@
}

/// The statement that throws a module-not-found error at evaluation time,
/// naming the literal import specifier.
pub open spec fn throw_stmt_text(request: Seq<char>) -> Seq<char> {
    "throw new Error(\"Cannot find module '"@ + request + "'\");"@
}

/// Builds the module-not-found throw statement for a request.
pub fn throw_module_not_found_stmt(request: &String) -> (r: Stmt)
    ensures
        r@ == StmtView::Source(throw_stmt_text(request@)),
{
    let mut t = String::from_str("throw new Error(\"Cannot find module '");
    t.append(request.as_str());
    t.append("'\");");
    proof {
        assert(t@ =~= throw_stmt_text(request@));
    }
    Stmt::Source(t)
}

/// A string id as a quoted literal.
fn quoted(s: &String) -> (r: String)
    ensures
        r@ == js_string_lit(s@),
{
    let mut t = String::from_str("\"");
    t.append(s.as_str());
    t.append("\"");
    proof {
        assert(t@ =~= js_string_lit(s@));
    }
    t
}

/// A chunk-item id rendered into generated code.
fn module_id_string(id: &ModuleId) -> (r: String)
    ensures
        r@ == module_id_text(id@),
{
    match id {
        ModuleId::Str(s) => quoted(s),
        ModuleId::Num(n) => chars_to_string(u32_to_decimal(*n)),
    }
}

/// A code generation holding exactly one mutation that hoists one statement.
fn single_stmt_code_gen(stmt: Stmt) -> (r: CodeGeneration)
    ensures
        r@ == seq![seq![stmt@]],
{
    let ghost sv = stmt@;
    let mut hoisted: Vec<Stmt> = Vec::new();
    hoisted.push(stmt);
    let mut mutations: Vec<ProgramMutation> = Vec::new();
    mutations.push(ProgramMutation { hoisted });
    let cg = CodeGeneration { mutations };
    proof {
        assert(cg@ =~~= seq![seq![sv]]);
    }
    cg
}

/// A code generation holding no mutation.
fn empty_code_gen() -> (r: CodeGeneration)
    ensures
        r@ == Seq::<Seq<StmtView>>::empty(),
{
    let cg = CodeGeneration { mutations: Vec::new() };
    proof {
        assert(cg@ =~~= Seq::<Seq<StmtView>>::empty());
    }
    cg
}

/// The exact synthesis rules for one reference, in evaluation order: an
/// unresolvable result yields exactly one throw mutation, whatever the
/// chunking policy; then an unknown chunking-type annotation is a
/// configuration error; an excluded reference yields nothing; otherwise the
/// classification decides — an internal module binds its chunk-item id, an
/// external module needs the environment capability and binds through the
/// external import or require helper, and an unclassified reference yields
/// nothing.
pub open spec fn reference_code_gen_spec(
    er: EsmAssetReference,
    supports_commonjs_externals: bool,
    rr: Seq<ResolveItemView>,
) -> Result<Seq<Seq<StmtView>>, CodeGenErrorView> {
    if unresolvable_spec(rr) {
        Ok(seq![seq![StmtView::Source(throw_stmt_text(er.request@))]])
    } else {
        match chunking_policy_spec(opt_str_view(er.annotations.chunking_type)) {
            Err(v) => Err(CodeGenErrorView::UnknownChunkingType(v)),
            Ok(ChunkingPolicy::Excluded) => Ok(Seq::empty()),
            Ok(ChunkingPolicy::ParallelInheritAsync) => match classify_spec(rr) {
                ReferencedAssetView::Internal(m) => Ok(
                    seq![seq![StmtView::Source(import_stmt_text(internal_ident_spec(m.identity), m.id))]],
                ),
                ReferencedAssetView::External(req) => if !supports_commonjs_externals {
                    Err(CodeGenErrorView::UnsupportedExternalModule(req))
                } else if er.import_externals {
                    Ok(
                        seq![seq![StmtView::Source(external_import_stmt_text(external_ident_spec(req), req))]],
                    )
                } else {
                    Ok(
                        seq![seq![StmtView::Source(external_require_stmt_text(external_ident_spec(req), req))]],
                    )
                },
                ReferencedAssetView::Unclassified => Ok(Seq::empty()),
            },
        }
    }
}

/// The abstract value of a synthesis outcome.
pub open spec fn code_gen_result_view(r: Result<CodeGeneration, CodeGenError>) -> Result<
    Seq<Seq<StmtView>>,
    CodeGenErrorView,
> {
    match r {
        Ok(cg) => Ok(cg@),
        Err(e) => Err(e@),
    }
}

impl EsmAssetReference {
    /// Synthesizes this reference's program mutations under the given
    /// chunking context and the resolver's current answer, per
    /// `reference_code_gen_spec`.
    pub fn code_generation(
        &self,
        chunking_context: &ChunkingContext,
        resolved: &ModuleResolveResult,
    ) -> (r: Result<CodeGeneration, CodeGenError>)
        ensures
            code_gen_result_view(r) == reference_code_gen_spec(
                *self,
                chunking_context.supports_commonjs_externals,
                resolved@,
            ),
    {
        if resolved.is_unresolvable() {
            let stmt = throw_module_not_found_stmt(&self.request);
            return Ok(single_stmt_code_gen(stmt));
        }
        let policy = match self.chunking_policy() {
            Ok(p) => p,
            Err(e) => {
                return Err(e);
            },
        };
        match policy {
            ChunkingPolicy::Excluded => Ok(empty_code_gen()),
            ChunkingPolicy::ParallelInheritAsync => {
                let referenced_asset = ReferencedAsset::from_resolve_result(resolved);
                match &referenced_asset {
                    ReferencedAsset::Internal(m) => {
                        let ident = ReferencedAsset::get_ident_from_placeable(m);
                        let id_text = module_id_string(&m.id);
                        let mut t = String::from_str("var ");
                        t.append(ident.as_str());
                        t.append(" = __turbopack_import__(");
                        t.append(id_text.as_str());
                        t.append(");");
                        proof {
                            assert(t@ =~= import_stmt_text(internal_ident_spec(m.identity@), m.id@));
                        }
                        Ok(single_stmt_code_gen(Stmt::Source(t)))
                    },
                    ReferencedAsset::External(request) => {
                        if !chunking_context.supports_commonjs_externals {
                            return Err(CodeGenError::UnsupportedExternalModule(request.clone()));
                        }
                        let mut label = String::from_str("external ");
                        label.append(request.as_str());
                        let ident = mangle(label.as_str());
                        let quoted_request = quoted(request);
                        let mut t = String::from_str("var ");
                        t.append(ident.as_str());
                        if self.import_externals {
                            t.append(" = __turbopack_external_import__(");
                            t.append(quoted_request.as_str());
                            t.append(");");
                            proof {
                                assert(t@ =~= external_import_stmt_text(
                                    external_ident_spec(request@),
                                    request@,
                                ));
                            }
                        } else {
                            t.append(" = __turbopack_external_require__(");
                            t.append(quoted_request.as_str());
                            t.append(", true);");
                            proof {
                                assert(t@ =~= external_require_stmt_text(
                                    external_ident_spec(request@),
                                    request@,
                                ));
                            }
                        }
                        Ok(single_stmt_code_gen(Stmt::Source(t)))
                    },
                    ReferencedAsset::Unclassified => Ok(empty_code_gen()),
                }
            },
        }
    }
}

} // verus!
