//! Plain-value models of what the external collaborators hand this core: the
//! resolver's answer for one import reference, the handle of a resolved
//! module together with what the active chunking context assigns to it, and
//! the chunking context's capability flag.

use vstd::prelude::*;

verus! {

/// The abstract value of a chunk-item id.
pub enum ModuleIdView {
    Str(Seq<char>),
    Num(u32),
}

/// The id a chunk item is assigned under the active chunking context: a
/// string or a number, encoded as-is into generated code.
#[derive(Debug, PartialEq, Eq)]
pub enum ModuleId {
    Str(String),
    Num(u32),
}

impl View for ModuleId {
    type V = ModuleIdView;

    open spec fn view(&self) -> ModuleIdView {
        match self {
            ModuleId::Str(s) => ModuleIdView::Str(s@),
            ModuleId::Num(n) => ModuleIdView::Num(*n),
        }
    }
}

impl ModuleId {
    /// Copies a module id.
    pub fn duplicate(&self) -> (r: ModuleId)
        ensures
            r@ == self@,
    {
        match self {
            ModuleId::Str(s) => ModuleId::Str(s.clone()),
            ModuleId::Num(n) => ModuleId::Num(*n),
        }
    }
}

/// The abstract value of a module handle.
pub struct ModuleHandleView {
    pub chunkable: bool,
    pub identity: Seq<char>,
    pub chunk_item: u64,
    pub id: ModuleIdView,
}

/// What the logic reads of a resolved module: whether the module offers the
/// chunkable-module capability, its fully-qualified identity string, and the
/// chunk item the active chunking context materializes for it — the key by
/// which the graph-wide async set knows it, and the id spliced into generated
/// code.
#[derive(Debug, PartialEq, Eq)]
pub struct ModuleHandle {
    pub chunkable: bool,
    pub identity: String,
    pub chunk_item: u64,
    pub id: ModuleId,
}

impl View for ModuleHandle {
    type V = ModuleHandleView;

    open spec fn view(&self) -> ModuleHandleView {
        ModuleHandleView {
            chunkable: self.chunkable,
            identity: self.identity@,
            chunk_item: self.chunk_item,
            id: self.id@,
        }
    }
}

impl ModuleHandle {
    /// Copies a module handle.
    pub fn duplicate(&self) -> (r: ModuleHandle)
        ensures
            r@ == self@,
    {
        ModuleHandle {
            chunkable: self.chunkable,
            identity: self.identity.clone(),
            chunk_item: self.chunk_item,
            id: self.id.duplicate(),
        }
    }
}

/// The abstract value of one resolve-result entry.
pub enum ResolveItemView {
    Module(ModuleHandleView),
    External(Seq<char>),
    Ignored,
    Unresolvable,
}

/// One entry of the resolver's answer: a resolved module handle, an
/// external-module marker carrying the literal request string, an ignored
/// entry, or an unresolvable marker.
#[derive(Debug, PartialEq, Eq)]
pub enum ModuleResolveResultItem {
    Module(ModuleHandle),
    External(String),
    Ignored,
    Unresolvable,
}

impl View for ModuleResolveResultItem {
    type V = ResolveItemView;

    open spec fn view(&self) -> ResolveItemView {
        match self {
            ModuleResolveResultItem::Module(m) => ResolveItemView::Module(m@),
            ModuleResolveResultItem::External(s) => ResolveItemView::External(s@),
            ModuleResolveResultItem::Ignored => ResolveItemView::Ignored,
            ModuleResolveResultItem::Unresolvable => ResolveItemView::Unresolvable,
        }
    }
}

/// The resolver's answer for one import reference: its entries in
/// resolver-supplied order.
#[derive(Debug, PartialEq, Eq)]
pub struct ModuleResolveResult {
    pub items: Vec<ModuleResolveResultItem>,
}

impl View for ModuleResolveResult {
    type V = Seq<ResolveItemView>;

    open spec fn view(&self) -> Seq<ResolveItemView> {
        self.items@.map_values(|it: ModuleResolveResultItem| it@)
    }
}

/// A resolve result reports the reference unresolvable when every entry is
/// the unresolvable marker — in particular when it has no entries at all.
pub open spec fn unresolvable_spec(items: Seq<ResolveItemView>) -> bool {
    forall|i: int| 0 <= i < items.len() ==> #[trigger] items[i] is Unresolvable
}

impl ModuleResolveResult {
    /// Whether this result reports the reference unresolvable.
    pub fn is_unresolvable(&self) -> (r: bool)
        ensures
            r == unresolvable_spec(self@),
    {
        let mut i: usize = 0;
        while i < self.items.len()
            invariant
                i <= self.items@.len(),
                forall|j: int| 0 <= j < i ==> #[trigger] self@[j] is Unresolvable,
            decreases self.items@.len() - i,
        {
            let hit = match &self.items[i] {
                ModuleResolveResultItem::Unresolvable => true,
                _ => false,
            };
            proof {
                assert(self@[i as int] == self.items@[i as int]@);
            }
            if !hit {
                return false;
            }
            i = i + 1;
        }
        true
    }
}

/// What the logic reads of the active chunking context: whether its
/// environment supports loading external modules through a host require.
pub struct ChunkingContext {
    pub supports_commonjs_externals: bool,
}

} // verus!
