//! Trusted interface to `indexmap`'s `IndexSet`, the insertion-ordered set
//! that holds synthesized identifiers and the graph-wide set of async chunk
//! items. Each contract below states only what `indexmap`'s documentation and
//! source promise of the method it wraps.

use indexmap::IndexSet;
use vstd::prelude::*;

verus! {

#[verifier::external_type_specification]
#[verifier::external_body]
#[verifier::reject_recursive_types(T)]
#[verifier::reject_recursive_types(S)]
pub struct ExIndexSet<T, S>(IndexSet<T, S>);

/// The distinct strings an identifier set holds, in insertion order.
pub uninterp spec fn ident_set_elems(s: IndexSet<String>) -> Seq<Seq<char>>;

/// The chunk-item keys a graph-wide async set holds.
pub uninterp spec fn async_set_items(s: IndexSet<u64>) -> Set<u64>;

/// Relies on `IndexSet::new`: a fresh set holds nothing.
#[verifier::external_body]
pub(crate) fn ident_set_new() -> (r: IndexSet<String>)
    ensures
        ident_set_elems(r) == Seq::<Seq<char>>::empty(),
{
    IndexSet::new()
}

/// Relies on `IndexSet::insert`: a value with no equal already present is
/// appended at the end of the insertion order and `true` comes back; an
/// already-present value leaves the set, and its order, unchanged.
#[verifier::external_body]
pub(crate) fn ident_set_insert(s: &mut IndexSet<String>, value: String) -> (added: bool)
    ensures
        added == !ident_set_elems(*old(s)).contains(value@),
        ident_set_elems(*final(s)) == if ident_set_elems(*old(s)).contains(value@) {
            ident_set_elems(*old(s))
        } else {
            ident_set_elems(*old(s)).push(value@)
        },
{
    s.insert(value)
}

/// Relies on `IndexSet::len`: the number of values held.
#[verifier::external_body]
pub(crate) fn ident_set_len(s: &IndexSet<String>) -> (n: usize)
    ensures
        n == ident_set_elems(*s).len(),
{
    s.len()
}

/// Relies on `IndexSet::iter`: iteration follows the insertion order.
#[verifier::external_body]
pub(crate) fn ident_set_to_vec(s: &IndexSet<String>) -> (r: Vec<String>)
    ensures
        r@.map_values(|x: String| x@) == ident_set_elems(*s),
{
    s.iter().cloned().collect()
}

/// Relies on `IndexSet::contains`: membership by equality.
#[verifier::external_body]
pub(crate) fn async_set_contains(s: &IndexSet<u64>, value: u64) -> (r: bool)
    ensures
        r == async_set_items(*s).contains(value),
{
    s.contains(&value)
}

} // verus!
