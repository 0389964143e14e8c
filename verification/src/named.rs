//! The named schemas of a document, in the map that the decoder fills.

use crate::schema::SchemaRef;
use indexmap::IndexMap;
use vstd::prelude::*;

verus! {

/// `indexmap::IndexMap`: a map whose entries stand in an order of their own.
#[verifier::external_type_specification]
#[verifier::external_body]
#[verifier::reject_recursive_types(K)]
#[verifier::reject_recursive_types(V)]
#[verifier::reject_recursive_types(S)]
pub struct ExIndexMap<K, V, S>(IndexMap<K, V, S>);

/// The entries of a map of named schemas, in the order of the map.
pub uninterp spec fn named_schemas(map: IndexMap<String, SchemaRef>) -> Seq<(String, SchemaRef)>;

/// Calls `IndexMap::iter` and collects what it yields: the entries of the
/// map in the map's order.
#[verifier::external_body]
pub(crate) fn entries<'a>(
    map: &'a IndexMap<String, SchemaRef>,
) -> (res: Vec<(&'a String, &'a SchemaRef)>)
    ensures
        res.len() == named_schemas(*map).len(),
        forall|i: int|
            0 <= i < res.len() ==> *(#[trigger] res[i]).0 == named_schemas(*map)[i].0 && *res[i].1
                == named_schemas(*map)[i].1,
{
    map.iter().collect()
}

} // verus!
