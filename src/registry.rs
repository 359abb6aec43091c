//! The tileset registry: tileset id to tileset name.
use std::collections::HashMap;
use vstd::prelude::*;
use crate::document::{LDtk, Tileset};

verus! {

broadcast use vstd::std_specs::hash::group_hash_axioms;

/// The names that a run of tileset definitions registers: each id maps to
/// the name of its last definition.
pub open spec fn registry_of(defs: Seq<Tileset>) -> Map<usize, Seq<char>>
    decreases defs.len(),
{
    if defs.len() == 0 {
        Map::empty()
    } else {
        registry_of(defs.drop_last()).insert(defs.last().uid, defs.last().identifier@)
    }
}

/// `names` holds exactly the entries of `registry`, each name as a `String`.
pub open spec fn holds_registry(names: Map<usize, String>, registry: Map<usize, Seq<char>>) -> bool {
    &&& names.dom() == registry.dom()
    &&& forall|id: usize| #[trigger] names.contains_key(id) ==> names[id]@ == registry[id]
}

/// Builds the map from tileset id to tileset name of a document.
pub fn tilesets(data: &LDtk) -> (r: HashMap<usize, String>)
    ensures
        holds_registry(r@, registry_of(data.defs.tilesets@)),
{
    let defs = &data.defs.tilesets;
    let mut names: HashMap<usize, String> = HashMap::new();
    let mut i: usize = 0;
    while i < defs.len()
        invariant
            i <= defs@.len(),
            holds_registry(names@, registry_of(defs@.take(i as int))),
        decreases defs@.len() - i,
    {
        assert(defs@.take(i + 1).drop_last() =~= defs@.take(i as int));
        names.insert(defs[i].uid, defs[i].identifier.clone());
        i = i + 1;
    }
    assert(defs@.take(i as int) =~= defs@);
    names
}

} // verus!
