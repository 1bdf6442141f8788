//! The game objects of a room, in the order they were inserted.
//!
//! They are held in an `indexmap::IndexMap`, whose contents are named by
//! [`object_entries`]; each operation on it goes through a function here whose
//! contract states what it does to them.
use vstd::prelude::*;

use crate::room::maps::{
    has_key, index_of, inserted, lemma_index_of, lemma_inserted, lemma_shift_removed, lookup, shift_removed, unique_keys,
};
use crate::room::object::{object_wf, GameObject, GameObjectModel};
use crate::types::GameObjectId;

verus! {

#[verifier::external_type_specification]
#[verifier::external_body]
#[verifier::reject_recursive_types(K)]
#[verifier::reject_recursive_types(V)]
#[verifier::reject_recursive_types(S)]
pub struct ExIndexMap<K, V, S>(indexmap::IndexMap<K, V, S>);

pub type GameObjects = indexmap::IndexMap<GameObjectId, GameObject>;

/// The objects of a map with their identifiers, in their order.
pub uninterp spec fn object_entries(m: GameObjects) -> Seq<(GameObjectId, GameObjectModel)>;

/// `indexmap::IndexMap::new`: an empty map.
#[verifier::external_body]
pub(crate) fn objects_new() -> (r: GameObjects)
    ensures
        object_entries(r) == Seq::<(GameObjectId, GameObjectModel)>::empty(),
{
    indexmap::IndexMap::new()
}

/// `indexmap::IndexMap::get`: the object with the identifier, if any.
#[verifier::external_body]
pub(crate) fn objects_get<'a>(m: &'a GameObjects, k: &GameObjectId) -> (r: Option<&'a GameObject>)
    ensures
        match r {
            Some(v) => lookup(object_entries(*m), *k) == Some(v@),
            None => !has_key(object_entries(*m), *k),
        },
{
    m.get(k)
}

/// `indexmap::IndexMap::contains_key`.
#[verifier::external_body]
pub(crate) fn objects_contains(m: &GameObjects, k: &GameObjectId) -> (r: bool)
    ensures
        r == has_key(object_entries(*m), *k),
{
    m.contains_key(k)
}

/// Indexing an `indexmap::IndexMap` mutably: the object with the identifier,
/// which stays in its place.
#[verifier::external_body]
pub(crate) fn objects_get_mut<'a>(m: &'a mut GameObjects, k: &GameObjectId) -> (r: &'a mut GameObject)
    requires
        has_key(object_entries(*old(m)), *k),
    ensures
        lookup(object_entries(*old(m)), *k) == Some(r@),
        object_entries(*final(m)) == object_entries(*old(m)).update(
            index_of(object_entries(*old(m)), *k),
            (*k, final(r)@),
        ),
{
    &mut m[k]
}

/// `indexmap::IndexMap::insert`: an object with the identifier is replaced in
/// its place (and comes back); otherwise the object goes last.
#[verifier::external_body]
pub(crate) fn objects_insert(m: &mut GameObjects, k: GameObjectId, v: GameObject) -> (r: Option<GameObject>)
    ensures
        object_entries(*final(m)) == inserted(object_entries(*old(m)), k, v@),
        match r {
            Some(o) => lookup(object_entries(*old(m)), k) == Some(o@),
            None => !has_key(object_entries(*old(m)), k),
        },
{
    m.insert(k, v)
}

/// `indexmap::IndexMap::shift_remove`: removes the object with the
/// identifier, keeping the order of the others, and gives it back.
#[verifier::external_body]
pub(crate) fn objects_shift_remove(m: &mut GameObjects, k: &GameObjectId) -> (r: Option<GameObject>)
    ensures
        object_entries(*final(m)) == shift_removed(object_entries(*old(m)), *k),
        match r {
            Some(o) => lookup(object_entries(*old(m)), *k) == Some(o@),
            None => !has_key(object_entries(*old(m)), *k),
        },
{
    m.shift_remove(k)
}

/// `indexmap::IndexMap::keys`: the identifiers in their order.
#[verifier::external_body]
pub(crate) fn objects_keys(m: &GameObjects) -> (r: Vec<GameObjectId>)
    ensures
        r@.len() == object_entries(*m).len(),
        forall|i: int| 0 <= i < r@.len() ==> #[trigger] r@[i] == object_entries(*m)[i].0,
{
    m.keys().copied().collect()
}

/// Identifiers are distinct, each object is well formed and is stored under its own identifier.
pub open spec fn objects_wf(s: Seq<(GameObjectId, GameObjectModel)>) -> bool {
    &&& unique_keys(s)
    &&& forall|i: int| 0 <= i < s.len() ==> object_wf((#[trigger] s[i]).1) && s[i].1.id == s[i].0
}

/// Inserting a well-formed object under its identifier keeps the objects well formed.
pub proof fn lemma_objects_inserted(s: Seq<(GameObjectId, GameObjectModel)>, v: GameObjectModel)
    requires
        objects_wf(s),
        object_wf(v),
    ensures
        objects_wf(inserted(s, v.id, v)),
        lookup(inserted(s, v.id, v), v.id) == Some(v),
        forall|k: GameObjectId| k != v.id ==> lookup(inserted(s, v.id, v), k) == lookup(s, k),
{
    lemma_inserted(s, v.id, v);
    let t = inserted(s, v.id, v);
    assert forall|i: int| 0 <= i < t.len() implies object_wf((#[trigger] t[i]).1) && t[i].1.id == t[i].0 by {
        if has_key(s, v.id) {
            if i != index_of(s, v.id) {
                assert(t[i] == s[i]);
            }
        } else if i < s.len() {
            assert(t[i] == s[i]);
        }
    }
}

/// Removing an object keeps the objects well formed.
pub proof fn lemma_objects_shift_removed(s: Seq<(GameObjectId, GameObjectModel)>, k: GameObjectId)
    requires
        objects_wf(s),
    ensures
        objects_wf(shift_removed(s, k)),
        lookup(shift_removed(s, k), k) is None,
        forall|k2: GameObjectId| k2 != k ==> lookup(shift_removed(s, k), k2) == lookup(s, k2),
{
    lemma_shift_removed(s, k);
    let t = shift_removed(s, k);
    if has_key(s, k) {
        let i0 = index_of(s, k);
        assert forall|i: int| 0 <= i < t.len() implies object_wf((#[trigger] t[i]).1) && t[i].1.id == t[i].0 by {
            if i < i0 {
                assert(t[i] == s[i]);
            } else {
                assert(t[i] == s[i + 1]);
            }
        }
    }
}

/// Changing an object in its place, keeping its identifier and well-formedness,
/// keeps the objects well formed.
pub proof fn lemma_objects_updated(s: Seq<(GameObjectId, GameObjectModel)>, k: GameObjectId, v: GameObjectModel)
    requires
        objects_wf(s),
        has_key(s, k),
        object_wf(v),
        v.id == k,
    ensures
        objects_wf(s.update(index_of(s, k), (k, v))),
        s.update(index_of(s, k), (k, v)) == inserted(s, k, v),
        lookup(s.update(index_of(s, k), (k, v)), k) == Some(v),
        forall|k2: GameObjectId| k2 != k ==> lookup(s.update(index_of(s, k), (k, v)), k2) == lookup(s, k2),
{
    lemma_objects_inserted(s, v);
}

} // verus!
