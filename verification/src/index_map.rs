//! Trusted interface to `indexmap::IndexMap<String, Note>`, the
//! insertion-ordered map that keeps the notes by identity.
use crate::note::Note;
use indexmap::IndexMap;
use vstd::prelude::*;

verus! {

#[verifier::external_type_specification]
#[verifier::external_body]
#[verifier::reject_recursive_types(K)]
#[verifier::reject_recursive_types(V)]
#[verifier::reject_recursive_types(S)]
pub struct ExIndexMap<K, V, S>(IndexMap<K, V, S>);

/// The entries of an `IndexMap<String, Note>`, key and value, in insertion
/// order.
pub uninterp spec fn note_map_entries(map: IndexMap<String, Note>) -> Seq<(Seq<char>, Note)>;

/// Whether the entries hold an entry with key `key`.
pub open spec fn has_key(entries: Seq<(Seq<char>, Note)>, key: Seq<char>) -> bool {
    exists|i: int| 0 <= i < entries.len() && entries[i].0 == key
}

/// `IndexMap::new`: a new map has no entry.
#[verifier::external_body]
pub(crate) fn note_map_new() -> (map: IndexMap<String, Note>)
    ensures
        note_map_entries(map) == Seq::<(Seq<char>, Note)>::empty(),
{
    IndexMap::new()
}

/// `IndexMap::len`: the number of entries.
#[verifier::external_body]
pub(crate) fn note_map_len(map: &IndexMap<String, Note>) -> (n: usize)
    ensures
        n == note_map_entries(*map).len(),
{
    map.len()
}

/// `IndexMap::insert`: when an entry has an equal key, its value is
/// replaced in place and the old value is returned; otherwise the entry is
/// appended and `None` is returned.
#[verifier::external_body]
pub(crate) fn note_map_insert(map: &mut IndexMap<String, Note>, key: String, value: Note) -> (old_value: Option<Note>)
    ensures
        old_value is None <==> !has_key(note_map_entries(*old(map)), key@),
        old_value is None ==> note_map_entries(*final(map)) == note_map_entries(*old(map)).push(
            (key@, value),
        ),
        old_value matches Some(v) ==> exists|i: int|
            0 <= i < note_map_entries(*old(map)).len() && note_map_entries(*old(map))[i].0
                == key@ && note_map_entries(*old(map))[i].1 == v && note_map_entries(*final(map))
                == note_map_entries(*old(map)).update(i, (key@, value)),
{
    map.insert(key, value)
}

/// `IndexMap::shift_remove_full`: removes the entry with key `key`, keeping
/// the order of the others, and gives back the position it had; `None`
/// and no change when there is no such entry.
#[verifier::external_body]
pub(crate) fn note_map_shift_remove(map: &mut IndexMap<String, Note>, key: &str) -> (index: Option<usize>)
    ensures
        index is None <==> !has_key(note_map_entries(*old(map)), key@),
        index is None ==> note_map_entries(*final(map)) == note_map_entries(*old(map)),
        index matches Some(i) ==> {
            &&& i < note_map_entries(*old(map)).len()
            &&& note_map_entries(*old(map))[i as int].0 == key@
            &&& note_map_entries(*final(map)) == note_map_entries(*old(map)).remove(i as int)
        },
{
    map.shift_remove_full(key).map(|(i, _, _)| i)
}

/// `IndexMap::get_index_of`: the position of the entry with key `key`, if
/// there is one.
#[verifier::external_body]
pub(crate) fn note_map_get_index_of(map: &IndexMap<String, Note>, key: &str) -> (index: Option<usize>)
    ensures
        index is None <==> !has_key(note_map_entries(*map), key@),
        index matches Some(i) ==> i < note_map_entries(*map).len() && note_map_entries(
            *map,
        )[i as int].0 == key@,
{
    map.get_index_of(key)
}

/// `IndexMap::get_index`: the value of the entry at position `index`, if
/// there is one.
#[verifier::external_body]
pub(crate) fn note_map_get_index(map: &IndexMap<String, Note>, index: usize) -> (value: Option<&Note>)
    ensures
        value is None <==> index >= note_map_entries(*map).len(),
        value matches Some(v) ==> *v == note_map_entries(*map)[index as int].1,
{
    map.get_index(index).map(|(_, v)| v)
}

} // verus!
