//! The insertion-ordered map that holds the pastes, and what is taken on
//! trust about it.

use crate::io::Paste;
use crate::model::{without_id, Entry};
use linked_hash_map::LinkedHashMap;
use vstd::prelude::*;

verus! {

/// `linked_hash_map::LinkedHashMap`: a hash map that keeps its entries in
/// the order of their insertion. Nothing inside it is seen here.
#[verifier::external_type_specification]
#[verifier::external_body]
#[verifier::reject_recursive_types(K)]
#[verifier::reject_recursive_types(V)]
#[verifier::reject_recursive_types(S)]
pub struct ExLinkedHashMap<K, V, S>(LinkedHashMap<K, V, S>);

/// What the map holds, in the order in which `LinkedHashMap::iter` walks it:
/// oldest insertion first.
pub uninterp spec fn map_entries(map: LinkedHashMap<String, Paste>) -> Seq<Entry>;

/// The entry that a key and its value stand for.
pub open spec fn entry_of(id: Seq<char>, paste: Paste) -> Entry {
    Entry { id, content: paste.content@, owner: paste.device_code@ }
}

/// The entries that a list of borrowed items stands for.
pub open spec fn items_view(items: Seq<(&String, &Paste)>) -> Seq<Entry> {
    items.map_values(|item: (&String, &Paste)| entry_of(item.0@, *item.1))
}

/// `LinkedHashMap::new`: the new map holds nothing.
#[verifier::external_body]
pub(crate) fn map_new() -> (map: LinkedHashMap<String, Paste>)
    ensures
        map_entries(map) == Seq::<Entry>::empty(),
{
    LinkedHashMap::new()
}

/// `LinkedHashMap::insert`: the pair becomes the newest entry. Where the key
/// was present, its old entry is gone: the value is replaced and the node
/// moves to the back. All other entries keep their order. The call does not
/// panic.
#[verifier::external_body]
pub(crate) fn map_insert(map: &mut LinkedHashMap<String, Paste>, id: String, paste: Paste)
    ensures
        map_entries(*final(map)) == without_id(map_entries(*old(map)), id@).push(
            entry_of(id@, paste),
        ),
    no_unwind
{
    map.insert(id, paste);
}

/// `LinkedHashMap::remove`: the entry under the key, if there is one, is
/// gone; all other entries keep their order. The call does not panic.
#[verifier::external_body]
pub(crate) fn map_remove(map: &mut LinkedHashMap<String, Paste>, id: &str)
    ensures
        map_entries(*final(map)) == without_id(map_entries(*old(map)), id@),
    no_unwind
{
    map.remove(id);
}

/// `LinkedHashMap::get`: the value under the key, or nothing where no entry
/// has that key.
#[verifier::external_body]
pub(crate) fn map_get<'a>(map: &'a LinkedHashMap<String, Paste>, id: &str) -> (found: Option<
    &'a Paste,
>)
    ensures
        match found {
            Some(paste) => map_entries(*map).contains(entry_of(id@, *paste)),
            None => forall|i: int|
                0 <= i < map_entries(*map).len() ==> (#[trigger] map_entries(*map)[i]).id != id@,
        },
{
    map.get(id)
}

/// `LinkedHashMap::iter`: every key with its value, oldest insertion first.
#[verifier::external_body]
pub(crate) fn map_items<'a>(map: &'a LinkedHashMap<String, Paste>) -> (items: Vec<
    (&'a String, &'a Paste),
>)
    ensures
        items_view(items@) == map_entries(*map),
{
    map.iter().collect()
}

} // verus!
