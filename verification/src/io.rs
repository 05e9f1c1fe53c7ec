//! The paste store and its operations.

use crate::lemmas::{
    lemma_filter_well_formed, lemma_lookup_absent, lemma_lookup_present, lemma_owner_list,
    lemma_stored_well_formed, lemma_without_oldest_none, lemma_without_oldest_step,
};
use crate::linked_map::{
    entry_of, items_view, map_entries, map_get, map_insert, map_items, map_new, map_remove,
};
use crate::model::{
    evicted, ids_newest_first, ids_of, lemma_empty_well_formed, lookup, not_among, oldest,
    owned, owned_by, owner_list, owners, stored, well_formed, without_oldest, Entry,
    DEVICE_PASTE_LIMIT,
};
use crate::seq_lemmas::lemma_filter_take_step;
use crate::text::contains_text;
use linked_hash_map::LinkedHashMap;
use vstd::prelude::*;

verus! {

/// A stored paste: what was submitted, and by which device.
pub struct Paste {
    /// The bytes that were submitted.
    pub content: Vec<u8>,
    /// The code of the device that submitted them.
    pub device_code: String,
}

/// All pastes, each under its identifier, oldest first.
///
/// A store files no identifier twice and holds at most
/// [`DEVICE_PASTE_LIMIT`] pastes of one device: [`PasteStore::new`] starts
/// it so and every operation keeps it so. Its view is the sequence of its
/// entries, oldest first.
pub struct PasteStore {
    map: LinkedHashMap<String, Paste>,
}

impl View for PasteStore {
    type V = Seq<Entry>;

    closed spec fn view(&self) -> Seq<Entry> {
        map_entries(self.map)
    }
}

impl PasteStore {
    #[verifier::type_invariant]
    spec fn inv(&self) -> bool {
        well_formed(map_entries(self.map))
    }

    /// An empty store.
    pub fn new() -> (store: PasteStore)
        ensures
            store@ == Seq::<Entry>::empty(),
            well_formed(store@),
    {
        let map = map_new();
        proof {
            lemma_empty_well_formed();
        }
        PasteStore { map }
    }
}

impl Default for PasteStore {
    /// An empty store.
    fn default() -> (store: PasteStore)
        ensures
            store@ == Seq::<Entry>::empty(),
            well_formed(store@),
    {
        PasteStore::new()
    }
}

/// The identifiers of the device's pastes, oldest first.
fn ids_owned_by(map: &LinkedHashMap<String, Paste>, device_code: &str) -> (ids: Vec<String>)
    ensures
        ids.deep_view() == ids_of(owned(map_entries(*map), device_code@)),
{
    let items = map_items(map);
    let ghost s = map_entries(*map);
    let mut ids: Vec<String> = Vec::new();
    let mut i: usize = 0;
    assert(ids.deep_view() =~= ids_of(owned(s.take(0), device_code@))) by {
        reveal(Seq::filter);
    }
    while i < items.len()
        invariant
            i <= items.len(),
            items_view(items@) == s,
            ids.deep_view() == ids_of(owned(s.take(i as int), device_code@)),
        decreases items.len() - i,
    {
        let id: &String = items[i].0;
        let paste: &Paste = items[i].1;
        let ghost before = ids.deep_view();
        proof {
            lemma_filter_take_step(s, owned_by(device_code@), i as int);
            assert(s[i as int] == entry_of(id@, *paste));
        }
        if *paste.device_code.as_str() == *device_code {
            ids.push(id.clone());
            assert(ids.deep_view() =~= before.push(id@));
            assert(ids_of(owned(s.take(i as int), device_code@).push(s[i as int])) =~= before.push(
                id@,
            ));
        }
        i += 1;
    }
    assert(s.take(i as int) =~= s);
    ids
}

/// Makes room for one more paste of the device: where it already holds
/// [`DEVICE_PASTE_LIMIT`] pastes or more, its oldest ones go, so that one
/// fewer than the limit stay. No other device loses anything.
pub fn purge_device_old(entries: &mut PasteStore, device_code: &str)
    ensures
        final(entries)@ == evicted(old(entries)@, device_code@),
        well_formed(final(entries)@),
{
    proof {
        use_type_invariant(&*entries);
        lemma_without_oldest_none(entries@, device_code@);
    }
    let device_pastes = ids_owned_by(&entries.map, device_code);
    assert(device_pastes.len() == owned(entries@, device_code@).len()) by {
        assert(device_pastes.deep_view().len() == device_pastes.len());
        assert(ids_of(owned(entries@, device_code@)).len() == owned(entries@, device_code@).len());
    }
    if device_pastes.len() >= DEVICE_PASTE_LIMIT {
        let to_remove = device_pastes.len() - DEVICE_PASTE_LIMIT + 1;
        let ghost s0 = entries@;
        let mut i: usize = 0;
        while i < to_remove
            invariant
                i <= to_remove <= device_pastes.len(),
                device_pastes.len() == owned(s0, device_code@).len(),
                device_pastes.deep_view() == ids_of(owned(s0, device_code@)),
                well_formed(s0),
                entries@ == without_oldest(s0, device_code@, i as nat),
            decreases to_remove - i,
        {
            proof {
                lemma_without_oldest_step(s0, device_code@, i as nat);
                lemma_filter_well_formed(s0, not_among(oldest(s0, device_code@, (i + 1) as nat)));
                assert(device_pastes.deep_view()[i as int] == device_pastes[i as int]@);
            }
            map_remove(&mut entries.map, device_pastes[i].as_str());
            i += 1;
        }
    }
    proof {
        use_type_invariant(&*entries);
    }
}

/// Stores a paste under the given id for a device. Room is made first as
/// [`purge_device_old`] does; a paste already filed under `id` is replaced,
/// whoever owns it; the new paste becomes the device's newest.
pub fn store_paste(entries: &mut PasteStore, id: String, content: Vec<u8>, device_code: String)
    ensures
        final(entries)@ == stored(old(entries)@, id@, content@, device_code@),
        well_formed(final(entries)@),
{
    proof {
        use_type_invariant(&*entries);
        lemma_stored_well_formed(entries@, id@, content@, device_code@);
    }
    purge_device_old(entries, device_code.as_str());
    map_insert(&mut entries.map, id, Paste { content, device_code });
    proof {
        use_type_invariant(&*entries);
    }
}

/// The content of the paste filed under `id`, if the device owns it.
/// Nothing comes back where no paste is filed under `id`, and nothing where
/// the paste is another device's: the two cannot be told apart.
pub fn get_paste(entries: &PasteStore, id: &str, device_code: &str) -> (content: Option<Vec<u8>>)
    ensures
        content.deep_view() == lookup(entries@, id@, device_code@),
{
    proof {
        use_type_invariant(entries);
    }
    match map_get(&entries.map, id) {
        Some(paste) => {
            proof {
                let e = entry_of(id@, *paste);
                let i = choose|i: int| 0 <= i < entries@.len() && entries@[i] == e;
                lemma_lookup_present(entries@, i, device_code@);
            }
            if *paste.device_code.as_str() == *device_code {
                let content = paste.content.clone();
                Some(content)
            } else {
                None
            }
        },
        None => {
            proof {
                lemma_lookup_absent(entries@, id@, device_code@);
            }
            None
        },
    }
}

/// The identifiers of the device's pastes, newest first.
pub fn get_all_paste_ids(entries: &PasteStore, device_code: &str) -> (ids: Vec<String>)
    ensures
        ids.deep_view() == ids_newest_first(entries@, device_code@),
        ids.len() <= DEVICE_PASTE_LIMIT,
{
    proof {
        use_type_invariant(entries);
    }
    let mut oldest_first = ids_owned_by(&entries.map, device_code);
    let ghost all = oldest_first.deep_view();
    let mut ids: Vec<String> = Vec::new();
    while oldest_first.len() > 0
        invariant
            oldest_first.len() + ids.len() == all.len(),
            oldest_first.deep_view() == all.take(oldest_first.len() as int),
            ids.deep_view() == all.skip(oldest_first.len() as int).reverse(),
        decreases oldest_first.len(),
    {
        let ghost before = ids.deep_view();
        let ghost left = oldest_first.deep_view();
        let id = oldest_first.pop().unwrap();
        assert(id@ == left[left.len() - 1]);
        ids.push(id);
        assert(ids.deep_view() =~= before.push(id@));
        assert(oldest_first.deep_view() =~= all.take(oldest_first.len() as int));
        assert(ids.deep_view() =~= all.skip(oldest_first.len() as int).reverse());
    }
    assert(all.skip(0) =~= all);
    ids
}

/// The device codes that own at least one paste, each once, in the order in
/// which the store first names them.
pub fn known_owners(entries: &PasteStore) -> (codes: Vec<String>)
    ensures
        codes.deep_view() == owner_list(entries@),
        codes.deep_view().no_duplicates(),
        forall|owner: Seq<char>|
            codes.deep_view().contains(owner) <==> owners(entries@).contains(owner),
{
    let items = map_items(&entries.map);
    let ghost s = entries@;
    let mut codes: Vec<String> = Vec::new();
    let mut i: usize = 0;
    assert(codes.deep_view() =~= owner_list(s.take(0)));
    while i < items.len()
        invariant
            i <= items.len(),
            items_view(items@) == s,
            codes.deep_view() == owner_list(s.take(i as int)),
        decreases items.len() - i,
    {
        let paste: &Paste = items[i].1;
        let ghost before = codes.deep_view();
        proof {
            assert(s[i as int] == entry_of(items[i as int].0@, *paste));
            assert(s.take(i + 1).drop_last() =~= s.take(i as int));
        }
        if !contains_text(&codes, paste.device_code.as_str()) {
            codes.push(paste.device_code.clone());
            assert(codes.deep_view() =~= before.push(paste.device_code@));
        }
        i += 1;
    }
    proof {
        assert(s.take(i as int) =~= s);
        lemma_owner_list(s);
    }
    codes
}

} // verus!
