//! The mathematical model of the store: a sequence of entries, oldest first,
//! and what each operation makes of it.

use vstd::prelude::*;

verus! {

/// The most pastes one device may keep at a time.
pub const DEVICE_PASTE_LIMIT: usize = 2;

/// One stored paste, as the contracts see it.
#[verifier::ext_equal]
pub struct Entry {
    /// The identifier under which the paste is filed.
    pub id: Seq<char>,
    /// The bytes that were submitted.
    pub content: Seq<u8>,
    /// The device code of the submitter.
    pub owner: Seq<char>,
}

/// No identifier is filed twice.
pub open spec fn distinct_ids(s: Seq<Entry>) -> bool {
    forall|i: int, j: int| 0 <= i < j < s.len() ==> s[i].id != s[j].id
}

/// The test that an entry belongs to `owner`.
pub open spec fn owned_by(owner: Seq<char>) -> spec_fn(Entry) -> bool {
    |e: Entry| e.owner == owner
}

/// The test that an entry is filed under another identifier than `id`.
pub open spec fn not_filed_under(id: Seq<char>) -> spec_fn(Entry) -> bool {
    |e: Entry| e.id != id
}

/// The test that an entry is none of `gone`.
pub open spec fn not_among(gone: Seq<Entry>) -> spec_fn(Entry) -> bool {
    |e: Entry| !gone.contains(e)
}

/// The entries of `owner`, oldest first.
pub open spec fn owned(s: Seq<Entry>, owner: Seq<char>) -> Seq<Entry> {
    s.filter(owned_by(owner))
}

/// What every store satisfies: identifiers are unique and no device holds
/// more than [`DEVICE_PASTE_LIMIT`] entries.
pub open spec fn well_formed(s: Seq<Entry>) -> bool {
    &&& distinct_ids(s)
    &&& forall|owner: Seq<char>| #[trigger] owned(s, owner).len() <= DEVICE_PASTE_LIMIT
}

/// How many of `owner`'s entries must go before `owner` may file one more.
pub open spec fn excess(s: Seq<Entry>, owner: Seq<char>) -> nat {
    let n = owned(s, owner).len();
    if n >= DEVICE_PASTE_LIMIT {
        (n - DEVICE_PASTE_LIMIT + 1) as nat
    } else {
        0
    }
}

/// The `k` oldest entries of `owner`.
pub open spec fn oldest(s: Seq<Entry>, owner: Seq<char>, k: nat) -> Seq<Entry> {
    owned(s, owner).take(k as int)
}

/// The store without the `k` oldest entries of `owner`.
pub open spec fn without_oldest(s: Seq<Entry>, owner: Seq<char>, k: nat) -> Seq<Entry> {
    s.filter(not_among(oldest(s, owner, k)))
}

/// The store after room was made for one more entry of `owner`: as many of
/// its oldest entries as [`excess`] counts are gone.
pub open spec fn evicted(s: Seq<Entry>, owner: Seq<char>) -> Seq<Entry> {
    without_oldest(s, owner, excess(s, owner))
}

/// The store without the entry filed under `id`.
pub open spec fn without_id(s: Seq<Entry>, id: Seq<char>) -> Seq<Entry> {
    s.filter(not_filed_under(id))
}

/// The store after `owner` submitted `content` under `id`: room is made
/// first, an entry already filed under `id` gives way, and the new entry
/// becomes the newest.
pub open spec fn stored(s: Seq<Entry>, id: Seq<char>, content: Seq<u8>, owner: Seq<char>) -> Seq<
    Entry,
> {
    without_id(evicted(s, owner), id).push(Entry { id, content, owner })
}

/// Whether some entry is filed under `id`.
pub open spec fn has_id(s: Seq<Entry>, id: Seq<char>) -> bool {
    exists|i: int| 0 <= i < s.len() && (#[trigger] s[i]).id == id
}

/// What `owner` gets when asking for `id`: the content of the newest entry
/// filed under `id`, if that entry is `owner`'s.
pub open spec fn lookup(s: Seq<Entry>, id: Seq<char>, owner: Seq<char>) -> Option<Seq<u8>>
    decreases s.len(),
{
    if s.len() == 0 {
        None
    } else if s.last().id == id {
        if s.last().owner == owner {
            Some(s.last().content)
        } else {
            None
        }
    } else {
        lookup(s.drop_last(), id, owner)
    }
}

/// The identifiers of the entries in `s`, in the same order.
pub open spec fn ids_of(s: Seq<Entry>) -> Seq<Seq<char>> {
    s.map_values(|e: Entry| e.id)
}

/// The identifiers of `owner`'s entries, newest first.
pub open spec fn ids_newest_first(s: Seq<Entry>, owner: Seq<char>) -> Seq<Seq<char>> {
    ids_of(owned(s, owner)).reverse()
}

/// The device codes that own at least one entry.
pub open spec fn owners(s: Seq<Entry>) -> Set<Seq<char>> {
    Set::new(|owner: Seq<char>| exists|i: int| 0 <= i < s.len() && (#[trigger] s[i]).owner == owner)
}

/// The device codes that own at least one entry, each once, in the order in
/// which the store first names them.
pub open spec fn owner_list(s: Seq<Entry>) -> Seq<Seq<char>>
    decreases s.len(),
{
    if s.len() == 0 {
        Seq::empty()
    } else {
        let before = owner_list(s.drop_last());
        if before.contains(s.last().owner) {
            before
        } else {
            before.push(s.last().owner)
        }
    }
}

/// The empty store is well formed.
pub proof fn lemma_empty_well_formed()
    ensures
        well_formed(Seq::<Entry>::empty()),
{
    assert forall|owner: Seq<char>| #[trigger]
        owned(Seq::<Entry>::empty(), owner).len() <= DEVICE_PASTE_LIMIT by {
        Seq::<Entry>::empty().lemma_filter_len(owned_by(owner));
    }
}

} // verus!
