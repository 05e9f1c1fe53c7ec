//! What holds of the store whatever is submitted to it.

use crate::lemmas::{
    lemma_evicted_len, lemma_filter_distinct, lemma_filter_owned_len, lemma_lookup_absent,
    lemma_lookup_present, lemma_stored_well_formed,
};
use crate::model::{
    distinct_ids, evicted, excess, has_id, ids_newest_first, ids_of, lemma_empty_well_formed,
    lookup, not_among, not_filed_under, oldest, owned, owned_by, stored, well_formed,
    without_id, Entry, DEVICE_PASTE_LIMIT,
};
use crate::generate::is_id;
use crate::seq_lemmas::{
    lemma_filter_all, lemma_filter_commute, lemma_filter_none, lemma_filter_push,
    lemma_filter_twice,
};
use crate::text::{head_of, is_head_before, lemma_head_before_unique};
use vstd::prelude::*;

verus! {

/// The store that a history of submissions leaves behind, the first
/// submission made to an empty store. Each submission is written as the
/// entry that it files.
pub open spec fn replay(history: Seq<Entry>) -> Seq<Entry>
    decreases history.len(),
{
    if history.len() == 0 {
        Seq::empty()
    } else {
        let last = history.last();
        stored(replay(history.drop_last()), last.id, last.content, last.owner)
    }
}

/// Whatever was submitted, the store is well formed.
pub proof fn law_history_well_formed(history: Seq<Entry>)
    ensures
        well_formed(replay(history)),
    decreases history.len(),
{
    if history.len() == 0 {
        lemma_empty_well_formed();
    } else {
        let last = history.last();
        law_history_well_formed(history.drop_last());
        lemma_stored_well_formed(replay(history.drop_last()), last.id, last.content, last.owner);
    }
}

/// Whatever was submitted, no device is listed more than
/// [`DEVICE_PASTE_LIMIT`] identifiers.
pub proof fn law_listing_within_limit(history: Seq<Entry>, owner: Seq<char>)
    ensures
        ids_newest_first(replay(history), owner).len() <= DEVICE_PASTE_LIMIT,
{
    law_history_well_formed(history);
    assert(owned(replay(history), owner).len() <= DEVICE_PASTE_LIMIT);
}

/// A submission leaves its device with [`DEVICE_PASTE_LIMIT`] pastes at
/// most, whatever the store held before.
pub proof fn law_submission_within_limit(
    s: Seq<Entry>,
    id: Seq<char>,
    content: Seq<u8>,
    owner: Seq<char>,
)
    ensures
        ids_newest_first(stored(s, id, content, owner), owner).len() <= DEVICE_PASTE_LIMIT,
{
    let made_room = evicted(s, owner);
    let cleared = without_id(made_room, id);
    lemma_evicted_len(s, owner);
    lemma_filter_owned_len(made_room, not_filed_under(id), owner);
    lemma_filter_push(cleared, owned_by(owner), Entry { id, content, owner });
}

/// A new paste heads its device's listing; behind it stand the pastes that
/// the device keeps, in the order they had.
pub proof fn law_newest_heads_listing(
    s: Seq<Entry>,
    id: Seq<char>,
    content: Seq<u8>,
    owner: Seq<char>,
)
    ensures
        ids_newest_first(stored(s, id, content, owner), owner) == seq![id] + ids_newest_first(
            without_id(evicted(s, owner), id),
            owner,
        ),
        ids_newest_first(stored(s, id, content, owner), owner)[0] == id,
{
    let cleared = without_id(evicted(s, owner), id);
    let entry = Entry { id, content, owner };
    lemma_filter_push(cleared, owned_by(owner), entry);
    assert(ids_of(owned(cleared, owner).push(entry)) =~= ids_of(owned(cleared, owner)).push(id));
    assert(ids_of(owned(cleared, owner)).push(id).reverse() =~= seq![id] + ids_of(
        owned(cleared, owner),
    ).reverse());
}

/// The entries of a device stand in the store in the order in which they
/// stand among the device's own.
proof fn lemma_owned_in_order(s: Seq<Entry>, owner: Seq<char>, p: int, q: int)
    requires
        0 <= p < q < owned(s, owner).len(),
    ensures
        exists|j: int, i: int|
            0 <= j < i < s.len() && #[trigger] s[j] == owned(s, owner)[p] && #[trigger] s[i]
                == owned(s, owner)[q],
    decreases s.len(),
{
    reveal(Seq::filter);
    let front = s.drop_last();
    let last = s.last();
    let mine = owned(front, owner);
    if owned_by(owner)(last) && q == mine.len() {
        assert(mine.contains(mine[p]));
        front.lemma_filter_contains_rev(owned_by(owner), mine[p]);
        let j = choose|j: int| 0 <= j < front.len() && front[j] == mine[p];
        let i = s.len() - 1;
        assert(s[j] == owned(s, owner)[p] && s[i] == owned(s, owner)[q]);
    } else {
        lemma_owned_in_order(front, owner, p, q);
        let (j, i) = choose|j: int, i: int|
            0 <= j < i < front.len() && #[trigger] front[j] == mine[p] && #[trigger] front[i]
                == mine[q];
        assert(s[j] == owned(s, owner)[p] && s[i] == owned(s, owner)[q]);
    }
}

/// A device's listing is ordered newest first: of two identifiers in it,
/// the one listed first is filed later in the store.
pub proof fn law_listing_newest_first(s: Seq<Entry>, owner: Seq<char>, a: int, b: int)
    requires
        0 <= a < b < ids_newest_first(s, owner).len(),
    ensures
        exists|older: int, newer: int|
            {
                &&& 0 <= older < newer < s.len()
                &&& (#[trigger] s[newer]).owner == owner
                &&& s[newer].id == ids_newest_first(s, owner)[a]
                &&& (#[trigger] s[older]).owner == owner
                &&& s[older].id == ids_newest_first(s, owner)[b]
            },
{
    let mine = owned(s, owner);
    let n = mine.len() as int;
    lemma_owned_in_order(s, owner, n - 1 - b, n - 1 - a);
    let (older, newer) = choose|j: int, i: int|
        0 <= j < i < s.len() && #[trigger] s[j] == mine[n - 1 - b] && #[trigger] s[i] == mine[n
            - 1 - a];
    s.lemma_filter_pred(owned_by(owner), n - 1 - b);
    s.lemma_filter_pred(owned_by(owner), n - 1 - a);
    assert(s[newer].owner == owner && s[older].owner == owner);
}

/// Making room for one device takes nothing from another: every other
/// device keeps all its pastes, in their order.
pub proof fn law_eviction_spares_others(s: Seq<Entry>, owner: Seq<char>, other: Seq<char>)
    requires
        other != owner,
    ensures
        owned(evicted(s, owner), other) == owned(s, other),
{
    let gone = oldest(s, owner, excess(s, owner));
    assert forall|i: int| 0 <= i < s.len() implies owned_by(other)(#[trigger] s[i]) == (not_among(
        gone,
    )(s[i]) && owned_by(other)(s[i])) by {
        if gone.contains(s[i]) {
            let k = choose|k: int| 0 <= k < gone.len() && gone[k] == s[i];
            s.lemma_filter_pred(owned_by(owner), k);
        }
    }
    lemma_filter_twice(s, not_among(gone), owned_by(other), owned_by(other));
}

/// Making room keeps the device's newest pastes: of its entries, all but
/// the [`excess`] oldest stay, in their order.
pub proof fn law_eviction_keeps_newest(s: Seq<Entry>, owner: Seq<char>)
    requires
        distinct_ids(s),
    ensures
        owned(evicted(s, owner), owner) == owned(s, owner).skip(excess(s, owner) as int),
{
    let mine = owned(s, owner);
    let gone = oldest(s, owner, excess(s, owner));
    let rest = mine.skip(excess(s, owner) as int);
    lemma_filter_commute(s, not_among(gone), owned_by(owner));
    assert(mine =~= gone + rest);
    Seq::filter_distributes_over_add(gone, rest, not_among(gone));
    assert forall|i: int| 0 <= i < gone.len() implies !not_among(gone)(#[trigger] gone[i]) by {
        assert(gone.contains(gone[i]));
    }
    lemma_filter_none(gone, not_among(gone));
    lemma_filter_distinct(s, owned_by(owner));
    assert forall|i: int| 0 <= i < rest.len() implies not_among(gone)(#[trigger] rest[i]) by {
        if gone.contains(rest[i]) {
            let k = choose|k: int| 0 <= k < gone.len() && gone[k] == rest[i];
            assert(mine[k].id == mine[i + excess(s, owner)].id);
        }
    }
    lemma_filter_all(rest, not_among(gone));
    assert(Seq::<Entry>::empty() + rest =~= rest);
}

/// What a device is listed after it submitted under an unused identifier:
/// the new identifier, and behind it the newest of what was listed before,
/// one fewer than the limit at most.
pub proof fn law_listing_after_submission(
    s: Seq<Entry>,
    id: Seq<char>,
    content: Seq<u8>,
    owner: Seq<char>,
)
    requires
        distinct_ids(s),
        !has_id(s, id),
    ensures
        ids_newest_first(stored(s, id, content, owner), owner) == seq![id] + ids_newest_first(
            s,
            owner,
        ).take(owned(s, owner).len() - excess(s, owner)),
{
    let mine = owned(s, owner);
    let made_room = evicted(s, owner);
    let kept = mine.skip(excess(s, owner) as int);
    law_newest_heads_listing(s, id, content, owner);
    law_eviction_keeps_newest(s, owner);
    assert forall|i: int| 0 <= i < made_room.len() implies not_filed_under(id)(
        #[trigger] made_room[i],
    ) by {
        assert(made_room.contains(made_room[i]));
        s.lemma_filter_contains_rev(not_among(oldest(s, owner, excess(s, owner))), made_room[i]);
    }
    lemma_filter_all(made_room, not_filed_under(id));
    assert(ids_of(kept).reverse() =~= ids_of(mine).reverse().take(mine.len() - excess(s, owner)));
}

/// A submission under an unused identifier takes nothing from another
/// device.
pub proof fn law_submission_spares_others(
    s: Seq<Entry>,
    id: Seq<char>,
    content: Seq<u8>,
    owner: Seq<char>,
    other: Seq<char>,
)
    requires
        other != owner,
        !has_id(s, id),
    ensures
        owned(stored(s, id, content, owner), other) == owned(s, other),
{
    let made_room = evicted(s, owner);
    let cleared = without_id(made_room, id);
    law_eviction_spares_others(s, owner, other);
    lemma_filter_push(cleared, owned_by(other), Entry { id, content, owner });
    assert forall|i: int| 0 <= i < made_room.len() implies not_filed_under(id)(
        #[trigger] made_room[i],
    ) by {
        assert(made_room.contains(made_room[i]));
        s.lemma_filter_contains_rev(not_among(oldest(s, owner, excess(s, owner))), made_room[i]);
    }
    lemma_filter_all(made_room, not_filed_under(id));
}

/// What was submitted is what its owner reads back.
pub proof fn law_lookup_returns_submission(
    s: Seq<Entry>,
    id: Seq<char>,
    content: Seq<u8>,
    owner: Seq<char>,
)
    ensures
        lookup(stored(s, id, content, owner), id, owner) == Some(content),
{
}

/// Where a lookup gives something, an entry with that identifier, owner and
/// content is in the store.
proof fn lemma_lookup_some(s: Seq<Entry>, id: Seq<char>, owner: Seq<char>)
    requires
        lookup(s, id, owner) is Some,
    ensures
        exists|i: int|
            0 <= i < s.len() && #[trigger] s[i] == (Entry {
                id,
                content: lookup(s, id, owner)->0,
                owner,
            }),
    decreases s.len(),
{
    if s.last().id == id {
        assert(s[s.len() - 1] =~= (Entry { id, content: lookup(s, id, owner)->0, owner }));
    } else {
        let front = s.drop_last();
        lemma_lookup_some(front, id, owner);
        let i = choose|i: int|
            0 <= i < front.len() && #[trigger] front[i] == (Entry {
                id,
                content: lookup(front, id, owner)->0,
                owner,
            });
        assert(s[i] == front[i]);
    }
}

/// A paste reads back unchanged for as long as it is in the store: a later
/// submission under another identifier either leaves it as it was or, where
/// it comes from the same device, may push it out. It never alters it.
pub proof fn law_lookup_until_evicted(
    s: Seq<Entry>,
    id: Seq<char>,
    owner: Seq<char>,
    next_id: Seq<char>,
    next_content: Seq<u8>,
    next_owner: Seq<char>,
)
    requires
        well_formed(s),
        lookup(s, id, owner) is Some,
        next_id != id,
    ensures
        has_id(stored(s, next_id, next_content, next_owner), id) ==> lookup(
            stored(s, next_id, next_content, next_owner),
            id,
            owner,
        ) == lookup(s, id, owner),
        next_owner != owner ==> has_id(stored(s, next_id, next_content, next_owner), id),
{
    let after = stored(s, next_id, next_content, next_owner);
    let made_room = evicted(s, next_owner);
    let cleared = without_id(made_room, next_id);
    let gone = oldest(s, next_owner, excess(s, next_owner));
    lemma_lookup_some(s, id, owner);
    let at = choose|i: int|
        0 <= i < s.len() && #[trigger] s[i] == (Entry {
            id,
            content: lookup(s, id, owner)->0,
            owner,
        });
    lemma_stored_well_formed(s, next_id, next_content, next_owner);
    if has_id(after, id) {
        let k = choose|k: int| 0 <= k < after.len() && (#[trigger] after[k]).id == id;
        assert(k < cleared.len());
        assert(cleared.contains(cleared[k]));
        made_room.lemma_filter_contains_rev(not_filed_under(next_id), cleared[k]);
        s.lemma_filter_contains_rev(not_among(gone), cleared[k]);
        let j = choose|j: int| 0 <= j < s.len() && s[j] == cleared[k];
        assert(j == at);
        lemma_lookup_present(after, k, owner);
    }
    if next_owner != owner {
        if gone.contains(s[at]) {
            let g = choose|g: int| 0 <= g < gone.len() && gone[g] == s[at];
            s.lemma_filter_pred(owned_by(next_owner), g);
        }
        s.lemma_filter_contains(not_among(gone), at);
        let m = choose|m: int| 0 <= m < made_room.len() && made_room[m] == s[at];
        made_room.lemma_filter_contains(not_filed_under(next_id), m);
        let c = choose|c: int| 0 <= c < cleared.len() && cleared[c] == s[at];
        assert(after[c].id == id);
    }
}

/// Asking for an identifier under which nothing is filed gives nothing, and
/// so does asking for a paste of another device: the two answers are the
/// same.
pub proof fn law_lookup_refuses_alike(
    s: Seq<Entry>,
    unknown: Seq<char>,
    anyone: Seq<char>,
    i: int,
    stranger: Seq<char>,
)
    requires
        distinct_ids(s),
        !has_id(s, unknown),
        0 <= i < s.len(),
        s[i].owner != stranger,
    ensures
        lookup(s, unknown, anyone) is None,
        lookup(s, s[i].id, stranger) is None,
        lookup(s, unknown, anyone) == lookup(s, s[i].id, stranger),
{
    lemma_lookup_absent(s, unknown, anyone);
    lemma_lookup_present(s, i, stranger);
}

/// A lookup gives something exactly where the store holds an entry with
/// that identifier and that owner, and then it gives that entry's content.
pub proof fn law_lookup_exact(s: Seq<Entry>, id: Seq<char>, owner: Seq<char>)
    requires
        distinct_ids(s),
    ensures
        lookup(s, id, owner) is Some <==> exists|i: int|
            0 <= i < s.len() && (#[trigger] s[i]).id == id && s[i].owner == owner,
        forall|i: int|
            0 <= i < s.len() && (#[trigger] s[i]).id == id && s[i].owner == owner ==> lookup(
                s,
                id,
                owner,
            ) == Some(s[i].content),
{
    if lookup(s, id, owner) is Some {
        lemma_lookup_some(s, id, owner);
    }
    assert forall|i: int|
        0 <= i < s.len() && (#[trigger] s[i]).id == id && s[i].owner == owner implies lookup(
        s,
        id,
        owner,
    ) == Some(s[i].content) by {
        lemma_lookup_present(s, i, owner);
    }
}

/// An identifier names its paste with or without an extension: it holds no
/// `.`, so what stands before the first `.` of a path made of the
/// identifier, or of the identifier, a `.` and anything, is the identifier.
pub proof fn law_extension_is_ignored(id: Seq<char>, extension: Seq<char>)
    requires
        is_id(id),
    ensures
        head_of(id, '.') == id,
        head_of(id + seq!['.'] + extension, '.') == id,
{
    let path = id + seq!['.'] + extension;
    assert(!id.contains('.')) by {
        if id.contains('.') {
            let i = choose|i: int| 0 <= i < id.len() && id[i] == '.';
            assert(id[i] == '.');
        }
    }
    assert(id.take(id.len() as int) =~= id);
    assert(path.take(id.len() as int) =~= id);
    assert(is_head_before(id, id, '.'));
    assert(is_head_before(id, path, '.'));
    lemma_head_before_unique(id, head_of(id, '.'), id, '.');
    lemma_head_before_unique(id, head_of(path, '.'), path, '.');
}

} // verus!
