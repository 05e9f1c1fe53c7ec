//! Facts about the model that the store's operations rest on.

use crate::model::{
    distinct_ids, evicted, excess, has_id, lookup, not_among, not_filed_under, oldest, owned,
    owned_by, owner_list, owners, stored, well_formed, without_id, without_oldest, Entry,
    DEVICE_PASTE_LIMIT,
};
use crate::seq_lemmas::{
    lemma_filter_all, lemma_filter_commute, lemma_filter_none, lemma_filter_push,
    lemma_filter_twice,
};
use vstd::prelude::*;

verus! {

/// A filtered store files no identifier twice if the store did not.
pub proof fn lemma_filter_distinct(s: Seq<Entry>, p: spec_fn(Entry) -> bool)
    requires
        distinct_ids(s),
    ensures
        distinct_ids(s.filter(p)),
    decreases s.len(),
{
    reveal(Seq::filter);
    if s.len() > 0 {
        let front = s.drop_last();
        let last = s.last();
        assert(distinct_ids(front)) by {
            assert forall|i: int, j: int| 0 <= i < j < front.len() implies front[i].id
                != front[j].id by {
                assert(front[i] == s[i] && front[j] == s[j]);
            }
        }
        lemma_filter_distinct(front, p);
        let kept = front.filter(p);
        if p(last) {
            let all = kept.push(last);
            assert forall|i: int, j: int| 0 <= i < j < all.len() implies all[i].id
                != all[j].id by {
                if j == kept.len() {
                    assert(kept.contains(kept[i]));
                    front.lemma_filter_contains_rev(p, kept[i]);
                    let k = choose|k: int| 0 <= k < front.len() && front[k] == kept[i];
                    assert(s[k] == front[k]);
                    assert(s[s.len() - 1] == last);
                } else {
                    assert(all[i] == kept[i] && all[j] == kept[j]);
                }
            }
        }
    }
}

/// Filtering a store gives no device more entries than it had.
pub proof fn lemma_filter_owned_len(s: Seq<Entry>, p: spec_fn(Entry) -> bool, owner: Seq<char>)
    ensures
        owned(s.filter(p), owner).len() <= owned(s, owner).len(),
{
    lemma_filter_commute(s, p, owned_by(owner));
    owned(s, owner).lemma_filter_len(p);
}

/// A filtered store is well formed if the store was.
pub proof fn lemma_filter_well_formed(s: Seq<Entry>, p: spec_fn(Entry) -> bool)
    requires
        well_formed(s),
    ensures
        well_formed(s.filter(p)),
{
    lemma_filter_distinct(s, p);
    assert forall|owner: Seq<char>| #[trigger]
        owned(s.filter(p), owner).len() <= DEVICE_PASTE_LIMIT by {
        lemma_filter_owned_len(s, p, owner);
    }
}

/// Removing none of the oldest entries leaves the store as it is.
pub proof fn lemma_without_oldest_none(s: Seq<Entry>, owner: Seq<char>)
    ensures
        without_oldest(s, owner, 0) == s,
{
    assert(oldest(s, owner, 0) =~= Seq::<Entry>::empty());
    lemma_filter_all(s, not_among(oldest(s, owner, 0)));
}

/// Removing, by its identifier, the oldest entry of `owner` that is left
/// after `k` of them went, is removing the `k + 1` oldest.
pub proof fn lemma_without_oldest_step(s: Seq<Entry>, owner: Seq<char>, k: nat)
    requires
        distinct_ids(s),
        k < owned(s, owner).len(),
    ensures
        without_id(without_oldest(s, owner, k), owned(s, owner)[k as int].id) == without_oldest(
            s,
            owner,
            k + 1,
        ),
{
    let mine = owned(s, owner);
    let next = mine[k as int];
    let before = oldest(s, owner, k);
    let after = oldest(s, owner, k + 1);
    assert(after =~= before.push(next));
    assert(mine.contains(next));
    s.lemma_filter_contains_rev(owned_by(owner), next);
    let at = choose|at: int| 0 <= at < s.len() && s[at] == next;
    assert forall|i: int| 0 <= i < s.len() implies not_among(after)(#[trigger] s[i]) == (not_among(
        before,
    )(s[i]) && not_filed_under(next.id)(s[i])) by {
        let e = s[i];
        if e.id == next.id {
            assert(i == at);
            assert(after[k as int] == e);
        } else {
            if before.contains(e) {
                let j = choose|j: int| 0 <= j < before.len() && before[j] == e;
                assert(after[j] == e);
            }
            if after.contains(e) {
                let j = choose|j: int| 0 <= j < after.len() && after[j] == e;
                assert(j != k);
                assert(before[j] == e);
            }
        }
    }
    lemma_filter_twice(s, not_among(before), not_filed_under(next.id), not_among(after));
}

/// Of a device's entries, at most those that were not among its `k` oldest
/// are left once these went.
pub proof fn lemma_without_oldest_len(s: Seq<Entry>, owner: Seq<char>, k: nat)
    requires
        k <= owned(s, owner).len(),
    ensures
        owned(without_oldest(s, owner, k), owner).len() <= owned(s, owner).len() - k,
{
    let mine = owned(s, owner);
    let gone = oldest(s, owner, k);
    let rest = mine.skip(k as int);
    lemma_filter_commute(s, not_among(gone), owned_by(owner));
    assert(mine =~= gone + rest);
    Seq::filter_distributes_over_add(gone, rest, not_among(gone));
    assert forall|i: int| 0 <= i < gone.len() implies !not_among(gone)(#[trigger] gone[i]) by {
        assert(gone.contains(gone[i]));
    }
    lemma_filter_none(gone, not_among(gone));
    rest.lemma_filter_len(not_among(gone));
}

/// Making room leaves the device with fewer entries than the limit.
pub proof fn lemma_evicted_len(s: Seq<Entry>, owner: Seq<char>)
    ensures
        owned(evicted(s, owner), owner).len() < DEVICE_PASTE_LIMIT,
{
    lemma_without_oldest_len(s, owner, excess(s, owner));
}

/// A submission keeps the store well formed.
pub proof fn lemma_stored_well_formed(
    s: Seq<Entry>,
    id: Seq<char>,
    content: Seq<u8>,
    owner: Seq<char>,
)
    requires
        well_formed(s),
    ensures
        well_formed(stored(s, id, content, owner)),
{
    let made_room = evicted(s, owner);
    let cleared = without_id(made_room, id);
    let entry = Entry { id, content, owner };
    let result = cleared.push(entry);
    lemma_filter_well_formed(s, not_among(oldest(s, owner, excess(s, owner))));
    lemma_filter_well_formed(made_room, not_filed_under(id));
    assert forall|i: int, j: int| 0 <= i < j < result.len() implies result[i].id
        != result[j].id by {
        if j == cleared.len() {
            made_room.lemma_filter_pred(not_filed_under(id), i);
        }
    }
    assert forall|other: Seq<char>| #[trigger]
        owned(result, other).len() <= DEVICE_PASTE_LIMIT by {
        lemma_filter_push(cleared, owned_by(other), entry);
        assert(owned(cleared, other).len() <= DEVICE_PASTE_LIMIT);
        if other == owner {
            lemma_evicted_len(s, owner);
            lemma_filter_owned_len(made_room, not_filed_under(id), owner);
        }
    }
}

/// Asking for an identifier under which nothing is filed gives nothing.
pub proof fn lemma_lookup_absent(s: Seq<Entry>, id: Seq<char>, owner: Seq<char>)
    requires
        !has_id(s, id),
    ensures
        lookup(s, id, owner) is None,
    decreases s.len(),
{
    if s.len() > 0 {
        let front = s.drop_last();
        assert(s.last() == s[s.len() - 1]);
        assert(!has_id(front, id)) by {
            if has_id(front, id) {
                let i = choose|i: int| 0 <= i < front.len() && (#[trigger] front[i]).id == id;
                assert(s[i] == front[i]);
            }
        }
        lemma_lookup_absent(front, id, owner);
    }
}

/// Asking for the identifier of an entry gives that entry's content to its
/// owner and nothing to anyone else.
pub proof fn lemma_lookup_present(s: Seq<Entry>, i: int, owner: Seq<char>)
    requires
        distinct_ids(s),
        0 <= i < s.len(),
    ensures
        lookup(s, s[i].id, owner) == if s[i].owner == owner {
            Some(s[i].content)
        } else {
            None
        },
    decreases s.len(),
{
    if i < s.len() - 1 {
        let front = s.drop_last();
        assert(s.last() == s[s.len() - 1]);
        assert(front[i] == s[i]);
        assert(distinct_ids(front)) by {
            assert forall|a: int, b: int| 0 <= a < b < front.len() implies front[a].id
                != front[b].id by {
                assert(front[a] == s[a] && front[b] == s[b]);
            }
        }
        lemma_lookup_present(front, i, owner);
    }
}

/// The list of owners names exactly the devices that own an entry, and
/// none of them twice.
pub proof fn lemma_owner_list(s: Seq<Entry>)
    ensures
        owner_list(s).no_duplicates(),
        forall|owner: Seq<char>| owner_list(s).contains(owner) <==> owners(s).contains(owner),
    decreases s.len(),
{
    if s.len() > 0 {
        let front = s.drop_last();
        let last = s.last();
        let before = owner_list(front);
        let now = owner_list(s);
        lemma_owner_list(front);
        assert forall|owner: Seq<char>| now.contains(owner) <==> owners(s).contains(owner) by {
            if now.contains(owner) {
                if before.contains(owner) {
                    let k = choose|k: int| 0 <= k < front.len() && (#[trigger] front[k]).owner == owner;
                    assert(s[k].owner == owner);
                } else {
                    assert(owner == last.owner);
                    assert(s[s.len() - 1].owner == owner);
                }
            }
            if owners(s).contains(owner) {
                let k = choose|k: int| 0 <= k < s.len() && (#[trigger] s[k]).owner == owner;
                if k < front.len() {
                    assert(front[k].owner == owner);
                    assert(before.contains(owner));
                    let j = choose|j: int| 0 <= j < before.len() && before[j] == owner;
                    assert(now[j] == owner);
                } else if before.contains(owner) {
                    let j = choose|j: int| 0 <= j < before.len() && before[j] == owner;
                    assert(now[j] == owner);
                } else {
                    assert(now[now.len() - 1] == owner);
                }
            }
        }
    }
}

} // verus!
