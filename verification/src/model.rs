//! The mathematical model of a history: a sequence of entries in strictly
//! increasing order of creation time, and the functions that say what each
//! operation makes of it.

use crate::entry::EntryView;
use crate::kind::{DataKind, SearchOrder};
use crate::time::Timestamp;
use vstd::prelude::*;

verus! {

/// Why an operation on a story failed.
#[derive(Debug, Clone, Copy, PartialEq, Eq, Structural)]
pub enum StoreError {
    /// No story is stored for the address.
    NotFound,
    /// An entry with the same creation time is already in the history.
    Conflict,
    /// The identity drawn for a new entry is already in the history.
    IdentityInUse,
    /// The persistence layer failed to load, decode or save a story.
    Storage,
}

/// Whether an entry carries what a stored entry must carry: an identity
/// and a creation time.
pub open spec fn is_stored(e: EntryView) -> bool {
    e.uuid is Some && e.ctime is Some
}

/// Whether a sequence of entries is a history: every entry is stored,
/// creation times increase strictly, and no identity occurs twice.
pub open spec fn valid_history(h: Seq<EntryView>) -> bool {
    &&& forall|i: int| 0 <= i < h.len() ==> is_stored(#[trigger] h[i])
    &&& forall|i: int, j: int|
        0 <= i < j < h.len() ==> (#[trigger] h[i]).ctime->0.lt((#[trigger] h[j]).ctime->0)
    &&& forall|i: int, j: int|
        0 <= i < j < h.len() ==> (#[trigger] h[i]).uuid != (#[trigger] h[j]).uuid
}

/// Whether some entry of the history was created at `ts`.
pub open spec fn has_time(h: Seq<EntryView>, ts: Timestamp) -> bool {
    exists|i: int| 0 <= i < h.len() && (#[trigger] h[i]).ctime == Some(ts)
}

/// Whether some entry of the history has the identity `id`.
pub open spec fn has_identity(h: Seq<EntryView>, id: u128) -> bool {
    exists|i: int| 0 <= i < h.len() && (#[trigger] h[i]).uuid == Some(id)
}

/// The position of the entry with the identity `id`, where there is one.
pub open spec fn position_of(h: Seq<EntryView>, id: u128) -> int {
    choose|i: int| 0 <= i < h.len() && (#[trigger] h[i]).uuid == Some(id)
}

/// The entries created strictly before `ts`.
pub open spec fn created_before(ts: Timestamp) -> spec_fn(EntryView) -> bool {
    |e: EntryView| e.ctime->0.lt(ts)
}

/// Where an entry created at `ts` belongs: behind the entries created
/// before it.
pub open spec fn insertion_point(h: Seq<EntryView>, ts: Timestamp) -> int {
    h.filter(created_before(ts)).len() as int
}

/// The history with `e` put where its creation time places it.
pub open spec fn with_entry(h: Seq<EntryView>, e: EntryView) -> Seq<EntryView> {
    h.insert(insertion_point(h, e.ctime->0), e)
}

/// The entry that an append stores for a draft: the draft with the
/// identity `id`, created at its own creation time or, if it has none, at
/// `now`.
pub open spec fn admitted(draft: EntryView, id: u128, now: Timestamp) -> EntryView {
    EntryView {
        uuid: Some(id),
        ctime: Some(
            match draft.ctime {
                Some(t) => t,
                None => now,
            },
        ),
        ..draft
    }
}

/// What an append makes of a history: a conflict if the creation time is
/// taken, a refusal if the identity is, else the history with the new
/// entry in its place.
pub open spec fn appended(h: Seq<EntryView>, draft: EntryView, id: u128, now: Timestamp) -> Result<
    Seq<EntryView>,
    StoreError,
> {
    let e = admitted(draft, id, now);
    if has_time(h, e.ctime->0) {
        Err(StoreError::Conflict)
    } else if has_identity(h, id) {
        Err(StoreError::IdentityInUse)
    } else {
        Ok(with_entry(h, e))
    }
}

/// The entry that an update stores in place of `old`: the new entry,
/// modified at `now`, created at its own creation time or, if it has none,
/// at that of `old`.
pub open spec fn amended(old: EntryView, entry: EntryView, now: Timestamp) -> EntryView {
    EntryView {
        ctime: Some(
            match entry.ctime {
                Some(t) => t,
                None => old.ctime->0,
            },
        ),
        mtime: Some(now),
        ..entry
    }
}

/// What an update makes of a history. `Ok(None)` says that no entry has
/// the identity of `entry`, or that `entry` has none. Otherwise the entry
/// with that identity makes room for the amended one, which is placed by
/// its creation time; if another entry holds that time, the update is a
/// conflict.
pub open spec fn updated(h: Seq<EntryView>, entry: EntryView, now: Timestamp) -> Result<
    Option<Seq<EntryView>>,
    StoreError,
> {
    if entry.uuid is Some && has_identity(h, entry.uuid->0) {
        let i = position_of(h, entry.uuid->0);
        let e = amended(h[i], entry, now);
        let rest = h.remove(i);
        if has_time(rest, e.ctime->0) {
            Err(StoreError::Conflict)
        } else {
            Ok(Some(with_entry(rest, e)))
        }
    } else {
        Ok(None)
    }
}

/// What a delete makes of a history: the history that is left and the
/// entry that was removed. An absent identity, or one that no entry has,
/// removes nothing.
pub open spec fn deleted(h: Seq<EntryView>, identity: Option<u128>) -> (
    Seq<EntryView>,
    Option<EntryView>,
) {
    if identity is Some && has_identity(h, identity->0) {
        let i = position_of(h, identity->0);
        (h.remove(i), Some(h[i]))
    } else {
        (h, None)
    }
}

/// The history in the order of a query: as it stands, or reversed.
pub open spec fn in_order(h: Seq<EntryView>, order: Option<SearchOrder>) -> Seq<EntryView> {
    if order == Some(SearchOrder::Desc) {
        h.reverse()
    } else {
        h
    }
}

/// The entries that a query for `kind` keeps: those whose payload has
/// that tag, or all of them if no kind is asked for.
pub open spec fn of_kind(kind: Option<DataKind>) -> spec_fn(EntryView) -> bool {
    |e: EntryView|
        match kind {
            Some(k) => e.data.kind() == k,
            None => true,
        }
}

/// A page of a sequence: what is left after the first `offset` items, cut
/// to `limit` items if there is a limit.
pub open spec fn page<A>(s: Seq<A>, offset: nat, limit: Option<nat>) -> Seq<A> {
    let rest = if offset >= s.len() {
        Seq::empty()
    } else {
        s.skip(offset as int)
    };
    if limit is Some && limit->0 < rest.len() {
        rest.take(limit->0 as int)
    } else {
        rest
    }
}

/// The number of items that a query skips: `offset`, or none.
pub open spec fn skipped(offset: Option<usize>) -> nat {
    match offset {
        Some(n) => n as nat,
        None => 0,
    }
}

/// The most items that a query returns: `limit`, or no bound.
pub open spec fn at_most(limit: Option<usize>) -> Option<nat> {
    match limit {
        Some(n) => Some(n as nat),
        None => None,
    }
}

/// The answer to a query: the history in the order asked for, filtered by
/// kind, and of the entries that are left the page asked for.
pub open spec fn searched(
    h: Seq<EntryView>,
    kind: Option<DataKind>,
    limit: Option<usize>,
    offset: Option<usize>,
    order: Option<SearchOrder>,
) -> Seq<EntryView> {
    page(in_order(h, order).filter(of_kind(kind)), skipped(offset), at_most(limit))
}

/// In a history, the insertion point of `ts` is the one position that has
/// the earlier entries before it and no earlier entry behind it.
pub proof fn lemma_insertion_point(h: Seq<EntryView>, ts: Timestamp, p: int)
    requires
        0 <= p <= h.len(),
        forall|k: int| 0 <= k < p ==> (#[trigger] h[k]).ctime->0.lt(ts),
        forall|k: int| p <= k < h.len() ==> !(#[trigger] h[k]).ctime->0.lt(ts),
    ensures
        insertion_point(h, ts) == p,
    decreases h.len(),
{
    reveal(Seq::filter);
    if h.len() > 0 {
        let front = h.drop_last();
        if h.last().ctime->0.lt(ts) {
            assert(p == h.len());
            lemma_insertion_point(front, ts, p - 1);
        } else {
            lemma_insertion_point(front, ts, p);
        }
    }
}

/// In a history, the entries before the insertion point of `ts` are
/// earlier than `ts` and the others are not.
pub proof fn lemma_insertion_point_splits(h: Seq<EntryView>, ts: Timestamp)
    requires
        valid_history(h),
    ensures
        0 <= insertion_point(h, ts) <= h.len(),
        forall|k: int| 0 <= k < insertion_point(h, ts) ==> (#[trigger] h[k]).ctime->0.lt(ts),
        forall|k: int|
            insertion_point(h, ts) <= k < h.len() ==> !(#[trigger] h[k]).ctime->0.lt(ts),
    decreases h.len(),
{
    reveal(Seq::filter);
    if h.len() > 0 {
        let front = h.drop_last();
        assert(valid_history(front));
        lemma_insertion_point_splits(front, ts);
        if h.last().ctime->0.lt(ts) {
            let p = insertion_point(front, ts);
            if p < front.len() {
                assert(front[p].ctime->0.lt(h.last().ctime->0));
                assert(h[p] == front[p]);
            }
            assert forall|k: int| 0 <= k < h.len() implies (#[trigger] h[k]).ctime->0.lt(ts) by {
                if k < h.len() - 1 {
                    assert(h[k].ctime->0.lt(h.last().ctime->0));
                }
            }
            lemma_insertion_point(h, ts, h.len() as int);
        } else {
            assert forall|k: int| 0 <= k < insertion_point(front, ts) implies (
            #[trigger] h[k]).ctime->0.lt(ts) by {
                assert(h[k] == front[k]);
            }
            assert forall|k: int| insertion_point(front, ts) <= k < h.len() implies !(
            #[trigger] h[k]).ctime->0.lt(ts) by {
                if k < h.len() - 1 {
                    assert(h[k] == front[k]);
                }
            }
        }
    }
}

/// A stored entry whose creation time and identity are new to a history
/// makes a history again when put in its place.
pub proof fn lemma_with_entry_valid(h: Seq<EntryView>, e: EntryView)
    requires
        valid_history(h),
        is_stored(e),
        !has_time(h, e.ctime->0),
        !has_identity(h, e.uuid->0),
    ensures
        valid_history(with_entry(h, e)),
        with_entry(h, e).len() == h.len() + 1,
        with_entry(h, e)[insertion_point(h, e.ctime->0)] == e,
{
    let ts = e.ctime->0;
    let p = insertion_point(h, ts);
    lemma_insertion_point_splits(h, ts);
    let g = with_entry(h, e);
    assert forall|i: int| 0 <= i < g.len() implies is_stored(#[trigger] g[i]) by {
        if i < p {
            assert(g[i] == h[i]);
        } else if i > p {
            assert(g[i] == h[i - 1]);
        }
    }
    assert forall|i: int, j: int| 0 <= i < j < g.len() implies (#[trigger] g[i]).ctime->0.lt(
        (#[trigger] g[j]).ctime->0,
    ) && g[i].uuid != g[j].uuid by {
        let a = if i < p {
            i
        } else {
            i - 1
        };
        let b = if j < p {
            j
        } else {
            j - 1
        };
        if i != p {
            assert(g[i] == h[a]);
        }
        if j != p {
            assert(g[j] == h[b]);
        }
        if i == p {
            assert(!h[b].ctime->0.lt(ts));
            assert(h[b].ctime != Some(ts));
            assert(h[b].uuid != e.uuid);
        } else if j == p {
            assert(h[a].ctime->0.lt(ts));
            assert(h[a].uuid != e.uuid);
        }
    }
}

/// A history without one of its entries is a history, and no longer holds
/// that entry's identity or creation time.
pub proof fn lemma_remove_valid(h: Seq<EntryView>, i: int)
    requires
        valid_history(h),
        0 <= i < h.len(),
    ensures
        valid_history(h.remove(i)),
        !has_identity(h.remove(i), h[i].uuid->0),
        !has_time(h.remove(i), h[i].ctime->0),
        forall|id: u128|
            id != h[i].uuid->0 ==> (has_identity(h.remove(i), id) <==> has_identity(h, id)),
{
    let g = h.remove(i);
    assert forall|k: int| 0 <= k < g.len() implies #[trigger] g[k] == h[if k < i {
        k
    } else {
        k + 1
    }] by {}
    assert forall|k: int| 0 <= k < g.len() implies is_stored(#[trigger] g[k]) by {
        assert(g[k] == h[if k < i {
            k
        } else {
            k + 1
        }]);
    }
    assert forall|a: int, b: int| 0 <= a < b < g.len() implies (#[trigger] g[a]).ctime->0.lt(
        (#[trigger] g[b]).ctime->0,
    ) && g[a].uuid != g[b].uuid by {
        let a2 = if a < i {
            a
        } else {
            a + 1
        };
        let b2 = if b < i {
            b
        } else {
            b + 1
        };
        assert(g[a] == h[a2]);
        assert(g[b] == h[b2]);
    }
    assert forall|k: int| 0 <= k < g.len() implies (#[trigger] g[k]).uuid != h[i].uuid && g[k].ctime
        != h[i].ctime by {
        let k2 = if k < i {
            k
        } else {
            k + 1
        };
        assert(g[k] == h[k2]);
        if k2 < i {
            assert(h[k2].ctime->0.lt(h[i].ctime->0));
        } else {
            assert(h[i].ctime->0.lt(h[k2].ctime->0));
        }
    }
    assert forall|id: u128| id != h[i].uuid->0 implies (has_identity(g, id) <==> has_identity(
        h,
        id,
    )) by {
        if has_identity(g, id) {
            let k = choose|k: int| 0 <= k < g.len() && (#[trigger] g[k]).uuid == Some(id);
            let k2 = if k < i {
                k
            } else {
                k + 1
            };
            assert(g[k] == h[k2]);
        }
        if has_identity(h, id) {
            let k = choose|k: int| 0 <= k < h.len() && (#[trigger] h[k]).uuid == Some(id);
            let k2 = if k < i {
                k
            } else {
                k - 1
            };
            assert(g[k2] == h[k]);
        }
    }
}

/// In a history, an identity is found at one position only.
pub proof fn lemma_position_of(h: Seq<EntryView>, id: u128, i: int)
    requires
        valid_history(h),
        0 <= i < h.len(),
        h[i].uuid == Some(id),
    ensures
        has_identity(h, id),
        position_of(h, id) == i,
{
    let p = position_of(h, id);
    if p < i {
        assert(h[p].uuid != h[i].uuid);
    } else if i < p {
        assert(h[i].uuid != h[p].uuid);
    }
}

} // verus!
