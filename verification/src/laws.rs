//! What holds of the operations, whatever the history and the arguments.

use crate::entry::EntryView;
use crate::kind::{DataKind, SearchOrder};
use crate::model::{
    admitted, amended, appended, at_most, deleted, has_identity, has_time, in_order, insertion_point,
    lemma_insertion_point_splits, lemma_position_of, lemma_remove_valid, lemma_with_entry_valid,
    of_kind, page, position_of, searched, skipped, updated, valid_history, StoreError,
};
use crate::store::{registered, story_deleted, story_updated, IpAddress, IpStoryView};
use crate::time::Timestamp;
use vstd::prelude::*;

verus! {

/// Keeping everything keeps the sequence.
proof fn lemma_filter_all<A>(s: Seq<A>, pred: spec_fn(A) -> bool)
    requires
        forall|i: int| 0 <= i < s.len() ==> pred(#[trigger] s[i]),
    ensures
        s.filter(pred) == s,
    decreases s.len(),
{
    reveal(Seq::filter);
    if s.len() > 0 {
        lemma_filter_all(s.drop_last(), pred);
        assert(s.drop_last().push(s.last()) =~= s);
    }
}

/// A sequence and its reverse keep equally many items.
proof fn lemma_filter_reverse_len<A>(s: Seq<A>, pred: spec_fn(A) -> bool)
    ensures
        s.reverse().filter(pred).len() == s.filter(pred).len(),
    decreases s.len(),
{
    reveal(Seq::filter);
    if s.len() > 0 {
        let front = s.drop_last();
        let head = seq![s.last()];
        lemma_filter_reverse_len(front, pred);
        assert(s.reverse() =~= head + front.reverse());
        Seq::filter_distributes_over_add(head, front.reverse(), pred);
        assert(head.drop_last() =~= Seq::<A>::empty());
        assert(Seq::<A>::empty().filter(pred) =~= Seq::<A>::empty());
        assert(head.last() == s.last());
        assert(head.filter(pred).len() == if pred(s.last()) {
            1nat
        } else {
            0nat
        });
    } else {
        assert(s.reverse() =~= s);
    }
}

/// Every item of a page is an item of the sequence.
proof fn lemma_page_items<A>(s: Seq<A>, offset: nat, limit: Option<nat>, i: int)
    requires
        0 <= i < page(s, offset, limit).len(),
    ensures
        offset + i < s.len(),
        page(s, offset, limit)[i] == s[offset + i],
{
}

/// Every entry of an answer is an entry of the history, and of the kind
/// asked for.
proof fn lemma_searched_items(
    h: Seq<EntryView>,
    kind: Option<DataKind>,
    limit: Option<usize>,
    offset: Option<usize>,
    order: Option<SearchOrder>,
    i: int,
)
    requires
        0 <= i < searched(h, kind, limit, offset, order).len(),
    ensures
        h.contains(searched(h, kind, limit, offset, order)[i]),
        of_kind(kind)(searched(h, kind, limit, offset, order)[i]),
{
    let src = in_order(h, order);
    let kept = src.filter(of_kind(kind));
    let e = searched(h, kind, limit, offset, order)[i];
    lemma_page_items(kept, skipped(offset), at_most(limit), i);
    assert(kept[skipped(offset) + i] == e);
    assert(kept.contains(e));
    src.lemma_filter_contains_rev(of_kind(kind), e);
    src.lemma_filter_pred(of_kind(kind), skipped(offset) + i);
    let j = choose|j: int| 0 <= j < src.len() && src[j] == e;
    if order == Some(SearchOrder::Desc) {
        assert(h[h.len() - 1 - j] == e);
    } else {
        assert(h[j] == e);
    }
}

/// What an operation makes of a history is a history again: creation
/// times still increase strictly and every identity still occurs once. An
/// append adds one entry, an update keeps their number and the identity of
/// the entry it replaces, and a delete that finds its entry takes one away.
pub proof fn law_history_stays_valid(
    h: Seq<EntryView>,
    draft: EntryView,
    entry: EntryView,
    id: u128,
    identity: Option<u128>,
    now: Timestamp,
)
    requires
        valid_history(h),
    ensures
        appended(h, draft, id, now) matches Ok(g) ==> valid_history(g) && g.len() == h.len() + 1,
        updated(h, entry, now) matches Ok(Some(g)) ==> valid_history(g) && g.len() == h.len()
            && has_identity(g, entry.uuid->0),
        valid_history(deleted(h, identity).0),
        deleted(h, identity).1 is Some ==> deleted(h, identity).0.len() == h.len() - 1,
{
    if appended(h, draft, id, now) is Ok {
        lemma_with_entry_valid(h, admitted(draft, id, now));
    }
    if updated(h, entry, now) is Ok && updated(h, entry, now)->Ok_0 is Some {
        let g = updated(h, entry, now)->Ok_0->0;
        let i = position_of(h, entry.uuid->0);
        let rest = h.remove(i);
        let e = amended(h[i], entry, now);
        lemma_remove_valid(h, i);
        lemma_with_entry_valid(rest, e);
        assert(g[insertion_point(rest, e.ctime->0)].uuid == entry.uuid);
    }
    if identity is Some && has_identity(h, identity->0) {
        lemma_remove_valid(h, position_of(h, identity->0));
    }
}

/// Registering an address twice leaves what registering it once leaves: one
/// story, empty if the address was new and unchanged if it was not.
pub proof fn law_register_idempotent(slot: Option<IpStoryView>, ip: IpAddress)
    ensures
        registered(registered(slot, ip), ip) == registered(slot, ip),
        slot is Some ==> registered(slot, ip) == slot,
        slot is None ==> registered(slot, ip) == Some(
            IpStoryView { ip, history: Seq::<EntryView>::empty() },
        ),
{
}

/// An append succeeds only where the creation time of the new entry is not
/// yet in the history; where it is, the append is a conflict.
pub proof fn law_append_conflict(h: Seq<EntryView>, draft: EntryView, id: u128, now: Timestamp)
    ensures
        has_time(h, admitted(draft, id, now).ctime->0) ==> appended(h, draft, id, now) == Err::<
            Seq<EntryView>,
            StoreError,
        >(StoreError::Conflict),
        appended(h, draft, id, now) is Ok ==> !has_time(h, admitted(draft, id, now).ctime->0),
{
}

/// An append at a creation time that is new to a history, under an
/// identity that is new to it, succeeds: the history grows by exactly the
/// new entry, which carries that identity, and stays a history.
pub proof fn law_append_fresh(h: Seq<EntryView>, draft: EntryView, id: u128, now: Timestamp)
    requires
        valid_history(h),
        !has_time(h, admitted(draft, id, now).ctime->0),
        !has_identity(h, id),
    ensures
        appended(h, draft, id, now) matches Ok(g) && {
            let p = insertion_point(h, admitted(draft, id, now).ctime->0);
            &&& g.len() == h.len() + 1
            &&& valid_history(g)
            &&& 0 <= p < g.len()
            &&& g[p] == admitted(draft, id, now)
            &&& g.remove(p) == h
            &&& has_identity(g, id)
            &&& position_of(g, id) == p
        },
{
    let e = admitted(draft, id, now);
    let p = insertion_point(h, e.ctime->0);
    lemma_with_entry_valid(h, e);
    let g = appended(h, draft, id, now)->Ok_0;
    lemma_insertion_point_splits(h, e.ctime->0);
    assert(g.remove(p) =~= h);
    lemma_position_of(g, id, p);
}

/// A query without kind, offset or limit answers with the whole history:
/// oldest first by default and for `Asc`, and in exactly the reverse order
/// for `Desc`.
pub proof fn law_search_everything(h: Seq<EntryView>)
    ensures
        searched(h, None, None, None, None) == h,
        searched(h, None, None, None, Some(SearchOrder::Asc)) == h,
        searched(h, None, None, None, Some(SearchOrder::Desc)) == h.reverse(),
{
    lemma_filter_all(h, of_kind(None));
    lemma_filter_all(h.reverse(), of_kind(None));
    assert(page(h, 0, None) =~= h);
    assert(page(h.reverse(), 0, None) =~= h.reverse());
}

/// How many entries are left of `count` after `offset` of them are skipped
/// and the rest is cut to `limit`.
pub open spec fn page_len(count: nat, offset: Option<usize>, limit: Option<usize>) -> nat {
    let rest = if skipped(offset) >= count {
        0nat
    } else {
        (count - skipped(offset)) as nat
    };
    if limit is Some && limit->0 < rest {
        limit->0 as nat
    } else {
        rest
    }
}

/// A query for a kind answers with entries of that kind only, and with as
/// many of them as the history holds, less those that the offset skips and
/// the limit cuts, in either order.
pub proof fn law_search_kind(
    h: Seq<EntryView>,
    kind: DataKind,
    limit: Option<usize>,
    offset: Option<usize>,
    order: Option<SearchOrder>,
)
    ensures
        forall|i: int|
            0 <= i < searched(h, Some(kind), limit, offset, order).len() ==> (#[trigger] searched(
                h,
                Some(kind),
                limit,
                offset,
                order,
            )[i]).data.kind() == kind,
        searched(h, Some(kind), limit, offset, order).len() == page_len(
            h.filter(of_kind(Some(kind))).len(),
            offset,
            limit,
        ),
        h.filter(of_kind(Some(kind))) == searched(h, Some(kind), None, None, None),
{
    let found = searched(h, Some(kind), limit, offset, order);
    assert forall|i: int| 0 <= i < found.len() implies (#[trigger] found[i]).data.kind()
        == kind by {
        lemma_searched_items(h, Some(kind), limit, offset, order, i);
    }
    lemma_filter_reverse_len(h, of_kind(Some(kind)));
    assert(page(h.filter(of_kind(Some(kind))), 0, None) =~= h.filter(of_kind(Some(kind))));
}

/// An update for an identity that no entry has, or for none, changes
/// nothing and reports that nothing matched, which is no error.
pub proof fn law_update_unknown(
    slot: Option<IpStoryView>,
    h: Seq<EntryView>,
    entry: EntryView,
    now: Timestamp,
)
    requires
        entry.uuid is None || !has_identity(h, entry.uuid->0),
    ensures
        updated(h, entry, now) == Ok::<Option<Seq<EntryView>>, StoreError>(None),
        slot matches Some(s) && s.history == h ==> story_updated(slot, entry, now) == (
            slot,
            Ok::<bool, StoreError>(false),
        ),
{
}

/// Once an entry is deleted, no query on what is left answers with an
/// entry of its identity.
pub proof fn law_delete_then_search(
    h: Seq<EntryView>,
    id: u128,
    kind: Option<DataKind>,
    limit: Option<usize>,
    offset: Option<usize>,
    order: Option<SearchOrder>,
)
    requires
        valid_history(h),
    ensures
        valid_history(deleted(h, Some(id)).0),
        !has_identity(deleted(h, Some(id)).0, id),
        forall|i: int|
            0 <= i < searched(deleted(h, Some(id)).0, kind, limit, offset, order).len() ==> (
            #[trigger] searched(deleted(h, Some(id)).0, kind, limit, offset, order)[i]).uuid
                != Some(id),
{
    let rest = deleted(h, Some(id)).0;
    if has_identity(h, id) {
        lemma_remove_valid(h, position_of(h, id));
    }
    let found = searched(rest, kind, limit, offset, order);
    assert forall|i: int| 0 <= i < found.len() implies (#[trigger] found[i]).uuid != Some(id) by {
        lemma_searched_items(rest, kind, limit, offset, order, i);
        let j = choose|j: int| 0 <= j < rest.len() && rest[j] == found[i];
        assert(rest[j].uuid != Some(id));
    }
}

/// A delete for an identity that no entry has, or for none, changes
/// nothing and answers with nothing.
pub proof fn law_delete_unknown(slot: Option<IpStoryView>, h: Seq<EntryView>, identity: Option<u128>)
    requires
        identity is None || !has_identity(h, identity->0),
    ensures
        deleted(h, identity) == (h, None::<EntryView>),
        slot matches Some(s) && s.history == h ==> story_deleted(slot, identity) == (
            slot,
            Ok::<Option<EntryView>, StoreError>(None),
        ),
{
}

} // verus!
