//! The history of one address: its entries in order of creation.

use crate::entry::{Entry, EntryView};
use crate::kind::{DataKind, SearchOrder};
use crate::model::{
    admitted, amended, appended, at_most, deleted, has_identity, has_time, in_order,
    insertion_point, is_stored, lemma_insertion_point, lemma_position_of, lemma_remove_valid,
    lemma_with_entry_valid, of_kind, page, position_of, searched, skipped, updated,
    valid_history, with_entry, StoreError,
};
use crate::time::Timestamp;
use vstd::prelude::*;

verus! {

/// The entries of one address, oldest first. No two entries share a
/// creation time or an identity.
#[derive(Debug)]
pub struct History {
    entries: Vec<Entry>,
}

impl View for History {
    type V = Seq<EntryView>;

    closed spec fn view(&self) -> Seq<EntryView> {
        self.entries.deep_view()
    }
}

impl DeepView for History {
    type V = Seq<EntryView>;

    open spec fn deep_view(&self) -> Seq<EntryView> {
        self@
    }
}

/// Filtering one more item either appends it or changes nothing.
proof fn lemma_filter_step<A>(s: Seq<A>, i: int, pred: spec_fn(A) -> bool)
    requires
        0 <= i < s.len(),
    ensures
        s.take(i + 1).filter(pred) == if pred(s[i]) {
            s.take(i).filter(pred).push(s[i])
        } else {
            s.take(i).filter(pred)
        },
{
    reveal(Seq::filter);
    assert(s.take(i + 1).drop_last() =~= s.take(i));
}

/// A full page of a prefix is the page of the whole.
proof fn lemma_page_full<A>(a: Seq<A>, b: Seq<A>, offset: nat, limit: nat)
    requires
        page(a, offset, Some(limit)).len() >= limit,
    ensures
        page(a + b, offset, Some(limit)) == page(a, offset, Some(limit)),
{
    assert(page(a + b, offset, Some(limit)) =~= page(a, offset, Some(limit)));
}

/// The position at which an entry created at `ts` belongs.
fn slot_for(entries: &Vec<Entry>, ts: Timestamp) -> (p: usize)
    requires
        valid_history(entries.deep_view()),
    ensures
        p == insertion_point(entries.deep_view(), ts),
        p <= entries.len(),
        has_time(entries.deep_view(), ts) <==> (p < entries.len() && entries[p as int].ctime
            == Some(ts)),
{
    let ghost h = entries.deep_view();
    let mut p: usize = 0;
    assert forall|k: int| 0 <= k < entries.len() implies (#[trigger] entries[k]).ctime is Some by {
        assert(is_stored(h[k]));
    }
    while p < entries.len() && entries[p].ctime.unwrap().is_before(&ts)
        invariant
            h == entries.deep_view(),
            valid_history(h),
            p <= entries.len(),
            forall|k: int| 0 <= k < entries.len() ==> (#[trigger] entries[k]).ctime is Some,
            forall|k: int| 0 <= k < p ==> (#[trigger] h[k]).ctime->0.lt(ts),
        decreases entries.len() - p,
    {
        assert(is_stored(h[p as int]));
        p += 1;
    }
    proof {
        if p < entries.len() {
            assert(is_stored(h[p as int]));
        }
        assert forall|k: int| p <= k < h.len() implies !(#[trigger] h[k]).ctime->0.lt(ts) by {
            if k > p {
                assert(h[p as int].ctime->0.lt(h[k].ctime->0));
            }
        }
        lemma_insertion_point(h, ts, p as int);
        if has_time(h, ts) {
            let k = choose|k: int| 0 <= k < h.len() && (#[trigger] h[k]).ctime == Some(ts);
            if k > p {
                assert(h[p as int].ctime->0.lt(h[k].ctime->0));
            }
        }
        if p < entries.len() && entries[p as int].ctime == Some(ts) {
            assert(h[p as int].ctime == Some(ts));
        }
    }
    p
}

/// The position of the entry with the identity `id`, if there is one.
fn find_identity(entries: &Vec<Entry>, id: u128) -> (r: Option<usize>)
    requires
        valid_history(entries.deep_view()),
    ensures
        r is Some <==> has_identity(entries.deep_view(), id),
        r matches Some(i) ==> i < entries.len() && i == position_of(entries.deep_view(), id),
{
    let ghost h = entries.deep_view();
    let mut i: usize = 0;
    while i < entries.len()
        invariant
            h == entries.deep_view(),
            valid_history(h),
            i <= entries.len(),
            forall|k: int| 0 <= k < i ==> (#[trigger] h[k]).uuid != Some(id),
        decreases entries.len() - i,
    {
        if entries[i].uuid == Some(id) {
            proof {
                assert(h[i as int].uuid == Some(id));
                lemma_position_of(h, id, i as int);
            }
            return Some(i);
        }
        i += 1;
    }
    None
}

impl History {
    #[verifier::type_invariant]
    spec fn well_formed(self) -> bool {
        valid_history(self@)
    }

    /// The empty history.
    pub fn new() -> (h: History)
        ensures
            h@ == Seq::<EntryView>::empty(),
    {
        let h = History { entries: Vec::new() };
        assert(h@ =~= Seq::<EntryView>::empty());
        h
    }

    /// Makes a history of entries that are given oldest first. Returns
    /// `None` where an entry lacks its identity or its creation time, where
    /// creation times do not increase strictly, or where an identity
    /// occurs twice.
    pub fn from_entries(entries: Vec<Entry>) -> (r: Option<History>)
        ensures
            r is Some <==> valid_history(entries.deep_view()),
            r matches Some(h) ==> h@ == entries.deep_view(),
    {
        let ghost h = entries.deep_view();
        let n = entries.len();
        let mut i: usize = 0;
        assert(valid_history(h.take(0)));
        while i < n
            invariant
                h == entries.deep_view(),
                n == entries.len(),
                i <= n,
                valid_history(h.take(i as int)),
            decreases n - i,
        {
            let e = &entries[i];
            assert(e@ == h[i as int]);
            let (id, ts) = match (e.uuid, e.ctime) {
                (Some(id), Some(ts)) => (id, ts),
                _ => {
                    assert(!is_stored(h[i as int]));
                    return None;
                },
            };
            if i > 0 {
                assert(h.take(i as int)[i - 1] == h[i - 1]);
                assert(is_stored(h.take(i as int)[i - 1]));
                if !entries[i - 1].ctime.unwrap().is_before(&ts) {
                    assert(!h[i - 1].ctime->0.lt(h[i as int].ctime->0));
                    return None;
                }
            }
            let mut k: usize = 0;
            while k < i
                invariant
                    h == entries.deep_view(),
                    n == entries.len(),
                    i < n,
                    k <= i,
                    h[i as int].uuid == Some(id),
                    forall|a: int| 0 <= a < k ==> (#[trigger] h[a]).uuid != Some(id),
                decreases i - k,
            {
                if entries[k].uuid == Some(id) {
                    assert(h[k as int].uuid == h[i as int].uuid);
                    return None;
                }
                k += 1;
            }
            proof {
                let g = h.take(i as int);
                let g2 = h.take(i + 1);
                assert forall|a: int| 0 <= a < g2.len() implies is_stored(#[trigger] g2[a]) by {
                    if a < i {
                        assert(g2[a] == g[a]);
                    }
                }
                assert forall|a: int, b: int| 0 <= a < b < g2.len() implies (
                #[trigger] g2[a]).ctime->0.lt((#[trigger] g2[b]).ctime->0) && g2[a].uuid
                    != g2[b].uuid by {
                    assert(g2[a] == g[a]);
                    if b < i {
                        assert(g2[b] == g[b]);
                    } else if a < i - 1 {
                        assert(g[a].ctime->0.lt(g[i - 1].ctime->0));
                    }
                }
            }
            i += 1;
        }
        assert(h.take(n as int) =~= h);
        Some(History { entries })
    }

    /// The entries, oldest first.
    pub fn entries(&self) -> (r: &Vec<Entry>)
        ensures
            r.deep_view() == self@,
            valid_history(self@),
    {
        proof {
            use_type_invariant(self);
        }
        &self.entries
    }

    /// The number of entries.
    pub fn len(&self) -> (n: usize)
        ensures
            n == self@.len(),
            valid_history(self@),
    {
        proof {
            use_type_invariant(self);
        }
        self.entries.len()
    }

    /// Appends a draft under the identity `id`, created at its own
    /// creation time or, if it has none, at `now`. Nothing changes where
    /// the creation time or the identity is already in the history.
    pub fn append(&mut self, draft: Entry, id: u128, now: Timestamp) -> (r: Result<(), StoreError>)
        ensures
            valid_history(final(self)@),
            match appended(old(self)@, draft@, id, now) {
                Ok(h) => r is Ok && final(self)@ == h,
                Err(e) => r == Err::<(), StoreError>(e) && final(self)@ == old(self)@,
            },
    {
        proof {
            use_type_invariant(&*self);
        }
        let ts = match draft.ctime {
            Some(t) => t,
            None => now,
        };
        let p = slot_for(&self.entries, ts);
        if p < self.entries.len() && self.entries[p].ctime == Some(ts) {
            return Err(StoreError::Conflict);
        }
        if find_identity(&self.entries, id).is_some() {
            return Err(StoreError::IdentityInUse);
        }
        let ghost before = self@;
        let entry = Entry { uuid: Some(id), ctime: Some(ts), ..draft };
        assert(entry@ == admitted(draft@, id, now));
        let mut entries: Vec<Entry> = Vec::new();
        core::mem::swap(&mut self.entries, &mut entries);
        entries.insert(p, entry);
        proof {
            lemma_with_entry_valid(before, entry@);
            assert(entries.deep_view() =~= with_entry(before, entry@));
        }
        self.entries = entries;
        Ok(())
    }

    /// Puts `entry`, modified at `now`, in the place of the entry that has
    /// its identity. Returns `Ok(false)`, and changes nothing, where no
    /// entry has that identity. The new entry is created at its own
    /// creation time or, if it has none, at that of the entry it replaces;
    /// where another entry holds that time the update is refused as a
    /// conflict and nothing changes.
    pub fn update(&mut self, entry: Entry, now: Timestamp) -> (r: Result<bool, StoreError>)
        ensures
            valid_history(final(self)@),
            match updated(old(self)@, entry@, now) {
                Ok(Some(h)) => r == Ok::<bool, StoreError>(true) && final(self)@ == h,
                Ok(None) => r == Ok::<bool, StoreError>(false) && final(self)@ == old(self)@,
                Err(e) => r == Err::<bool, StoreError>(e) && final(self)@ == old(self)@,
            },
    {
        proof {
            use_type_invariant(&*self);
        }
        let ghost before = self@;
        let id = match entry.uuid {
            Some(id) => id,
            None => {
                return Ok(false);
            },
        };
        let i = match find_identity(&self.entries, id) {
            Some(i) => i,
            None => {
                return Ok(false);
            },
        };
        assert(is_stored(before[i as int]));
        let ts = match entry.ctime {
            Some(t) => t,
            None => self.entries[i].ctime.unwrap(),
        };
        let p = slot_for(&self.entries, ts);
        let taken = p < self.entries.len() && self.entries[p].ctime == Some(ts) && p != i;
        proof {
            lemma_remove_valid(before, i as int);
            let rest = before.remove(i as int);
            if taken {
                let q = if p < i {
                    p as int
                } else {
                    p - 1
                };
                assert(rest[q] == before[p as int]);
            }
            if has_time(rest, ts) {
                let q = choose|q: int| 0 <= q < rest.len() && (#[trigger] rest[q]).ctime == Some(ts);
                let q2 = if q < i {
                    q
                } else {
                    q + 1
                };
                assert(rest[q] == before[q2]);
                assert(has_time(before, ts));
            }
        }
        if taken {
            return Err(StoreError::Conflict);
        }
        let fresh = Entry { ctime: Some(ts), mtime: Some(now), ..entry };
        assert(fresh@ == amended(before[i as int], entry@, now));
        let mut entries: Vec<Entry> = Vec::new();
        core::mem::swap(&mut self.entries, &mut entries);
        let _ = entries.remove(i);
        assert(entries.deep_view() =~= before.remove(i as int));
        let q = slot_for(&entries, ts);
        entries.insert(q, fresh);
        proof {
            lemma_with_entry_valid(before.remove(i as int), fresh@);
            assert(entries.deep_view() =~= with_entry(before.remove(i as int), fresh@));
        }
        self.entries = entries;
        Ok(true)
    }

    /// Removes the entry that has the identity and returns it. Returns
    /// `None`, and changes nothing, where no identity is given or no entry
    /// has it.
    pub fn delete(&mut self, identity: Option<u128>) -> (r: Option<Entry>)
        ensures
            valid_history(final(self)@),
            final(self)@ == deleted(old(self)@, identity).0,
            r.deep_view() == deleted(old(self)@, identity).1,
    {
        proof {
            use_type_invariant(&*self);
        }
        let ghost before = self@;
        let id = match identity {
            Some(id) => id,
            None => {
                return None;
            },
        };
        let i = match find_identity(&self.entries, id) {
            Some(i) => i,
            None => {
                return None;
            },
        };
        let mut entries: Vec<Entry> = Vec::new();
        core::mem::swap(&mut self.entries, &mut entries);
        let removed = entries.remove(i);
        proof {
            lemma_remove_valid(before, i as int);
            assert(entries.deep_view() =~= before.remove(i as int));
        }
        self.entries = entries;
        Some(removed)
    }

    /// Answers a query: walks the history oldest first, or newest first
    /// for `SearchOrder::Desc`; keeps the entries whose payload is of
    /// `kind`, or all where none is given; skips the first `offset` of
    /// them and returns copies of at most `limit` of those that follow.
    pub fn search(
        &self,
        kind: Option<DataKind>,
        limit: Option<usize>,
        offset: Option<usize>,
        order: Option<SearchOrder>,
    ) -> (out: Vec<Entry>)
        ensures
            out.deep_view() == searched(self@, kind, limit, offset, order),
    {
        let n = self.entries.len();
        let newest_first = match order {
            Some(SearchOrder::Desc) => true,
            _ => false,
        };
        let skip: usize = match offset {
            Some(k) => k,
            None => 0,
        };
        let cap: usize = match limit {
            Some(k) => k,
            None => usize::MAX,
        };
        let ghost src = in_order(self@, order);
        let ghost pred = of_kind(kind);
        let mut out: Vec<Entry> = Vec::new();
        let mut seen: usize = 0;
        let mut i: usize = 0;
        assert(src.take(0) =~= Seq::<EntryView>::empty());
        assert(out.deep_view() =~= Seq::<EntryView>::empty());
        proof {
            reveal(Seq::filter);
        }
        while i < n && out.len() < cap
            invariant
                n == self.entries.len(),
                n == self@.len(),
                src == in_order(self@, order),
                src.len() == n,
                pred == of_kind(kind),
                newest_first == (order == Some(SearchOrder::Desc)),
                skip == skipped(offset),
                limit is Some ==> cap == limit->0,
                limit is None ==> cap == usize::MAX,
                i <= n,
                seen == src.take(i as int).filter(pred).len(),
                seen <= i,
                out.len() <= i,
                out.deep_view() == page(src.take(i as int).filter(pred), skip as nat, at_most(limit)),
            decreases n - i,
        {
            let j = if newest_first {
                n - 1 - i
            } else {
                i
            };
            let e = &self.entries[j];
            assert(e@ == src[i as int]);
            let keep = match kind {
                Some(k) => e.data.kind() == k,
                None => true,
            };
            assert(keep == pred(src[i as int]));
            proof {
                lemma_filter_step(src, i as int, pred);
            }
            let ghost before = src.take(i as int).filter(pred);
            if keep {
                if seen >= skip {
                    let ghost shown = out.deep_view();
                    out.push(e.clone());
                    assert(out.deep_view() =~= shown.push(e@));
                    assert(page(before.push(e@), skip as nat, at_most(limit)) =~= shown.push(e@));
                } else {
                    assert(page(before.push(e@), skip as nat, at_most(limit)) =~= page(
                        before,
                        skip as nat,
                        at_most(limit),
                    ));
                }
                seen += 1;
            }
            i += 1;
        }
        proof {
            let done = src.take(i as int);
            assert(done + src.skip(i as int) =~= src);
            if i < n {
                assert(limit is Some);
                Seq::filter_distributes_over_add(done, src.skip(i as int), pred);
                lemma_page_full(
                    done.filter(pred),
                    src.skip(i as int).filter(pred),
                    skip as nat,
                    cap as nat,
                );
            } else {
                assert(done =~= src);
            }
        }
        out
    }
}

} // verus!
