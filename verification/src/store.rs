//! The five operations on the story of one address. Each takes what the
//! persistence layer holds for the address, a story or nothing, and leaves
//! there what is to be persisted.

use crate::entry::{Entry, EntryView};
use crate::history::History;
use crate::kind::{DataKind, SearchOrder};
use crate::model::{appended, deleted, searched, updated, valid_history, StoreError};
use crate::time::{current_time, Timestamp};
use vstd::prelude::*;

verus! {

/// An IP address: the 32 bits of an IPv4 address or the 128 bits of an
/// IPv6 address.
#[derive(Debug, Clone, Copy, PartialEq, Eq, Structural)]
pub enum IpAddress {
    V4(u32),
    V6(u128),
}

/// An address and its history: the unit that is loaded and saved.
#[derive(Debug)]
pub struct IpStory {
    pub ip: IpAddress,
    pub history: History,
}

/// An [`IpStory`] with its history as a sequence of entries.
pub struct IpStoryView {
    pub ip: IpAddress,
    pub history: Seq<EntryView>,
}

impl View for IpStory {
    type V = IpStoryView;

    open spec fn view(&self) -> IpStoryView {
        IpStoryView { ip: self.ip, history: self.history@ }
    }
}

impl DeepView for IpStory {
    type V = IpStoryView;

    open spec fn deep_view(&self) -> IpStoryView {
        self@
    }
}

impl IpStory {
    /// The story of an address of which nothing is known yet.
    pub fn new(ip: IpAddress) -> (s: IpStory)
        ensures
            s@ == (IpStoryView { ip, history: Seq::empty() }),
    {
        IpStory { ip, history: History::new() }
    }

    /// The story that a stored record holds: the address and the entries,
    /// which the record lists oldest first. Fails with `Storage` where the
    /// entries do not make a history.
    pub fn restore(ip: IpAddress, entries: Vec<Entry>) -> (r: Result<IpStory, StoreError>)
        ensures
            match r {
                Ok(s) => valid_history(entries.deep_view()) && s@ == (IpStoryView {
                    ip,
                    history: entries.deep_view(),
                }),
                Err(e) => !valid_history(entries.deep_view()) && e == StoreError::Storage,
            },
    {
        match History::from_entries(entries) {
            Some(history) => Ok(IpStory { ip, history }),
            None => Err(StoreError::Storage),
        }
    }
}

/// Whether an identity is that of a random (version 4) UUID of the
/// RFC 4122 variant: the version bits hold 4 and the variant bits `10`.
pub open spec fn is_random_uuid(id: u128) -> bool {
    id & 0x0000_0000_0000_f000_c000_0000_0000_0000u128
        == 0x0000_0000_0000_4000_8000_0000_0000_0000u128
}

/// Draws an identity with `uuid::Uuid::new_v4` and reads its 128 bits with
/// `Uuid::as_u128`. The bits are random but for the version and the
/// variant, which `new_v4` sets; two draws may differ in any other way, and
/// nothing says that they do. `new_v4` panics when the operating system
/// yields no random bytes.
#[verifier::external_body]
pub(crate) fn fresh_identity() -> (id: u128)
    ensures
        is_random_uuid(id),
{
    uuid::Uuid::new_v4().as_u128()
}

/// What registering an address leaves in its place: the story that is
/// there, or an empty one.
pub open spec fn registered(slot: Option<IpStoryView>, ip: IpAddress) -> Option<IpStoryView> {
    match slot {
        Some(s) => Some(s),
        None => Some(IpStoryView { ip, history: Seq::empty() }),
    }
}

/// What appending leaves in the place of an address, and what it answers.
pub open spec fn story_appended(
    slot: Option<IpStoryView>,
    draft: EntryView,
    id: u128,
    now: Timestamp,
) -> (Option<IpStoryView>, Result<bool, StoreError>) {
    match slot {
        None => (slot, Err(StoreError::NotFound)),
        Some(s) => match appended(s.history, draft, id, now) {
            Ok(h) => (Some(IpStoryView { ip: s.ip, history: h }), Ok(true)),
            Err(e) => (slot, Err(e)),
        },
    }
}

/// What updating leaves in the place of an address, and what it answers.
pub open spec fn story_updated(slot: Option<IpStoryView>, entry: EntryView, now: Timestamp) -> (
    Option<IpStoryView>,
    Result<bool, StoreError>,
) {
    match slot {
        None => (slot, Err(StoreError::NotFound)),
        Some(s) => match updated(s.history, entry, now) {
            Ok(Some(h)) => (Some(IpStoryView { ip: s.ip, history: h }), Ok(true)),
            Ok(None) => (slot, Ok(false)),
            Err(e) => (slot, Err(e)),
        },
    }
}

/// What deleting leaves in the place of an address, and what it answers.
pub open spec fn story_deleted(slot: Option<IpStoryView>, identity: Option<u128>) -> (
    Option<IpStoryView>,
    Result<Option<EntryView>, StoreError>,
) {
    match slot {
        None => (slot, Err(StoreError::NotFound)),
        Some(s) => (
            Some(IpStoryView { ip: s.ip, history: deleted(s.history, identity).0 }),
            Ok(deleted(s.history, identity).1),
        ),
    }
}

/// What a query answers.
pub open spec fn story_searched(
    slot: Option<IpStoryView>,
    kind: Option<DataKind>,
    limit: Option<usize>,
    offset: Option<usize>,
    order: Option<SearchOrder>,
) -> Result<Seq<EntryView>, StoreError> {
    match slot {
        None => Err(StoreError::NotFound),
        Some(s) => Ok(searched(s.history, kind, limit, offset, order)),
    }
}

/// Registers an address: where no story is held for it, an empty one is
/// put there; a story that is there stays as it is. Returns the address.
pub fn create_if_absent(slot: &mut Option<IpStory>, ip: IpAddress) -> (r: IpAddress)
    ensures
        r == ip,
        final(slot).deep_view() == registered(old(slot).deep_view(), ip),
{
    if slot.is_none() {
        *slot = Some(IpStory::new(ip));
    }
    ip
}

/// Appends a draft under the identity `id`, created at its own creation
/// time or, if it has none, at `now`. Fails with `NotFound` where no story
/// is held, with `Conflict` where the creation time is taken, and with
/// `IdentityInUse` where the identity is; a failure changes nothing.
pub fn append_entry_with(slot: &mut Option<IpStory>, draft: Entry, id: u128, now: Timestamp) -> (r:
    Result<bool, StoreError>)
    ensures
        (final(slot).deep_view(), r) == story_appended(old(slot).deep_view(), draft@, id, now),
{
    match slot {
        None => Err(StoreError::NotFound),
        Some(story) => match story.history.append(draft, id, now) {
            Ok(()) => Ok(true),
            Err(e) => Err(e),
        },
    }
}

/// Appends a draft under an identity drawn at random, created at its own
/// creation time or, if it has none, at the time of the call. Whatever
/// identity and time come up, the outcome is that of
/// [`append_entry_with`] for them.
pub fn append_entry(slot: &mut Option<IpStory>, draft: Entry) -> (r: Result<bool, StoreError>)
    ensures
        exists|id: u128, now: Timestamp|
            is_random_uuid(id) && (final(slot).deep_view(), r) == #[trigger] story_appended(
                old(slot).deep_view(),
                draft@,
                id,
                now,
            ),
{
    let id = fresh_identity();
    let now = match draft.ctime {
        Some(t) => t,
        None => current_time(),
    };
    append_entry_with(slot, draft, id, now)
}

/// Puts `entry`, modified at `now`, in the place of the entry that has its
/// identity. Answers `Ok(false)`, and changes nothing, where no entry has
/// that identity or `entry` has none. Fails with `NotFound` where no story
/// is held, and with `Conflict` where the new creation time is that of
/// another entry; a failure changes nothing.
pub fn update_entry_with(slot: &mut Option<IpStory>, entry: Entry, now: Timestamp) -> (r: Result<
    bool,
    StoreError,
>)
    ensures
        (final(slot).deep_view(), r) == story_updated(old(slot).deep_view(), entry@, now),
{
    match slot {
        None => Err(StoreError::NotFound),
        Some(story) => story.history.update(entry, now),
    }
}

/// Updates as [`update_entry_with`] does, with the time of the call as the
/// time of modification.
pub fn update_entry(slot: &mut Option<IpStory>, entry: Entry) -> (r: Result<bool, StoreError>)
    ensures
        exists|now: Timestamp|
            (final(slot).deep_view(), r) == #[trigger] story_updated(
                old(slot).deep_view(),
                entry@,
                now,
            ),
{
    let now = current_time();
    update_entry_with(slot, entry, now)
}

/// Answers a query on the story of an address: see [`History::search`].
/// Fails with `NotFound` where no story is held.
pub fn search_entries(
    slot: &Option<IpStory>,
    kind: Option<DataKind>,
    limit: Option<usize>,
    offset: Option<usize>,
    order: Option<SearchOrder>,
) -> (r: Result<Vec<Entry>, StoreError>)
    ensures
        match story_searched(slot.deep_view(), kind, limit, offset, order) {
            Ok(found) => r matches Ok(v) && v.deep_view() == found,
            Err(e) => r matches Err(f) && f == e,
        },
{
    match slot {
        None => Err(StoreError::NotFound),
        Some(story) => Ok(story.history.search(kind, limit, offset, order)),
    }
}

/// Removes the entry that has the identity and answers with it. Answers
/// `Ok(None)`, and changes nothing, where no identity is given or no entry
/// has it. Fails with `NotFound` where no story is held.
pub fn delete_entry(slot: &mut Option<IpStory>, identity: Option<u128>) -> (r: Result<
    Option<Entry>,
    StoreError,
>)
    ensures
        final(slot).deep_view() == story_deleted(old(slot).deep_view(), identity).0,
        match story_deleted(old(slot).deep_view(), identity).1 {
            Ok(gone) => r matches Ok(e) && e.deep_view() == gone,
            Err(e) => r matches Err(f) && f == e,
        },
{
    match slot {
        None => Err(StoreError::NotFound),
        Some(story) => Ok(story.history.delete(identity)),
    }
}

} // verus!
