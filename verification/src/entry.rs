//! One record of a history.

use crate::data::{clone_text, Data, DataView};
use crate::tag::TagSet;
use crate::time::Timestamp;
use vstd::prelude::*;

verus! {

/// One record of a history. A draft handed in for appending carries no
/// identity and need not carry a creation time; a stored entry carries
/// both.
#[derive(Debug)]
pub struct Entry {
    /// The identity, as the 128 bits of a UUID. The store assigns it.
    pub uuid: Option<u128>,
    pub description: Option<String>,
    /// Creation time: the key by which the history is ordered.
    pub ctime: Option<Timestamp>,
    /// Modification time: set by an update only.
    pub mtime: Option<Timestamp>,
    pub tags: Option<TagSet>,
    pub data: Data,
}

/// An [`Entry`] with its texts as sequences of characters.
pub struct EntryView {
    pub uuid: Option<u128>,
    pub description: Option<Seq<char>>,
    pub ctime: Option<Timestamp>,
    pub mtime: Option<Timestamp>,
    pub tags: Option<Seq<Seq<char>>>,
    pub data: DataView,
}

impl View for Entry {
    type V = EntryView;

    open spec fn view(&self) -> EntryView {
        EntryView {
            uuid: self.uuid,
            description: self.description.deep_view(),
            ctime: self.ctime,
            mtime: self.mtime,
            tags: self.tags.deep_view(),
            data: self.data@,
        }
    }
}

impl DeepView for Entry {
    type V = EntryView;

    open spec fn deep_view(&self) -> EntryView {
        self@
    }
}

impl Clone for Entry {
    fn clone(&self) -> (r: Entry)
        ensures
            r@ == self@,
    {
        Entry {
            uuid: self.uuid,
            description: clone_text(&self.description),
            ctime: self.ctime,
            mtime: self.mtime,
            tags: match &self.tags {
                Some(t) => Some(t.clone()),
                None => None,
            },
            data: self.data.clone(),
        }
    }
}

} // verus!
