//! A verified store for the chronological story of an IP address.
//!
//! Each address owns a history of typed entries ordered by creation time.
//! The modules below hold the data model, the operations that append to,
//! amend, prune and query a history, and the laws that relate them.
//!
//! * [`store`] has the five operations on the story of one address.
//! * [`history`] has the ordered collection that they work on.
//! * [`model`] says, over plain sequences, what each operation computes.
//! * [`laws`] proves what holds of the operations taken together.

pub mod api;
pub mod data;
pub mod entry;
pub mod history;
pub mod kind;
pub mod laws;
pub mod model;
pub mod store;
pub mod tag;
pub mod time;

pub use api::{ApiData, ApiError, ApiResponse};
pub use data::{Data, MispEvent, Owner, Ticket, TicketId};
pub use entry::Entry;
pub use history::History;
pub use kind::{DataKind, SearchOrder};
pub use model::StoreError;
pub use store::{IpAddress, IpStory};
pub use tag::{Tag, TagSet};
pub use time::Timestamp;
