//! The payload of an entry: exactly one of seven typed cases.

use crate::kind::DataKind;
use vstd::prelude::*;

verus! {

/// `url::Url`, a parsed URL. The library carries such a value and never
/// looks inside it.
#[verifier::external_type_specification]
#[verifier::external_body]
pub struct ExUrl(url::Url);

/// `serde_json::Value`, any JSON value. The library carries such a value
/// and never looks inside it.
#[verifier::external_type_specification]
#[verifier::external_body]
pub struct ExJsonValue(serde_json::Value);

/// `<url::Url as Clone>::clone`, which the crate derives: the copy is the
/// same URL as the value it was made from.
#[verifier::external_body]
fn clone_url(u: &url::Url) -> (r: url::Url)
    ensures
        r == *u,
{
    u.clone()
}

/// `<serde_json::Value as Clone>::clone`, which the crate derives: the
/// copy is the same JSON value as the value it was made from.
#[verifier::external_body]
fn clone_json(v: &serde_json::Value) -> (r: serde_json::Value)
    ensures
        r == *v,
{
    v.clone()
}

fn clone_server(s: &Option<url::Url>) -> (r: Option<url::Url>)
    ensures
        r == *s,
{
    match s {
        Some(u) => Some(clone_url(u)),
        None => None,
    }
}

/// A copy of an optional text.
pub fn clone_text(s: &Option<String>) -> (r: Option<String>)
    ensures
        r.deep_view() == s.deep_view(),
{
    match s {
        Some(t) => Some(t.clone()),
        None => None,
    }
}

/// Who holds an address.
#[derive(Debug, PartialEq, Eq)]
pub struct Owner {
    pub name: String,
    pub address: Option<String>,
    pub country: Option<String>,
    pub abuse: Option<String>,
    pub phone: Option<String>,
}

/// An [`Owner`] as plain text.
pub struct OwnerView {
    pub name: Seq<char>,
    pub address: Option<Seq<char>>,
    pub country: Option<Seq<char>>,
    pub abuse: Option<Seq<char>>,
    pub phone: Option<Seq<char>>,
}

impl View for Owner {
    type V = OwnerView;

    open spec fn view(&self) -> OwnerView {
        OwnerView {
            name: self.name@,
            address: self.address.deep_view(),
            country: self.country.deep_view(),
            abuse: self.abuse.deep_view(),
            phone: self.phone.deep_view(),
        }
    }
}

impl Clone for Owner {
    fn clone(&self) -> (r: Owner)
        ensures
            r@ == self@,
    {
        Owner {
            name: self.name.clone(),
            address: clone_text(&self.address),
            country: clone_text(&self.country),
            abuse: clone_text(&self.abuse),
            phone: clone_text(&self.phone),
        }
    }
}

/// The identifier of a ticket: a number, or a UUID as its 128 bits.
#[derive(Debug, Clone, Copy, PartialEq, Eq, Structural)]
pub enum TicketId {
    Id(u64),
    Uuid(u128),
}

/// A reference to a MISP event: the server that holds it, if known, and
/// the event's UUID as its 128 bits.
#[derive(Debug, PartialEq, Eq)]
pub struct MispEvent {
    pub server: Option<url::Url>,
    pub uuid: u128,
}

impl Clone for MispEvent {
    fn clone(&self) -> (r: MispEvent)
        ensures
            r == *self,
    {
        MispEvent { server: clone_server(&self.server), uuid: self.uuid }
    }
}

/// A reference to an abuse ticket: the server that holds it, if known, and
/// the ticket's identifier.
#[derive(Debug, PartialEq, Eq)]
pub struct Ticket {
    pub server: Option<url::Url>,
    pub id: TicketId,
}

impl Clone for Ticket {
    fn clone(&self) -> (r: Ticket)
        ensures
            r == *self,
    {
        Ticket { server: clone_server(&self.server), id: self.id }
    }
}

/// The payload of an entry.
#[derive(Debug, PartialEq, Eq)]
pub enum Data {
    Owner(Owner),
    Asn(u64),
    MispEvent(MispEvent),
    Ticket(Ticket),
    Vulnerable(String),
    Text(String),
    Json(serde_json::Value),
}

/// A [`Data`] with its texts as sequences of characters.
pub enum DataView {
    Owner(OwnerView),
    Asn(u64),
    MispEvent(MispEvent),
    Ticket(Ticket),
    Vulnerable(Seq<char>),
    Text(Seq<char>),
    Json(serde_json::Value),
}

impl DataView {
    /// The tag of the payload: which case it is, whatever it holds.
    pub open spec fn kind(self) -> DataKind {
        match self {
            DataView::Owner(_) => DataKind::Owner,
            DataView::Asn(_) => DataKind::Asn,
            DataView::MispEvent(_) => DataKind::MispEvent,
            DataView::Ticket(_) => DataKind::Ticket,
            DataView::Vulnerable(_) => DataKind::Vulnerable,
            DataView::Text(_) => DataKind::Text,
            DataView::Json(_) => DataKind::Json,
        }
    }
}

impl View for Data {
    type V = DataView;

    open spec fn view(&self) -> DataView {
        match self {
            Data::Owner(o) => DataView::Owner(o@),
            Data::Asn(n) => DataView::Asn(*n),
            Data::MispEvent(m) => DataView::MispEvent(*m),
            Data::Ticket(t) => DataView::Ticket(*t),
            Data::Vulnerable(s) => DataView::Vulnerable(s@),
            Data::Text(s) => DataView::Text(s@),
            Data::Json(v) => DataView::Json(*v),
        }
    }
}

impl Data {
    /// The tag of the payload.
    pub fn kind(&self) -> (k: DataKind)
        ensures
            k == self@.kind(),
    {
        match self {
            Data::Owner(_) => DataKind::Owner,
            Data::Asn(_) => DataKind::Asn,
            Data::MispEvent(_) => DataKind::MispEvent,
            Data::Ticket(_) => DataKind::Ticket,
            Data::Vulnerable(_) => DataKind::Vulnerable,
            Data::Text(_) => DataKind::Text,
            Data::Json(_) => DataKind::Json,
        }
    }
}

impl Clone for Data {
    fn clone(&self) -> (r: Data)
        ensures
            r@ == self@,
    {
        match self {
            Data::Owner(o) => Data::Owner(o.clone()),
            Data::Asn(n) => Data::Asn(*n),
            Data::MispEvent(m) => Data::MispEvent(m.clone()),
            Data::Ticket(t) => Data::Ticket(t.clone()),
            Data::Vulnerable(s) => Data::Vulnerable(s.clone()),
            Data::Text(s) => Data::Text(s.clone()),
            Data::Json(v) => Data::Json(clone_json(v)),
        }
    }
}

} // verus!
