//! The seven kinds of payload and the two directions of a query.

use vstd::prelude::*;

verus! {

/// The direction in which a query walks a history.
#[derive(Debug, Clone, Copy, PartialEq, Eq, Structural)]
pub enum SearchOrder {
    /// Oldest entry first.
    Asc,
    /// Newest entry first.
    Desc,
}

/// The tag of a payload: which of the seven cases an entry carries.
#[derive(Debug, Clone, Copy, PartialEq, Eq, Structural)]
pub enum DataKind {
    Owner,
    Asn,
    MispEvent,
    Ticket,
    Vulnerable,
    Text,
    Json,
}

/// The kind that an external name denotes, if it denotes one.
pub open spec fn kind_named(name: Seq<char>) -> Option<DataKind> {
    if name == "owner"@ {
        Some(DataKind::Owner)
    } else if name == "asn"@ {
        Some(DataKind::Asn)
    } else if name == "misp-event"@ {
        Some(DataKind::MispEvent)
    } else if name == "ticket"@ {
        Some(DataKind::Ticket)
    } else if name == "vulnerable"@ {
        Some(DataKind::Vulnerable)
    } else if name == "text"@ {
        Some(DataKind::Text)
    } else if name == "json"@ {
        Some(DataKind::Json)
    } else {
        None
    }
}

/// Whether two string slices hold the same characters.
fn same_text(a: &str, b: &str) -> (r: bool)
    ensures
        r == (a@ == b@),
{
    a.to_owned() == b.to_owned()
}

impl DataKind {
    /// The external name of the kind.
    pub open spec fn name(self) -> Seq<char> {
        match self {
            DataKind::Owner => "owner"@,
            DataKind::Asn => "asn"@,
            DataKind::MispEvent => "misp-event"@,
            DataKind::Ticket => "ticket"@,
            DataKind::Vulnerable => "vulnerable"@,
            DataKind::Text => "text"@,
            DataKind::Json => "json"@,
        }
    }

    /// The external name of the kind, in kebab case.
    pub fn as_str(&self) -> (s: &'static str)
        ensures
            s@ == self.name(),
    {
        match self {
            DataKind::Owner => "owner",
            DataKind::Asn => "asn",
            DataKind::MispEvent => "misp-event",
            DataKind::Ticket => "ticket",
            DataKind::Vulnerable => "vulnerable",
            DataKind::Text => "text",
            DataKind::Json => "json",
        }
    }

    /// Reads a kind from its external name. Any other text is handed back
    /// as the error.
    pub fn from_param(param: &str) -> (res: Result<DataKind, &str>)
        ensures
            match kind_named(param@) {
                Some(k) => res == Ok::<DataKind, &str>(k),
                None => res == Err::<DataKind, &str>(param),
            },
    {
        if same_text(param, "owner") {
            Ok(DataKind::Owner)
        } else if same_text(param, "asn") {
            Ok(DataKind::Asn)
        } else if same_text(param, "misp-event") {
            Ok(DataKind::MispEvent)
        } else if same_text(param, "ticket") {
            Ok(DataKind::Ticket)
        } else if same_text(param, "vulnerable") {
            Ok(DataKind::Vulnerable)
        } else if same_text(param, "text") {
            Ok(DataKind::Text)
        } else if same_text(param, "json") {
            Ok(DataKind::Json)
        } else {
            Err(param)
        }
    }
}

/// Every kind is read back from its own name.
pub proof fn lemma_name_round_trip(k: DataKind)
    ensures
        kind_named(k.name()) == Some(k),
{
    reveal_strlit("owner");
    reveal_strlit("asn");
    reveal_strlit("misp-event");
    reveal_strlit("ticket");
    reveal_strlit("vulnerable");
    reveal_strlit("text");
    reveal_strlit("json");
    assert("owner"@.len() == 5 && "asn"@.len() == 3 && "misp-event"@.len() == 10);
    assert("ticket"@.len() == 6 && "vulnerable"@.len() == 10 && "text"@.len() == 4);
    assert("json"@.len() == 4);
    assert("misp-event"@[0] == 'm' && "vulnerable"@[0] == 'v');
    assert("text"@[0] == 't' && "json"@[0] == 'j');
}

} // verus!
