//! The reply envelope: a payload or an error message.

use crate::model::StoreError;
use vstd::prelude::*;

verus! {

/// The payload of a reply: a value, or nothing.
#[derive(Debug, PartialEq, Eq)]
pub enum ApiData<D> {
    Value(D),
    Empty,
}

impl<D> From<Option<D>> for ApiData<D> {
    fn from(value: Option<D>) -> (r: Self) {
        match value {
            Option::Some(d) => ApiData::Value(d),
            Option::None => ApiData::Empty,
        }
    }
}

impl<D> vstd::std_specs::convert::FromSpecImpl<Option<D>> for ApiData<D> {
    open spec fn obeys_from_spec() -> bool {
        true
    }

    open spec fn from_spec(value: Option<D>) -> Self {
        match value {
            Option::Some(d) => ApiData::Value(d),
            Option::None => ApiData::Empty,
        }
    }
}

impl<D> From<ApiData<D>> for Option<D> {
    fn from(value: ApiData<D>) -> (r: Self) {
        match value {
            ApiData::Value(d) => Option::Some(d),
            ApiData::Empty => Option::None,
        }
    }
}

impl<D> vstd::std_specs::convert::FromSpecImpl<ApiData<D>> for Option<D> {
    open spec fn obeys_from_spec() -> bool {
        true
    }

    open spec fn from_spec(value: ApiData<D>) -> Self {
        match value {
            ApiData::Value(d) => Option::Some(d),
            ApiData::Empty => Option::None,
        }
    }
}

/// An error reported to the client.
#[derive(Debug, PartialEq, Eq)]
pub enum ApiError {
    Msg(String),
}

/// The message that tells a client of a failed operation.
pub open spec fn store_message(e: StoreError) -> Seq<char> {
    match e {
        StoreError::NotFound => "no story is stored for this address"@,
        StoreError::Conflict => "an entry with this timestamp is already present"@,
        StoreError::IdentityInUse => "an entry with this identity is already present"@,
        StoreError::Storage => "failed to get data from db"@,
    }
}

impl ApiError {
    /// The message as a sequence of characters.
    pub open spec fn text(self) -> Seq<char> {
        match self {
            ApiError::Msg(s) => s@,
        }
    }

    /// An error that carries `s` as its message.
    pub fn msg(s: &str) -> (e: ApiError)
        ensures
            e.text() == s@,
    {
        ApiError::Msg(s.to_owned())
    }

    /// The error that tells a client of a failed operation.
    pub fn from_store(e: StoreError) -> (r: ApiError)
        ensures
            r.text() == store_message(e),
    {
        match e {
            StoreError::NotFound => ApiError::msg("no story is stored for this address"),
            StoreError::Conflict => ApiError::msg(
                "an entry with this timestamp is already present",
            ),
            StoreError::IdentityInUse => ApiError::msg(
                "an entry with this identity is already present",
            ),
            StoreError::Storage => ApiError::msg("failed to get data from db"),
        }
    }

    /// The message, as the error displays it.
    pub fn message(&self) -> (m: String)
        ensures
            m@ == self.text(),
    {
        match self {
            ApiError::Msg(s) => s.clone(),
        }
    }
}

/// The envelope of every reply: exactly one of `error` and `data` is
/// meaningful, the other is absent.
#[derive(Debug, PartialEq, Eq)]
pub struct ApiResponse<D> {
    pub error: Option<String>,
    pub data: Option<D>,
}

impl<D> ApiResponse<D> {
    /// The envelope of a successful reply: no error, and the payload if
    /// there is one.
    pub fn success(data: ApiData<D>) -> (r: ApiResponse<D>)
        ensures
            r.error is None,
            r.data == <Option<D> as vstd::std_specs::convert::FromSpec<ApiData<D>>>::from_spec(data),
    {
        ApiResponse { error: None, data: Option::from(data) }
    }
}

impl ApiResponse<()> {
    /// The envelope of a failed reply: the error's message and no payload.
    pub fn failure(err: &ApiError) -> (r: ApiResponse<()>)
        ensures
            r.data is None,
            r.error matches Some(m) && m@ == err.text(),
    {
        ApiResponse { error: Some(err.message()), data: None }
    }
}

} // verus!
