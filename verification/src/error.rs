//! The categorised domain error. Its variants map onto HTTP status codes at the
//! API edge without the domain needing to know where a failure came from.
use vstd::prelude::*;
use vstd::std_specs::convert::IntoSpec;
use vstd::string::StringExecFns;

verus! {

/// A categorised domain error.
#[derive(Debug)]
pub enum Error {
    /// An entity of the named kind does not exist.
    NotFound { entity: &'static str },
    /// The caller sent something unacceptable.
    Invalid(String),
    /// The request conflicts with the current state.
    Conflict(String),
    /// The caller is not allowed to do this.
    Unauthorized,
    /// The storage layer failed.
    Storage(String),
    /// A service this one depends on failed.
    Upstream(String),
    /// Any other failure, carried as its message.
    Other(String),
}

/// The message of an error, as its `Display` shows it.
pub open spec fn error_text(e: Error) -> Seq<char> {
    match e {
        Error::NotFound { entity } => entity@ + " not found"@,
        Error::Invalid(m) => "invalid input: "@ + m@,
        Error::Conflict(m) => "conflict: "@ + m@,
        Error::Unauthorized => "unauthorized"@,
        Error::Storage(m) => "storage error: "@ + m@,
        Error::Upstream(m) => "upstream error: "@ + m@,
        Error::Other(m) => m@,
    }
}

/// The HTTP status that answers an error: 404, 400, 409, 401, 502, and 500
/// for storage and other failures.
pub open spec fn error_status(e: Error) -> u16 {
    match e {
        Error::NotFound { .. } => 404,
        Error::Invalid(_) => 400,
        Error::Conflict(_) => 409,
        Error::Unauthorized => 401,
        Error::Upstream(_) => 502,
        Error::Storage(_) | Error::Other(_) => 500,
    }
}

impl Error {
    /// An `Invalid` error whose message is what `msg.into()` gives.
    pub fn invalid<M: Into<String>>(msg: M) -> (e: Self)
        ensures
            e matches Error::Invalid(m) && call_ensures(<M as Into<String>>::into, (msg,), m) && (<M
                as IntoSpec<String>>::obeys_into_spec() ==> m == msg.into_spec()),
    {
        Error::Invalid(msg.into())
    }

    /// A `Storage` error whose message is what `msg.into()` gives.
    pub fn storage<M: Into<String>>(msg: M) -> (e: Self)
        ensures
            e matches Error::Storage(m) && call_ensures(<M as Into<String>>::into, (msg,), m) && (<M
                as IntoSpec<String>>::obeys_into_spec() ==> m == msg.into_spec()),
    {
        Error::Storage(msg.into())
    }

    /// The message that `Display` shows for this error.
    pub fn message(&self) -> (text: String)
        ensures
            text@ == error_text(*self),
    {
        match self {
            Error::NotFound { entity } => {
                let mut text = String::from_str(entity);
                text.append(" not found");
                text
            },
            Error::Invalid(m) => prefixed("invalid input: ", m),
            Error::Conflict(m) => prefixed("conflict: ", m),
            Error::Unauthorized => String::from_str("unauthorized"),
            Error::Storage(m) => prefixed("storage error: ", m),
            Error::Upstream(m) => prefixed("upstream error: ", m),
            Error::Other(m) => m.clone(),
        }
    }

    /// The HTTP status code that answers this error.
    pub fn status_code(&self) -> (code: u16)
        ensures
            code == error_status(*self),
    {
        match self {
            Error::NotFound { .. } => 404,
            Error::Invalid(_) => 400,
            Error::Conflict(_) => 409,
            Error::Unauthorized => 401,
            Error::Upstream(_) => 502,
            Error::Storage(_) | Error::Other(_) => 500,
        }
    }
}

/// `<String as From<&str>>::from`, which std documents as converting a string
/// slice into an owned `String`: the same text.
pub assume_specification<'a>[ <std::string::String as core::convert::From<&'a str>>::from ](
    s: &str,
) -> (r: std::string::String)
    ensures
        r@ == s@,
;

/// The reflexive `From::from` of a type into itself, which std documents as
/// returning its argument unchanged.
pub assume_specification<V>[ <V as core::convert::From<V>>::from ](value: V) -> (r: V)
    ensures
        r == value,
;

/// `prefix` followed by `message`.
fn prefixed(prefix: &str, message: &String) -> (text: String)
    ensures
        text@ == prefix@ + message@,
{
    let mut text = String::from_str(prefix);
    text.append(message.as_str());
    text
}

} // verus!
