//! Replies of the remote service: the session that a login reply carries and
//! the waiting time that a placement reply carries.

use vstd::prelude::*;
use crate::descriptor::text_of;
use crate::json::{
    as_items, json_document, json_items, json_member, member, number_at, parse_json, read_number,
    read_text, text_at,
};

verus! {

/// What a session consists of.
#[derive(Debug)]
pub struct RedditSession {
    pub modhash: String,
    pub cookie: String,
}

/// The mathematical content of a session.
pub struct SessionTokens {
    pub modhash: Seq<char>,
    pub cookie: Seq<char>,
}

impl View for RedditSession {
    type V = SessionTokens;

    open spec fn view(&self) -> SessionTokens {
        SessionTokens { modhash: self.modhash@, cookie: self.cookie@ }
    }
}

/// Why a login reply gives no session.
#[derive(Clone, Copy, Debug, PartialEq, Eq, Structural)]
pub enum LoginError {
    /// The reply is no JSON document.
    Malformed,
    /// The reply has no member `json`.
    NoJson,
    /// The reply has no array of errors.
    NoErrors,
    /// The service reported errors.
    Rejected,
    /// The reply has no member `data`.
    NoData,
    /// The reply names no modhash.
    NoModhash,
    /// The reply names no cookie.
    NoCookie,
}

/// Why a placement reply gives no waiting time.
#[derive(Clone, Copy, Debug, PartialEq, Eq, Structural)]
pub enum PlacementError {
    /// The reply is no JSON document.
    Malformed,
    /// The reply names no waiting time.
    NoWaitTime,
}

/// The number of errors that the inner object of a login reply lists, if it
/// holds a list of them.
pub open spec fn errors_at(inner: serde_json::Value) -> Option<usize> {
    match json_member(inner, "errors"@) {
        Some(errors) => match json_items(errors) {
            Some(items) => Some(items.len() as usize),
            None => None,
        },
        None => None,
    }
}

/// The session that the parts of a login reply make. `parsed` says that the
/// reply is a JSON document, `inner` that it has a member `json`, `errors`
/// how many errors that member lists, `has_data` that it has a member
/// `data`, and `modhash` and `cookie` what `data` holds under these names.
/// The first part that is missing decides the error; a reply that lists an
/// error is rejected before its data are looked at.
pub open spec fn session_of(
    parsed: bool,
    inner: bool,
    errors: Option<usize>,
    has_data: bool,
    modhash: Option<Seq<char>>,
    cookie: Option<Seq<char>>,
) -> Result<SessionTokens, LoginError> {
    if !parsed {
        Err(LoginError::Malformed)
    } else if !inner {
        Err(LoginError::NoJson)
    } else {
        match errors {
            None => Err(LoginError::NoErrors),
            Some(n) => if n > 0 {
                Err(LoginError::Rejected)
            } else if !has_data {
                Err(LoginError::NoData)
            } else {
                match (modhash, cookie) {
                    (None, _) => Err(LoginError::NoModhash),
                    (Some(_), None) => Err(LoginError::NoCookie),
                    (Some(modhash), Some(cookie)) => Ok(SessionTokens { modhash, cookie }),
                }
            },
        }
    }
}

/// What a login reply gives.
pub open spec fn login_from(bytes: Seq<u8>) -> Result<SessionTokens, LoginError> {
    match json_document(bytes) {
        Some(doc) => match json_member(doc, "json"@) {
            Some(inner) => match json_member(inner, "data"@) {
                Some(data) => session_of(
                    true,
                    true,
                    errors_at(inner),
                    true,
                    text_at(data, "modhash"@),
                    text_at(data, "cookie"@),
                ),
                None => session_of(true, true, errors_at(inner), false, None, None),
            },
            None => session_of(true, false, None, false, None, None),
        },
        None => session_of(false, false, None, false, None, None),
    }
}

/// The waiting time that the parts of a placement reply make: the seconds as
/// they were read, whatever their number. `parsed` says that the reply is a
/// JSON document, `wait` what it holds as its waiting time.
pub open spec fn wait_of(parsed: bool, wait: Option<u64>) -> Result<u64, PlacementError> {
    if !parsed {
        Err(PlacementError::Malformed)
    } else {
        match wait {
            Some(n) => Ok(n),
            None => Err(PlacementError::NoWaitTime),
        }
    }
}

/// What a placement reply gives: the waiting time in seconds.
pub open spec fn wait_from(bytes: Seq<u8>) -> Result<u64, PlacementError> {
    match json_document(bytes) {
        Some(doc) => wait_of(true, number_at(doc, "wait_seconds"@)),
        None => wait_of(false, None),
    }
}

/// Makes a session of the parts of a login reply.
pub fn session_from_parts(
    parsed: bool,
    inner: bool,
    errors: Option<usize>,
    has_data: bool,
    modhash: Option<String>,
    cookie: Option<String>,
) -> (r: Result<RedditSession, LoginError>)
    ensures
        match r {
            Ok(s) => session_of(parsed, inner, errors, has_data, text_of(modhash), text_of(cookie))
                == Ok::<SessionTokens, LoginError>(s@),
            Err(e) => session_of(
                parsed,
                inner,
                errors,
                has_data,
                text_of(modhash),
                text_of(cookie),
            ) == Err::<SessionTokens, LoginError>(e),
        },
{
    if !parsed {
        return Err(LoginError::Malformed);
    }
    if !inner {
        return Err(LoginError::NoJson);
    }
    match errors {
        None => Err(LoginError::NoErrors),
        Some(n) => {
            if n > 0 {
                Err(LoginError::Rejected)
            } else if !has_data {
                Err(LoginError::NoData)
            } else {
                match (modhash, cookie) {
                    (None, _) => Err(LoginError::NoModhash),
                    (Some(_), None) => Err(LoginError::NoCookie),
                    (Some(modhash), Some(cookie)) => Ok(RedditSession { modhash, cookie }),
                }
            }
        },
    }
}

/// Makes a waiting time of the parts of a placement reply.
pub fn wait_from_parts(parsed: bool, wait: Option<u64>) -> (r: Result<u64, PlacementError>)
    ensures
        r == wait_of(parsed, wait),
{
    if !parsed {
        Err(PlacementError::Malformed)
    } else {
        match wait {
            Some(n) => Ok(n),
            None => Err(PlacementError::NoWaitTime),
        }
    }
}

fn count_errors(inner: &serde_json::Value) -> (n: Option<usize>)
    ensures
        n == errors_at(*inner),
{
    match member(inner, "errors") {
        Some(errors) => match as_items(errors) {
            Some(items) => Some(items.len()),
            None => None,
        },
        None => None,
    }
}

/// Reads the session out of the body of a login reply.
pub fn read_login(body: &[u8]) -> (r: Result<RedditSession, LoginError>)
    ensures
        match r {
            Ok(s) => login_from(body@) == Ok::<SessionTokens, LoginError>(s@),
            Err(e) => login_from(body@) == Err::<SessionTokens, LoginError>(e),
        },
{
    let doc = match parse_json(body) {
        Some(doc) => doc,
        None => {
            return session_from_parts(false, false, None, false, None, None);
        },
    };
    let inner = match member(&doc, "json") {
        Some(inner) => inner,
        None => {
            return session_from_parts(true, false, None, false, None, None);
        },
    };
    let errors = count_errors(inner);
    match member(inner, "data") {
        Some(data) => {
            let modhash = read_text(data, "modhash");
            let cookie = read_text(data, "cookie");
            session_from_parts(true, true, errors, true, modhash, cookie)
        },
        None => session_from_parts(true, true, errors, false, None, None),
    }
}

/// Reads the waiting time out of the body of a placement reply.
pub fn read_wait(body: &[u8]) -> (r: Result<u64, PlacementError>)
    ensures
        r == wait_from(body@),
{
    match parse_json(body) {
        Some(doc) => wait_from_parts(true, read_number(&doc, "wait_seconds")),
        None => wait_from_parts(false, None),
    }
}

} // verus!
