//! What the service answers.

use crate::database::GeoRecord;
use crate::lookup::{InvalidAddress, LookupResult};
use crate::refresh::RefreshOutcome;
use vstd::prelude::*;

verus! {

/// An answer to a request: a record, or a status with a flag and a fixed
/// message. No answer carries a decoder's own error text.
#[derive(Clone, Debug, PartialEq, Eq)]
pub enum Reply {
    /// The record that was found; its status is 200.
    Record(GeoRecord),
    Notice { status: u16, success: bool, message: &'static str },
}

pub const STATUS_OK: u16 = 200;

pub const STATUS_BAD_REQUEST: u16 = 400;

pub const STATUS_NOT_FOUND: u16 = 404;

pub const STATUS_CONFLICT: u16 = 409;

pub const STATUS_SERVER_ERROR: u16 = 500;

pub const STATUS_UNAVAILABLE: u16 = 503;

/// `reply` is the notice with this status, flag and message.
pub open spec fn is_notice(reply: Reply, status: u16, success: bool, message: Seq<char>) -> bool {
    &&& reply matches Reply::Notice { status: s, success: flag, message: text }
    &&& s == status
    &&& flag == success
    &&& text@ == message
}

/// The status of a reply.
pub open spec fn reply_status(reply: Reply) -> u16 {
    match reply {
        Reply::Record(_) => STATUS_OK,
        Reply::Notice { status, .. } => status,
    }
}

impl Reply {
    /// The status of the reply; that of a record is 200.
    pub fn status(&self) -> (status: u16)
        ensures
            status == reply_status(*self),
    {
        match self {
            Reply::Record(_) => STATUS_OK,
            Reply::Notice { status, .. } => *status,
        }
    }
}

/// The text that tells a caller that the service is alive.
pub fn liveness_text() -> (text: &'static str)
    ensures
        text@ == "GeoIP 🍡"@,
{
    "GeoIP 🍡"
}

/// The answer to a lookup: the record where one was found; 404 where the
/// database has no entry; 400 where the text is no address; 500 where the
/// database could not be read.
pub fn lookup_reply(resolution: Result<LookupResult, InvalidAddress>) -> (reply: Reply)
    ensures
        match resolution {
            Ok(LookupResult::Found(record)) => reply == Reply::Record(record),
            Ok(LookupResult::NotFound) => is_notice(reply, STATUS_NOT_FOUND, false, "not found"@),
            Ok(LookupResult::LookupFailed(_)) => is_notice(
                reply,
                STATUS_SERVER_ERROR,
                false,
                "IP lookup failed"@,
            ),
            Err(_) => is_notice(reply, STATUS_BAD_REQUEST, false, "Invalid IP address"@),
        },
{
    match resolution {
        Ok(LookupResult::Found(record)) => Reply::Record(record),
        Ok(LookupResult::NotFound) => Reply::Notice {
            status: STATUS_NOT_FOUND,
            success: false,
            message: "not found",
        },
        Ok(LookupResult::LookupFailed(_)) => Reply::Notice {
            status: STATUS_SERVER_ERROR,
            success: false,
            message: "IP lookup failed",
        },
        Err(_) => Reply::Notice {
            status: STATUS_BAD_REQUEST,
            success: false,
            message: "Invalid IP address",
        },
    }
}

/// The answer to a refresh asked for by hand: 200 where it succeeded, 500
/// where it failed, and 409 where it was rejected because one was in flight
/// (`None`).
pub fn refresh_reply(outcome: Option<RefreshOutcome>) -> (reply: Reply)
    ensures
        match outcome {
            Some(RefreshOutcome::Succeeded(_)) => is_notice(
                reply,
                STATUS_OK,
                true,
                "Update initiated"@,
            ),
            Some(_) => is_notice(reply, STATUS_SERVER_ERROR, false, "Update failed"@),
            None => is_notice(reply, STATUS_CONFLICT, false, "Update already in progress"@),
        },
{
    match outcome {
        Some(RefreshOutcome::Succeeded(_)) => Reply::Notice {
            status: STATUS_OK,
            success: true,
            message: "Update initiated",
        },
        Some(_) => Reply::Notice {
            status: STATUS_SERVER_ERROR,
            success: false,
            message: "Update failed",
        },
        None => Reply::Notice {
            status: STATUS_CONFLICT,
            success: false,
            message: "Update already in progress",
        },
    }
}

/// The answer to a request that arrives while the service accepts none.
pub fn refused_reply() -> (reply: Reply)
    ensures
        is_notice(reply, STATUS_UNAVAILABLE, false, "Service unavailable"@),
{
    Reply::Notice { status: STATUS_UNAVAILABLE, success: false, message: "Service unavailable" }
}

} // verus!
