//! The decisions of serving one connection: who may be served, and what the
//! reply to a request says.
//!
//! A peer running as another user is closed before any read. A request from
//! another major is answered with `unsupported_version`, a body the handler
//! cannot decode with `invalid_request`, and anything else with the
//! handler's result.

use vstd::prelude::*;
use vstd::string::StringExecFns;
use crate::envelope::{Fault, Outcome, Version};
use crate::text::{decimal, decimal_of};

verus! {

/// Whether the connection is served: only when the peer's user is known
/// and is `uid`, the server's own.
pub fn peer_allowed(peer: Option<u32>, uid: u32) -> (allowed: bool)
    ensures
        allowed == (peer == Some(uid)),
{
    match peer {
        Some(p) => p == uid,
        None => false,
    }
}

pub open spec fn version_message(supported: u16, requested: u16) -> Seq<char> {
    "this server speaks major version "@ + decimal_of(supported as nat) + ", not "@ + decimal_of(
        requested as nat,
    )
}

/// The JSON object `{"requested_major":…,"supported_major":…}`.
pub open spec fn version_details(supported: u16, requested: u16) -> Seq<char> {
    "{\"requested_major\":"@ + decimal_of(requested as nat) + ",\"supported_major\":"@
        + decimal_of(supported as nat) + "}"@
}

/// The fault for a request whose major is not the server's, `None` when the
/// majors agree.
pub fn version_fault(version: Version, sent: Version) -> (fault: Option<Fault>)
    ensures
        sent.major == version.major ==> fault is None,
        sent.major != version.major ==> {
            &&& fault is Some
            &&& fault.unwrap().code@ == "unsupported_version"@
            &&& fault.unwrap().message@ == version_message(version.major, sent.major)
            &&& !fault.unwrap().retryable
            &&& fault.unwrap().details is Some
            &&& fault.unwrap().details.unwrap()@ == version_details(version.major, sent.major)
        },
{
    if sent.major == version.major {
        return None;
    }
    let mut message = "this server speaks major version ".to_owned();
    message.append(decimal(version.major as u64).as_str());
    message.append(", not ");
    message.append(decimal(sent.major as u64).as_str());
    let mut details = "{\"requested_major\":".to_owned();
    details.append(decimal(sent.major as u64).as_str());
    details.append(",\"supported_major\":");
    details.append(decimal(version.major as u64).as_str());
    details.append("}");
    Some(
        Fault {
            code: "unsupported_version".to_owned(),
            message,
            retryable: false,
            details: Some(details),
        },
    )
}

/// The fault for a body the handler's request type cannot decode.
pub fn invalid_request_fault() -> (fault: Fault)
    ensures
        fault.code@ == "invalid_request"@,
        fault.message@ == "the request body is not one this server answers"@,
        !fault.retryable,
        fault.details is None,
{
    Fault {
        code: "invalid_request".to_owned(),
        message: "the request body is not one this server answers".to_owned(),
        retryable: false,
        details: None,
    }
}

/// The outcome for a request from the same major: the handler's response or
/// its error, or `invalid_request` when the body did not decode
/// (`handled` is `None`).
pub fn outcome_of<R>(handled: Option<Result<R, Fault>>) -> (outcome: Outcome<R>)
    ensures
        match handled {
            Some(Ok(r)) => outcome == Outcome::<R>::Reply(r),
            Some(Err(f)) => outcome == Outcome::<R>::Fault(f),
            None => outcome matches Outcome::Fault(f) && f.code@ == "invalid_request"@
                && f.message@ == "the request body is not one this server answers"@
                && !f.retryable && f.details is None,
        },
{
    match handled {
        Some(Ok(r)) => Outcome::Reply(r),
        Some(Err(f)) => Outcome::Fault(f),
        None => Outcome::Fault(invalid_request_fault()),
    }
}

} // verus!
