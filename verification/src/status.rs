//! The status of an answered request.

use vstd::prelude::*;

use crate::error::RpcError;

verus! {

/// How a request fared.
#[derive(Debug, Clone, Copy, PartialEq, Eq, Structural)]
pub enum RpcStatusCode {
    Success,
    InvalidMethod,
    BadRequest,
    NotImplemented,
    General,
}

impl RpcStatusCode {
    /// The number that stands for the code in a response.
    pub open spec fn number(self) -> u32 {
        match self {
            RpcStatusCode::Success => 200,
            RpcStatusCode::InvalidMethod => 300,
            RpcStatusCode::BadRequest => 400,
            RpcStatusCode::NotImplemented => 404,
            RpcStatusCode::General => 500,
        }
    }
}

/// How a request fared, and what there is to say about it.
#[derive(Debug)]
pub struct RpcStatus {
    pub code: RpcStatusCode,
    pub details: String,
}

/// A status: its code, and its details as text.
#[verifier::ext_equal]
pub struct RpcStatusView {
    pub code: RpcStatusCode,
    pub details: Seq<char>,
}

impl View for RpcStatus {
    type V = RpcStatusView;

    open spec fn view(&self) -> RpcStatusView {
        RpcStatusView { code: self.code, details: self.details@ }
    }
}

/// The status of a request that could not be read.
pub open spec fn unreadable_status() -> RpcStatusView {
    RpcStatusView { code: RpcStatusCode::BadRequest, details: "Failed to decode request"@ }
}

/// The status of a request that failed for another reason.
pub open spec fn failed_status() -> RpcStatusView {
    RpcStatusView { code: RpcStatusCode::General, details: "Request failed"@ }
}

/// The status of a request whose handling failed with `err`.
pub open spec fn status_of_error(err: RpcError) -> RpcStatusView {
    match err {
        RpcError::DecodeError(_) => unreadable_status(),
        RpcError::Io(_) => failed_status(),
    }
}

impl RpcStatus {
    /// The request was answered.
    pub fn ok() -> (res: RpcStatus)
        ensures
            res@ == (RpcStatusView { code: RpcStatusCode::Success, details: seq![] }),
            res.code == RpcStatusCode::Success,
            res.details@.len() == 0,
    {
        RpcStatus { code: RpcStatusCode::Success, details: String::new() }
    }

    /// There is no such method.
    pub fn invalid_method(details: String) -> (res: RpcStatus)
        ensures
            res@ == (RpcStatusView { code: RpcStatusCode::InvalidMethod, details: details@ }),
            res.code == RpcStatusCode::InvalidMethod,
            res.details@ == details@,
    {
        RpcStatus { code: RpcStatusCode::InvalidMethod, details }
    }

    /// There is such a method, but it does nothing.
    pub fn not_implemented(details: String) -> (res: RpcStatus)
        ensures
            res@ == (RpcStatusView { code: RpcStatusCode::NotImplemented, details: details@ }),
            res.code == RpcStatusCode::NotImplemented,
            res.details@ == details@,
    {
        RpcStatus { code: RpcStatusCode::NotImplemented, details }
    }

    /// The request is at fault.
    pub fn bad_request(details: String) -> (res: RpcStatus)
        ensures
            res@ == (RpcStatusView { code: RpcStatusCode::BadRequest, details: details@ }),
            res.code == RpcStatusCode::BadRequest,
            res.details@ == details@,
    {
        RpcStatus { code: RpcStatusCode::BadRequest, details }
    }

    /// Something else went wrong.
    pub fn general(details: String) -> (res: RpcStatus)
        ensures
            res@ == (RpcStatusView { code: RpcStatusCode::General, details: details@ }),
            res.code == RpcStatusCode::General,
            res.details@ == details@,
    {
        RpcStatus { code: RpcStatusCode::General, details }
    }

    /// The number that stands for the status in a response.
    pub fn as_code(&self) -> (res: u32)
        ensures
            res == self.code.number(),
    {
        match self.code {
            RpcStatusCode::Success => 200,
            RpcStatusCode::InvalidMethod => 300,
            RpcStatusCode::BadRequest => 400,
            RpcStatusCode::NotImplemented => 404,
            RpcStatusCode::General => 500,
        }
    }

    /// The status as text: its details.
    pub fn to_string(&self) -> (res: String)
        ensures
            res@ == self.details@,
    {
        self.details.clone()
    }
}

impl From<RpcError> for RpcStatus {
    fn from(err: RpcError) -> (res: RpcStatus)
        ensures
            res@ == status_of_error(err),
            err is DecodeError <==> res.code == RpcStatusCode::BadRequest,
            err is DecodeError <==> res.code != RpcStatusCode::General,
            err is DecodeError ==> res.details@ == "Failed to decode request"@,
            !(err is DecodeError) ==> res.details@ == "Request failed"@,
    {
        match err {
            RpcError::DecodeError(_) => {
                RpcStatus::bad_request("Failed to decode request".to_owned())
            },
            RpcError::Io(_) => RpcStatus::general("Request failed".to_owned()),
        }
    }
}

/// What `from` returns is stated by its `ensures`, over the text of the status: two strings with
/// the same text need not be equal values in a specification.
impl vstd::std_specs::convert::FromSpecImpl<RpcError> for RpcStatus {
    open spec fn obeys_from_spec() -> bool {
        false
    }

    open spec fn from_spec(err: RpcError) -> RpcStatus {
        arbitrary()
    }
}

/// A peer learns whether its request could not be read, and nothing else of an error.
pub proof fn errors_are_not_told(a: RpcError, b: RpcError)
    requires
        a is DecodeError <==> b is DecodeError,
    ensures
        status_of_error(a) == status_of_error(b),
{
}

/// No two status codes have the same number.
pub proof fn status_numbers_differ(a: RpcStatusCode, b: RpcStatusCode)
    requires
        a.number() == b.number(),
    ensures
        a == b,
{
}

/// The numbers of the status codes: 200 where the request was answered, 300 where there is no such
/// method, 400 where the request is at fault, 404 where the method does nothing, and 500 else.
pub proof fn status_numbers(code: RpcStatusCode)
    ensures
        code.number() == 200 <==> code == RpcStatusCode::Success,
        code.number() == 300 <==> code == RpcStatusCode::InvalidMethod,
        code.number() == 400 <==> code == RpcStatusCode::BadRequest,
        code.number() == 404 <==> code == RpcStatusCode::NotImplemented,
        code.number() == 500 <==> code == RpcStatusCode::General,
{
}

/// The view of a status has the code and the whole of the details.
pub proof fn statuses_are_viewed_whole(status: RpcStatus)
    ensures
        status@.code == status.code,
        status@.details == status.details@,
{
}

/// An error is told as a bad request that could not be decoded exactly if it came of decoding, and
/// as a general failure else.
pub proof fn errors_are_told_by_their_kind(err: RpcError)
    ensures
        match err {
            RpcError::DecodeError(_) => status_of_error(err).code.number() == 400
                && status_of_error(err).details == "Failed to decode request"@,
            RpcError::Io(_) => status_of_error(err).code.number() == 500
                && status_of_error(err).details == "Request failed"@,
        },
{
}

} // verus!
