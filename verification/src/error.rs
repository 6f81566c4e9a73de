//! What can go wrong on a connection.

use prost::DecodeError;
use vstd::prelude::*;

verus! {

/// Why a request, or the connection it came over, failed.
#[derive(Debug)]
pub enum RpcError {
    /// The bytes of a message could not be read.
    DecodeError(DecodeError),
    /// The connection failed, for the reason given.
    Io(String),
}

impl From<DecodeError> for RpcError {
    fn from(err: DecodeError) -> (res: RpcError)
        ensures
            res == RpcError::DecodeError(err),
    {
        RpcError::DecodeError(err)
    }
}

impl vstd::std_specs::convert::FromSpecImpl<DecodeError> for RpcError {
    open spec fn obeys_from_spec() -> bool {
        true
    }

    open spec fn from_spec(err: DecodeError) -> RpcError {
        RpcError::DecodeError(err)
    }
}

} // verus!
