use vstd::prelude::*;

use super::query::QueryError;

verus! {

/// A failure of the network or of the files that carry a program.
#[derive(Debug)]
pub struct NetError(pub String);

/// A failure of the shared memory between the processes of a work.
#[derive(Debug)]
pub struct SMPError(pub String);

/// The errors of the machine interface.
#[derive(Debug)]
pub enum Error {
    QueryError(QueryError),
    NetError(NetError),
    SMPError(SMPError),
    DeviceError(String),
}

pub type Result<T> = std::result::Result<T, Error>;

impl From<QueryError> for Error {
    fn from(error: QueryError) -> (r: Self) {
        Self::QueryError(error)
    }
}

impl vstd::std_specs::convert::FromSpecImpl<QueryError> for Error {
    open spec fn obeys_from_spec() -> bool {
        true
    }

    open spec fn from_spec(error: QueryError) -> Self {
        Error::QueryError(error)
    }
}

impl From<NetError> for Error {
    fn from(error: NetError) -> (r: Self) {
        Self::NetError(error)
    }
}

impl vstd::std_specs::convert::FromSpecImpl<NetError> for Error {
    open spec fn obeys_from_spec() -> bool {
        true
    }

    open spec fn from_spec(error: NetError) -> Self {
        Error::NetError(error)
    }
}

impl From<SMPError> for Error {
    fn from(error: SMPError) -> (r: Self) {
        Self::SMPError(error)
    }
}

impl vstd::std_specs::convert::FromSpecImpl<SMPError> for Error {
    open spec fn obeys_from_spec() -> bool {
        true
    }

    open spec fn from_spec(error: SMPError) -> Self {
        Error::SMPError(error)
    }
}

} // verus!
