use vstd::prelude::*;

use crate::builder::error::Error as BuildError;
use crate::machine::error::Error as MachineError;
use crate::machine::program::WorkId;

verus! {

/// The errors of the web interface.
#[derive(Debug)]
pub enum Error {
    BuildError(BuildError),
    MachineError(MachineError),
    NoSuchWork { id: WorkId },
    RequireAKey,
    // the database's own error is not exposed
    DatabaseError,
}

impl From<BuildError> for Error {
    fn from(error: BuildError) -> (r: Self) {
        Self::BuildError(error)
    }
}

impl vstd::std_specs::convert::FromSpecImpl<BuildError> for Error {
    open spec fn obeys_from_spec() -> bool {
        true
    }

    open spec fn from_spec(error: BuildError) -> Self {
        Error::BuildError(error)
    }
}

impl From<MachineError> for Error {
    fn from(error: MachineError) -> (r: Self) {
        Self::MachineError(error)
    }
}

impl vstd::std_specs::convert::FromSpecImpl<MachineError> for Error {
    open spec fn obeys_from_spec() -> bool {
        true
    }

    open spec fn from_spec(error: MachineError) -> Self {
        Error::MachineError(error)
    }
}

/// The answer to a request that gives no data: whether it succeeded, and
/// the message of its failure.
#[derive(Debug)]
pub struct BoolResult {
    pub success: bool,
    pub error_msg: Option<String>,
}

impl BoolResult {
    /// A bare success or failure.
    pub fn from_bool(success: bool) -> (r: Self)
        ensures
            r.success == success,
            r.error_msg is None,
    {
        Self { success, error_msg: None }
    }

    /// The answer to a request that ended as `result`, the failure given by
    /// its message.
    pub fn from_result(result: Result<(), String>) -> (r: Self)
        ensures
            match result {
                Ok(()) => r.success && r.error_msg is None,
                Err(m) => !r.success && r.error_msg == Some(m),
            },
    {
        match result {
            Ok(()) => Self { success: true, error_msg: None },
            Err(message) => Self { success: false, error_msg: Some(message) },
        }
    }
}

/// The answer to a request that gives data: whether it succeeded, the data,
/// and the message of its failure.
#[derive(Debug)]
pub struct ObjResult<T> {
    pub success: bool,
    pub data: Option<T>,
    pub error_msg: Option<String>,
}

impl<T> ObjResult<T> {
    /// The answer to a request that ended as `result`, the failure given by
    /// its message.
    pub fn from_result(result: Result<T, String>) -> (r: Self)
        ensures
            match result {
                Ok(data) => r.success && r.data == Some(data) && r.error_msg is None,
                Err(m) => !r.success && r.data is None && r.error_msg == Some(m),
            },
    {
        match result {
            Ok(data) => Self { success: true, data: Some(data), error_msg: None },
            Err(message) => Self { success: false, data: None, error_msg: Some(message) },
        }
    }
}

} // verus!
