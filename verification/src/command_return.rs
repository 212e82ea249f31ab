use vstd::prelude::*;
use crate::error_code::ErrorCode;

verus! {

/// The value a driver hands back from a `command` syscall.
///
/// A command either fails with an [`ErrorCode`] or succeeds, optionally
/// carrying one 32-bit payload word. The success variants are distinct: a
/// caller that expects a plain success does not accept a value-carrying one,
/// and the other way round.
#[derive(Clone, Copy, Debug, PartialEq, Eq, Structural)]
pub enum CommandReturn {
    Failure(ErrorCode),
    Success,
    SuccessU32(u32),
}

impl CommandReturn {
    /// True exactly for the plain `Success` variant.
    pub fn is_success(&self) -> (r: bool)
        ensures
            r == (*self == CommandReturn::Success),
    {
        matches!(*self, CommandReturn::Success)
    }

    /// True exactly for the `Failure` variant.
    pub fn is_failure(&self) -> (r: bool)
        ensures
            r == (self is Failure),
    {
        matches!(*self, CommandReturn::Failure(_))
    }

    /// The payload word of a `SuccessU32`, and `None` for every other variant.
    pub fn get_success_u32(&self) -> (r: Option<u32>)
        ensures
            r == (match *self {
                CommandReturn::SuccessU32(v) => Some(v),
                _ => None::<u32>,
            }),
    {
        match *self {
            CommandReturn::SuccessU32(v) => Some(v),
            _ => None,
        }
    }

    /// Converts to a plain result: `Ok(())` for `Success`, the carried error
    /// for `Failure`, and `Err(Invalid)` when the driver answered with an
    /// unexpected value-carrying variant.
    pub fn to_result(&self) -> (r: Result<(), ErrorCode>)
        ensures
            r == (match *self {
                CommandReturn::Success => Ok(()),
                CommandReturn::Failure(e) => Err(e),
                CommandReturn::SuccessU32(_) => Err::<(), ErrorCode>(ErrorCode::Invalid),
            }),
    {
        match *self {
            CommandReturn::Success => Ok(()),
            CommandReturn::Failure(e) => Err(e),
            CommandReturn::SuccessU32(_) => Err(ErrorCode::Invalid),
        }
    }
}

} // verus!
