use vstd::prelude::*;

verus! {

/// The error kinds that cross the syscall boundary.
///
/// Every transport failure is reported as one of these values; the higher
/// layers translate them into domain results but introduce no new kinds.
#[derive(Clone, Copy, Debug, PartialEq, Eq, Structural)]
pub enum ErrorCode {
    /// The request referred to a driver that is not installed.
    NoDevice,
    /// The driver exists but does not implement the requested operation.
    NoSupport,
    /// The driver is already servicing an outstanding request.
    Busy,
    /// An argument (for example a buffer id) was rejected by the driver.
    Invalid,
    /// A generic failure, also used where a setup error is collapsed.
    Fail,
}

} // verus!
