//! The deterministic test-double kernel and its scriptable driver stubs.
//!
//! The stubs emulate kernel-resident drivers: each carries a small internal
//! state machine that the `command` and `allow_readwrite` dispatch consults
//! and mutates, plus stimulus methods a test uses to script behaviour. The
//! kernel itself lives in [`kernel`] and routes every syscall by driver
//! number.

pub mod humidity;
pub mod kernel;
pub mod rng;

use vstd::prelude::*;

verus! {

/// What a driver stub reports about itself: the driver number it serves and
/// how many subscription slots it exposes.
#[derive(Clone, Copy, Debug, PartialEq, Eq, Structural)]
pub struct DriverInfo {
    pub driver_num: u32,
    pub upcall_count: u32,
}

/// A driver stub installable in the fake kernel.
pub enum Driver {
    Humidity(humidity::Humidity),
    Rng(rng::Rng),
}

} // verus!
