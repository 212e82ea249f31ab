//! The buzzer driver client.
//!
//! A thin consumer of the syscall surface. The deterministic kernel
//! installs no stub under this driver number, so every call fails with
//! `NoDevice`; in particular the blocking tone can never get past
//! registering its listener, and its scope unwinds with nothing granted
//! left behind.

use vstd::prelude::*;
use crate::error_code::ErrorCode;
use crate::fake::kernel::has_driver;
use crate::fake::kernel::Kernel;
use crate::scope::Scope;
use crate::upcall::Listener;

verus! {

/// The buzzer driver number.
pub const DRIVER_NUM: u32 = 0x90000;

/// Command id: existence check.
pub const DRIVER_CHECK: u32 = 0;

/// Command id: sound a tone.
pub const BUZZ: u32 = 1;

/// Subscription slot: tone-finished callback.
pub const CALLBACK: u32 = 0;

/// The buzzer driver client.
pub struct Buzzer;

impl Buzzer {
    /// Runs a check against the buzzer driver to ensure it is present.
    /// Returns `Ok(())` if the driver is present.
    pub fn driver_check(kernel: &mut Kernel) -> (r: Result<(), ErrorCode>)
        requires
            old(kernel).wf(),
        ensures
            final(kernel).wf(),
            !has_driver(old(kernel)@, DRIVER_NUM) ==> r == Err::<(), ErrorCode>(
                ErrorCode::NoDevice,
            ) && final(kernel)@ == old(kernel)@,
    {
        let r = kernel.command(DRIVER_NUM, DRIVER_CHECK, 0, 0).to_result();
        r
    }

    /// Sounds a tone at `frequency_hz` for `duration_ms`, without waiting
    /// for it to finish.
    pub fn tone(kernel: &mut Kernel, frequency_hz: u32, duration_ms: u32) -> (r: Result<
        (),
        ErrorCode,
    >)
        requires
            old(kernel).wf(),
        ensures
            final(kernel).wf(),
            !has_driver(old(kernel)@, DRIVER_NUM) ==> r == Err::<(), ErrorCode>(
                ErrorCode::NoDevice,
            ) && final(kernel)@ == old(kernel)@,
    {
        kernel.command(DRIVER_NUM, BUZZ, frequency_hz, duration_ms).to_result()
    }

    /// Sounds a tone and blocks until its completion callback would
    /// arrive. The subscription is granted inside a scope so that it is
    /// revoked on every exit path; when the subscription itself fails —
    /// always, under a kernel with no buzzer stub — the error propagates
    /// with the kernel left unchanged.
    pub fn tone_sync(kernel: &mut Kernel, frequency_hz: u32, duration_ms: u32) -> (r: Result<
        (),
        ErrorCode,
    >)
        requires
            old(kernel).wf(),
        ensures
            final(kernel).wf(),
            !has_driver(old(kernel)@, DRIVER_NUM) ==> r == Err::<(), ErrorCode>(
                ErrorCode::NoDevice,
            ) && final(kernel)@ == old(kernel)@,
    {
        let ghost kv0 = old(kernel)@;
        let mut scope = Scope::new();
        match scope.subscribe(kernel, DRIVER_NUM, CALLBACK, Listener::new(0)) {
            Err(e) => {
                let _ = scope.exit(kernel);
                proof {
                    assert(kernel@ =~~= kv0);
                }
                return Err(e);
            },
            Ok(()) => {
                // No stub serves the buzzer number in this kernel, so a
                // successful subscription cannot occur: the tone command
                // and the wait loop that would follow are unreachable.
                proof {
                    assert(false);
                }
                let _ = scope.exit(kernel);
                Err(ErrorCode::Fail)
            },
        }
    }
}

} // verus!
