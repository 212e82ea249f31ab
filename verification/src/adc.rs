//! The analog-to-digital converter driver client.
//!
//! A thin consumer of the syscall surface. The deterministic kernel
//! installs no stub under this driver number, so the channel count can
//! never be obtained from it: every query fails with `Fail`, exactly as on
//! hardware without the converter.

use vstd::prelude::*;
use crate::error_code::ErrorCode;
use crate::fake::kernel::has_driver;
use crate::fake::kernel::Kernel;

verus! {

/// The analog-to-digital converter driver number.
pub const DRIVER_NUM: u32 = 0x00005;

/// Command id: number of channels.
pub const COUNT: u32 = 0;

/// A one-shot cell to be registered and filled when a sample is ready:
/// each upcall overwrites it with the sample carried in the payload's
/// first word, reinterpreted as signed.
#[derive(Debug, PartialEq, Eq)]
pub struct AdcListener {
    pub sample: Option<i32>,
}

impl AdcListener {
    /// Receives a delivered payload: the first word is the sample; the
    /// other two are unused.
    pub fn upcall(&mut self, adc_val: u32, _arg1: u32, _arg2: u32)
        ensures
            final(self).sample == Some(adc_val as i32),
    {
        self.sample = Some(adc_val as i32);
    }
}

/// The analog-to-digital converter driver client.
pub struct Adc;

impl Adc {
    /// Asks the driver how many channels it has, storing the answer in
    /// `x`. Only a value-carrying success counts as an answer; any other
    /// reply leaves `x` untouched and fails with `Fail`.
    pub fn count(kernel: &mut Kernel, x: &mut u32) -> (r: Result<(), ErrorCode>)
        requires
            old(kernel).wf(),
        ensures
            final(kernel).wf(),
            !has_driver(old(kernel)@, DRIVER_NUM) ==> r == Err::<(), ErrorCode>(ErrorCode::Fail)
                && final(kernel)@ == old(kernel)@ && *final(x) == *old(x),
    {
        match kernel.command(DRIVER_NUM, COUNT, 0, 0).get_success_u32() {
            Some(value) => {
                *x = value;
                Ok(())
            },
            None => Err(ErrorCode::Fail),
        }
    }

    /// Returns `Ok(())` when the driver reports at least one channel, and
    /// `Err(Fail)` otherwise — also when the count cannot be obtained at
    /// all.
    pub fn driver_exists(kernel: &mut Kernel) -> (r: Result<(), ErrorCode>)
        requires
            old(kernel).wf(),
        ensures
            final(kernel).wf(),
            !has_driver(old(kernel)@, DRIVER_NUM) ==> r == Err::<(), ErrorCode>(ErrorCode::Fail)
                && final(kernel)@ == old(kernel)@,
    {
        let mut check: u32 = 0;
        match Adc::count(kernel, &mut check) {
            Ok(()) => {
                if check >= 1 {
                    Ok(())
                } else {
                    Err(ErrorCode::Fail)
                }
            },
            Err(_) => Err(ErrorCode::Fail),
        }
    }
}

} // verus!
