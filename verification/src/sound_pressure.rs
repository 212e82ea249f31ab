//! The sound pressure sensor driver client.
//!
//! A thin consumer of the syscall surface. The deterministic kernel
//! installs no stub under this driver number, so a reading can never be
//! produced; notably, the blocking read collapses its setup failure into
//! the generic `Busy` rather than propagating the underlying error kind —
//! an observable quirk of this client.

use vstd::prelude::*;
use crate::error_code::ErrorCode;
use crate::fake::kernel::binding_of;
use crate::fake::kernel::driver_slot;
use crate::fake::kernel::has_driver;
use crate::fake::kernel::Kernel;
use crate::fake::kernel::KernelView;
use crate::scope::GrantV;
use crate::scope::Scope;
use crate::upcall::Listener;

verus! {

/// The sound pressure driver number.
pub const DRIVER_NUM: u32 = 0x60006;

/// Command id: existence check.
pub const EXISTS: u32 = 0;

/// Command id: initiate a sound pressure measurement.
pub const READ_PRESSURE: u32 = 1;

/// A one-shot cell to be registered and filled when a sound pressure
/// reading is done: each upcall overwrites it with the reading carried in
/// the payload's first word, reinterpreted as signed.
#[derive(Debug, PartialEq, Eq)]
pub struct SoundPressureListener {
    pub reading: Option<i32>,
}

impl SoundPressureListener {
    /// Receives a delivered payload: the first word is the reading; the
    /// other two are unused.
    pub fn upcall(&mut self, pressure_val: u32, _arg1: u32, _arg2: u32)
        ensures
            final(self).reading == Some(pressure_val as i32),
    {
        self.reading = Some(pressure_val as i32);
    }
}

/// The sound pressure driver client.
pub struct SoundPressure;

impl SoundPressure {
    /// Returns `Ok(())` if the driver is present. This does not
    /// necessarily mean that the driver is working.
    pub fn driver_exists(kernel: &mut Kernel) -> (r: Result<(), ErrorCode>)
        requires
            old(kernel).wf(),
        ensures
            final(kernel).wf(),
            !has_driver(old(kernel)@, DRIVER_NUM) ==> r == Err::<(), ErrorCode>(
                ErrorCode::NoDevice,
            ) && final(kernel)@ == old(kernel)@,
    {
        kernel.command(DRIVER_NUM, EXISTS, 0, 0).to_result()
    }

    /// Initiates a sound pressure measurement.
    ///
    /// This function is used both for synchronous and asynchronous
    /// readings.
    pub fn read_sound_pressure(kernel: &mut Kernel) -> (r: Result<(), ErrorCode>)
        requires
            old(kernel).wf(),
        ensures
            final(kernel).wf(),
            !has_driver(old(kernel)@, DRIVER_NUM) ==> r == Err::<(), ErrorCode>(
                ErrorCode::NoDevice,
            ) && final(kernel)@ == old(kernel)@,
    {
        kernel.command(DRIVER_NUM, READ_PRESSURE, 0, 0).to_result()
    }

    /// Registers an events listener on the driver's subscription slot,
    /// recording the grant in `scope`.
    pub fn register_listener(kernel: &mut Kernel, scope: &mut Scope, listener: Listener) -> (r:
        Result<(), ErrorCode>)
        requires
            old(kernel).wf(),
        ensures
            final(kernel).wf(),
            r is Ok <==> has_driver(old(kernel)@, DRIVER_NUM),
            r is Err ==> r == Err::<(), ErrorCode>(ErrorCode::NoDevice) && final(kernel)@ == old(
                kernel,
            )@ && final(scope)@ == old(scope)@,
            r is Ok ==> final(kernel)@ == (KernelView {
                bindings: old(kernel)@.bindings.insert(driver_slot(DRIVER_NUM), listener@),
                ..old(kernel)@
            }) && final(scope)@ == old(scope)@.push(
                GrantV::Subscription {
                    slot: driver_slot(DRIVER_NUM),
                    prior: binding_of(old(kernel)@, driver_slot(DRIVER_NUM)),
                },
            ),
    {
        scope.subscribe(kernel, DRIVER_NUM, 0, listener)
    }

    /// Unregisters the events listener: the slot's binding is cleared
    /// directly, outside any scope.
    pub fn unregister_listener(kernel: &mut Kernel)
        requires
            old(kernel).wf(),
        ensures
            final(kernel).wf(),
            final(kernel)@ == (KernelView {
                bindings: old(kernel)@.bindings.remove(driver_slot(DRIVER_NUM)),
                ..old(kernel)@
            }),
    {
        let _ = kernel.unsubscribe(DRIVER_NUM, 0);
    }

    /// Initiates a synchronous sound pressure measurement. A setup failure
    /// does not propagate its own error kind: the empty result cell after
    /// the scope unwinds is reported as `Err(Busy)`, with the kernel left
    /// unchanged.
    pub fn read_sound_pressure_sync(kernel: &mut Kernel) -> (r: Result<i32, ErrorCode>)
        requires
            old(kernel).wf(),
        ensures
            final(kernel).wf(),
            !has_driver(old(kernel)@, DRIVER_NUM) ==> r == Err::<i32, ErrorCode>(ErrorCode::Busy)
                && final(kernel)@ == old(kernel)@,
    {
        let ghost kv0 = old(kernel)@;
        let mut scope = Scope::new();
        match scope.subscribe(kernel, DRIVER_NUM, 0, Listener::new(0)) {
            Err(_e) => {},
            Ok(()) => {
                // No stub serves the sound pressure number in this kernel,
                // so a successful subscription cannot occur: the read
                // command and the wait loop that would follow are
                // unreachable.
                proof {
                    assert(false);
                }
            },
        }
        let _ = scope.exit(kernel);
        proof {
            assert(kernel@ =~~= kv0);
        }
        Err(ErrorCode::Busy)
    }
}

} // verus!
