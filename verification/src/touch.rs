//! The touch panel driver client.
//!
//! A thin consumer of the syscall surface, plus the decoding of the
//! packed 3-word touch payload into a typed event. The deterministic
//! kernel installs no stub under this driver number, so enabling the
//! panel fails with `NoDevice` and the wait for a touch never starts.

use vstd::prelude::*;
use crate::error_code::ErrorCode;
use crate::fake::kernel::has_driver;
use crate::fake::kernel::Kernel;
use crate::scope::Scope;
use crate::upcall::Listener;

verus! {

/// The touch driver number.
pub const DRIVER_NUM: u32 = 589826;

/// Command id: existence check.
pub const DRIVER_CHECK: u32 = 0;

/// Command id: enable single-touch events.
pub const ENABLE_SINGLE: u32 = 1;

/// Command id: disable single-touch events.
pub const DISABLE_SINGLE: u32 = 2;

/// Subscription slot: single-touch events.
pub const SINGLE: u32 = 0;

/// What a touch event reports about the contact.
#[derive(Clone, Copy, Debug, PartialEq, Eq)]
pub enum TouchStatus {
    Unstarted,
    Pressed,
    Released,
    Moved,
}

impl TouchStatus {
    /// Decodes the status word of a touch payload; unknown codes map to
    /// `Unstarted`.
    pub fn from_u32(value: u32) -> (r: TouchStatus)
        ensures
            r == (match value {
                0u32 => TouchStatus::Released,
                1u32 => TouchStatus::Pressed,
                2u32 => TouchStatus::Moved,
                _ => TouchStatus::Unstarted,
            }),
    {
        match value {
            0 => TouchStatus::Released,
            1 => TouchStatus::Pressed,
            2 => TouchStatus::Moved,
            _ => TouchStatus::Unstarted,
        }
    }
}

/// One touch event, decoded from the packed 3-word payload.
#[derive(Clone, Copy, Debug, PartialEq, Eq)]
pub struct TouchEvent {
    /// Touch event type.
    pub status: TouchStatus,
    /// Touch (x, y) position.
    pub x: u16,
    pub y: u16,
    /// A scaled value for the size of the touch, if the touchscreen offers
    /// that information, or `None` otherwise. A larger value corresponds
    /// to a "fatter" touch.
    pub area: Option<u16>,
    /// A scaled value for the pressure of the touch, if the touchscreen
    /// offers that information, or `None` otherwise. A larger value
    /// corresponds to a "firmer" press.
    pub pressure: Option<u16>,
}

impl TouchEvent {
    /// Decodes the packed payload words of a single-touch upcall: the
    /// first word carries the status, the second packs x in its upper and
    /// y in its lower half, and the third packs pressure in its upper and
    /// area in its lower half, each zero when the panel does not report
    /// it.
    pub fn from_payload(arg0: u32, arg1: u32, arg2: u32) -> (r: TouchEvent)
        ensures
            r.status == (match arg0 {
                0u32 => TouchStatus::Released,
                1u32 => TouchStatus::Pressed,
                2u32 => TouchStatus::Moved,
                _ => TouchStatus::Unstarted,
            }),
            r.x == (arg1 >> 16) as u16,
            r.y == arg1 as u16,
            r.area == (if arg2 as u16 == 0 {
                None::<u16>
            } else {
                Some(arg2 as u16)
            }),
            r.pressure == (if (arg2 >> 16) as u16 == 0 {
                None::<u16>
            } else {
                Some((arg2 >> 16) as u16)
            }),
    {
        TouchEvent {
            status: TouchStatus::from_u32(arg0),
            x: (arg1 >> 16) as u16,
            y: arg1 as u16,
            area: match arg2 as u16 {
                0 => None,
                val => Some(val),
            },
            pressure: match (arg2 >> 16) as u16 {
                0 => None,
                val => Some(val),
            },
        }
    }
}

/// A recognized gesture.
#[derive(Clone, Copy, Debug, PartialEq, Eq)]
pub enum GestureEvent {
    SwipeUp,
    SwipeDown,
    SwipeLeft,
    SwipeRight,
    ZoomIn,
    ZoomOut,
}

/// The touch driver client.
pub struct Touch;

impl Touch {
    /// Returns `Ok(())` if the driver is present.
    pub fn driver_exists(kernel: &mut Kernel) -> (r: Result<(), ErrorCode>)
        requires
            old(kernel).wf(),
        ensures
            final(kernel).wf(),
            !has_driver(old(kernel)@, DRIVER_NUM) ==> r == Err::<(), ErrorCode>(
                ErrorCode::NoDevice,
            ) && final(kernel)@ == old(kernel)@,
    {
        kernel.command(DRIVER_NUM, DRIVER_CHECK, 0, 0).to_result()
    }

    /// Enables single-touch events.
    pub fn enable_single_touch(kernel: &mut Kernel) -> (r: Result<(), ErrorCode>)
        requires
            old(kernel).wf(),
        ensures
            final(kernel).wf(),
            !has_driver(old(kernel)@, DRIVER_NUM) ==> r == Err::<(), ErrorCode>(
                ErrorCode::NoDevice,
            ) && final(kernel)@ == old(kernel)@,
    {
        kernel.command(DRIVER_NUM, ENABLE_SINGLE, 0, 0).to_result()
    }

    /// Disables single-touch events.
    pub fn disable_single_touch(kernel: &mut Kernel) -> (r: Result<(), ErrorCode>)
        requires
            old(kernel).wf(),
        ensures
            final(kernel).wf(),
            !has_driver(old(kernel)@, DRIVER_NUM) ==> r == Err::<(), ErrorCode>(
                ErrorCode::NoDevice,
            ) && final(kernel)@ == old(kernel)@,
    {
        kernel.command(DRIVER_NUM, DISABLE_SINGLE, 0, 0).to_result()
    }

    /// Registers a listener for single-touch events, recording the grant
    /// in `scope`.
    pub fn register_single_touch_listener(
        kernel: &mut Kernel,
        scope: &mut Scope,
        listener: Listener,
    ) -> (r: Result<(), ErrorCode>)
        requires
            old(kernel).wf(),
        ensures
            final(kernel).wf(),
            r is Ok <==> has_driver(old(kernel)@, DRIVER_NUM),
            r is Err ==> r == Err::<(), ErrorCode>(ErrorCode::NoDevice) && final(kernel)@ == old(
                kernel,
            )@ && final(scope)@ == old(scope)@,
            r is Ok ==> final(kernel)@ == (crate::fake::kernel::KernelView {
                bindings: old(kernel)@.bindings.insert(
                    crate::fake::kernel::driver_slot(DRIVER_NUM),
                    listener@,
                ),
                ..old(kernel)@
            }) && final(scope)@ == old(scope)@.push(
                crate::scope::GrantV::Subscription {
                    slot: crate::fake::kernel::driver_slot(DRIVER_NUM),
                    prior: crate::fake::kernel::binding_of(
                        old(kernel)@,
                        crate::fake::kernel::driver_slot(DRIVER_NUM),
                    ),
                },
            ),
    {
        scope.subscribe(kernel, DRIVER_NUM, SINGLE, listener)
    }

    /// Waits for a single touch event, returning details about it in a
    /// [`TouchEvent`]. Enabling the panel comes first; its failure —
    /// always `NoDevice`, under a kernel with no touch stub — propagates
    /// before anything is granted, leaving the kernel unchanged.
    pub fn wait_for_single_touch(kernel: &mut Kernel) -> (r: Result<TouchEvent, ErrorCode>)
        requires
            old(kernel).wf(),
        ensures
            final(kernel).wf(),
            !has_driver(old(kernel)@, DRIVER_NUM) ==> r == Err::<TouchEvent, ErrorCode>(
                ErrorCode::NoDevice,
            ) && final(kernel)@ == old(kernel)@,
    {
        match Touch::enable_single_touch(kernel) {
            Err(e) => {
                return Err(e);
            },
            Ok(()) => {},
        }
        // No stub serves the touch number in this kernel, so enabling can
        // never succeed: the subscription scope, the wait loop and the
        // payload decoding that would follow are unreachable.
        proof {
            assert(false);
        }
        Err(ErrorCode::Fail)
    }
}

} // verus!
