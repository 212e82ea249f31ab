//! The text screen driver client.
//!
//! A thin consumer of the syscall surface: every display control is one
//! command with a fixed id. The deterministic kernel installs no stub
//! under this driver number, so each control fails with `NoDevice` and the
//! blocking resolution query never gets past registering its listener.

use vstd::prelude::*;
use crate::error_code::ErrorCode;
use crate::fake::kernel::has_driver;
use crate::fake::kernel::Kernel;
use crate::scope::Scope;
use crate::upcall::Listener;

verus! {

/// The text screen driver number.
pub const DRIVER_NUM: u32 = 0x90003;

/// Command id: existence check.
pub const EXISTS: u32 = 0;

/// Command id: query the resolution (answered through an upcall).
pub const GET_RESOLUTION: u32 = 1;

/// Command id: turn the display on.
pub const DISPLAY: u32 = 2;

/// Command id: turn the display off.
pub const NO_DISPLAY: u32 = 3;

/// Command id: blink the display.
pub const BLINK: u32 = 4;

/// Command id: stop blinking.
pub const NO_BLINK: u32 = 5;

/// Command id: show the cursor.
pub const SHOW_CURSOR: u32 = 6;

/// Command id: hide the cursor.
pub const NO_CURSOR: u32 = 7;

/// Command id: clear the display.
pub const CLEAR: u32 = 9;

/// Command id: move the cursor home.
pub const HOME: u32 = 10;

/// Command id: place the cursor.
pub const SET_CURSOR: u32 = 11;

/// The text screen driver client.
pub struct TextScreen;

impl TextScreen {
    /// Returns `Ok(())` if the driver is present.
    pub fn driver_exists(kernel: &mut Kernel) -> (r: Result<(), ErrorCode>)
        requires
            old(kernel).wf(),
        ensures
            final(kernel).wf(),
            !has_driver(old(kernel)@, DRIVER_NUM) ==> r == Err::<(), ErrorCode>(
                ErrorCode::NoDevice,
            ) && final(kernel)@ == old(kernel)@,
    {
        kernel.command(DRIVER_NUM, EXISTS, 0, 0).to_result()
    }

    /// Turns the display on.
    pub fn turn_display_on(kernel: &mut Kernel) -> (r: Result<(), ErrorCode>)
        requires
            old(kernel).wf(),
        ensures
            final(kernel).wf(),
            !has_driver(old(kernel)@, DRIVER_NUM) ==> r == Err::<(), ErrorCode>(
                ErrorCode::NoDevice,
            ) && final(kernel)@ == old(kernel)@,
    {
        kernel.command(DRIVER_NUM, DISPLAY, 0, 0).to_result()
    }

    /// Turns the display off.
    pub fn turn_display_off(kernel: &mut Kernel) -> (r: Result<(), ErrorCode>)
        requires
            old(kernel).wf(),
        ensures
            final(kernel).wf(),
            !has_driver(old(kernel)@, DRIVER_NUM) ==> r == Err::<(), ErrorCode>(
                ErrorCode::NoDevice,
            ) && final(kernel)@ == old(kernel)@,
    {
        kernel.command(DRIVER_NUM, NO_DISPLAY, 0, 0).to_result()
    }

    /// Starts blinking the display.
    pub fn blink_display(kernel: &mut Kernel) -> (r: Result<(), ErrorCode>)
        requires
            old(kernel).wf(),
        ensures
            final(kernel).wf(),
            !has_driver(old(kernel)@, DRIVER_NUM) ==> r == Err::<(), ErrorCode>(
                ErrorCode::NoDevice,
            ) && final(kernel)@ == old(kernel)@,
    {
        kernel.command(DRIVER_NUM, BLINK, 0, 0).to_result()
    }

    /// Stops blinking the display.
    pub fn no_blink_display(kernel: &mut Kernel) -> (r: Result<(), ErrorCode>)
        requires
            old(kernel).wf(),
        ensures
            final(kernel).wf(),
            !has_driver(old(kernel)@, DRIVER_NUM) ==> r == Err::<(), ErrorCode>(
                ErrorCode::NoDevice,
            ) && final(kernel)@ == old(kernel)@,
    {
        kernel.command(DRIVER_NUM, NO_BLINK, 0, 0).to_result()
    }

    /// Shows the cursor.
    pub fn show_cursor(kernel: &mut Kernel) -> (r: Result<(), ErrorCode>)
        requires
            old(kernel).wf(),
        ensures
            final(kernel).wf(),
            !has_driver(old(kernel)@, DRIVER_NUM) ==> r == Err::<(), ErrorCode>(
                ErrorCode::NoDevice,
            ) && final(kernel)@ == old(kernel)@,
    {
        kernel.command(DRIVER_NUM, SHOW_CURSOR, 0, 0).to_result()
    }

    /// Hides the cursor.
    pub fn hide_cursor(kernel: &mut Kernel) -> (r: Result<(), ErrorCode>)
        requires
            old(kernel).wf(),
        ensures
            final(kernel).wf(),
            !has_driver(old(kernel)@, DRIVER_NUM) ==> r == Err::<(), ErrorCode>(
                ErrorCode::NoDevice,
            ) && final(kernel)@ == old(kernel)@,
    {
        kernel.command(DRIVER_NUM, NO_CURSOR, 0, 0).to_result()
    }

    /// Places the cursor at column `x`, row `y`.
    pub fn set_cursor(kernel: &mut Kernel, x: u32, y: u32) -> (r: Result<(), ErrorCode>)
        requires
            old(kernel).wf(),
        ensures
            final(kernel).wf(),
            !has_driver(old(kernel)@, DRIVER_NUM) ==> r == Err::<(), ErrorCode>(
                ErrorCode::NoDevice,
            ) && final(kernel)@ == old(kernel)@,
    {
        kernel.command(DRIVER_NUM, SET_CURSOR, x, y).to_result()
    }

    /// Clears the display.
    pub fn clear_display(kernel: &mut Kernel) -> (r: Result<(), ErrorCode>)
        requires
            old(kernel).wf(),
        ensures
            final(kernel).wf(),
            !has_driver(old(kernel)@, DRIVER_NUM) ==> r == Err::<(), ErrorCode>(
                ErrorCode::NoDevice,
            ) && final(kernel)@ == old(kernel)@,
    {
        kernel.command(DRIVER_NUM, CLEAR, 0, 0).to_result()
    }

    /// Moves the cursor home.
    pub fn home(kernel: &mut Kernel) -> (r: Result<(), ErrorCode>)
        requires
            old(kernel).wf(),
        ensures
            final(kernel).wf(),
            !has_driver(old(kernel)@, DRIVER_NUM) ==> r == Err::<(), ErrorCode>(
                ErrorCode::NoDevice,
            ) && final(kernel)@ == old(kernel)@,
    {
        kernel.command(DRIVER_NUM, HOME, 0, 0).to_result()
    }

    /// Queries the screen resolution, blocking for the upcall that
    /// carries it. The subscription is granted inside a scope so that it
    /// is revoked on every exit path; when the subscription itself fails —
    /// always, under a kernel with no text screen stub — the error
    /// propagates with the kernel left unchanged.
    pub fn get_resolution(kernel: &mut Kernel) -> (r: Result<(u32, u32), ErrorCode>)
        requires
            old(kernel).wf(),
        ensures
            final(kernel).wf(),
            !has_driver(old(kernel)@, DRIVER_NUM) ==> r == Err::<(u32, u32), ErrorCode>(
                ErrorCode::NoDevice,
            ) && final(kernel)@ == old(kernel)@,
    {
        let ghost kv0 = old(kernel)@;
        let mut scope = Scope::new();
        match scope.subscribe(kernel, DRIVER_NUM, 0, Listener::new(0)) {
            Err(e) => {
                let _ = scope.exit(kernel);
                proof {
                    assert(kernel@ =~~= kv0);
                }
                return Err(e);
            },
            Ok(()) => {
                // No stub serves the text screen number in this kernel, so
                // a successful subscription cannot occur: the resolution
                // command and the wait loop that would follow are
                // unreachable.
                proof {
                    assert(false);
                }
                let _ = scope.exit(kernel);
                Err(ErrorCode::Fail)
            },
        }
    }
}

} // verus!
