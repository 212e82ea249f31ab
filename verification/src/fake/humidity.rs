//! Fake implementation of a humidity sensor driver.
//!
//! The stub controls a simulated sensor. While a read is outstanding it is
//! busy; `set_value` answers an outstanding read immediately, and
//! `set_value_sync` pre-seeds a value so that the answer is produced inside
//! the read command itself — the immediate delivery mode a test uses to
//! exercise a blocking wrapper that could otherwise never be woken.

use vstd::prelude::*;
use crate::command_return::CommandReturn;
use crate::error_code::ErrorCode;
use crate::fake::DriverInfo;
use crate::upcall::UpcallRecord;

verus! {

/// The driver number the humidity stub serves.
pub const DRIVER_NUM: u32 = 0x60001;

/// Command id: existence check.
pub const EXISTS: u32 = 0;

/// Command id: start a humidity read.
pub const READ_HUM: u32 = 1;

/// The fake humidity driver's state: a busy flag for the outstanding read,
/// and an optional pre-seeded value answered inside the read command.
pub struct Humidity {
    busy: bool,
    upcall_on_command: Option<i32>,
}

/// The mathematical model of the humidity stub's state.
#[verifier::ext_equal]
pub ghost struct HumidityV {
    pub busy: bool,
    pub upcall_on_command: Option<i32>,
}

impl View for Humidity {
    type V = HumidityV;

    closed spec fn view(&self) -> HumidityV {
        HumidityV { busy: self.busy, upcall_on_command: self.upcall_on_command }
    }
}

/// What answering an outstanding read does: if a read is outstanding, the
/// busy flag clears and an upcall carrying the value is produced; otherwise
/// the stimulus is ignored.
pub open spec fn spec_set_value(h: HumidityV, value: i32) -> (HumidityV, Option<UpcallRecord>) {
    if h.busy {
        (
            HumidityV { busy: false, upcall_on_command: h.upcall_on_command },
            Some(UpcallRecord { arg0: value as u32, arg1: 0, arg2: 0 }),
        )
    } else {
        (h, None)
    }
}

/// What a command does to the humidity stub. The existence check always
/// succeeds and changes nothing. A read fails with `Busy` while one is
/// outstanding; otherwise it succeeds, marks the stub busy and, when a value
/// was pre-seeded, immediately answers with it. Any other command id fails
/// with `NoSupport`.
pub open spec fn spec_command(h: HumidityV, command_id: u32) -> (
    HumidityV,
    CommandReturn,
    Option<UpcallRecord>,
) {
    if command_id == EXISTS {
        (h, CommandReturn::Success, None)
    } else if command_id == READ_HUM {
        if h.busy {
            (h, CommandReturn::Failure(ErrorCode::Busy), None)
        } else {
            match h.upcall_on_command {
                Some(v) => {
                    let busy = HumidityV { busy: true, upcall_on_command: None };
                    let (after, up) = spec_set_value(busy, v);
                    (after, CommandReturn::Success, up)
                },
                None => (
                    HumidityV { busy: true, upcall_on_command: None },
                    CommandReturn::Success,
                    None,
                ),
            }
        }
    } else {
        (h, CommandReturn::Failure(ErrorCode::NoSupport), None)
    }
}

impl Humidity {
    /// A fresh stub: idle, with no pre-seeded value.
    pub fn new() -> (h: Humidity)
        ensures
            h@ == (HumidityV { busy: false, upcall_on_command: None }),
    {
        Humidity { busy: false, upcall_on_command: None }
    }

    /// Whether a read is outstanding.
    pub fn is_busy(&self) -> (r: bool)
        ensures
            r == self@.busy,
    {
        self.busy
    }

    /// Answers an outstanding read with `value`, producing the upcall to
    /// enqueue; ignored when no read is outstanding.
    pub fn set_value(&mut self, value: i32) -> (up: Option<UpcallRecord>)
        ensures
            final(self)@ == spec_set_value(old(self)@, value).0,
            up == spec_set_value(old(self)@, value).1,
    {
        if self.busy {
            self.busy = false;
            Some(UpcallRecord { arg0: value as u32, arg1: 0, arg2: 0 })
        } else {
            None
        }
    }

    /// Pre-seeds `value`: the next read command answers with it immediately.
    pub fn set_value_sync(&mut self, value: i32)
        ensures
            final(self)@ == (HumidityV { busy: old(self)@.busy, upcall_on_command: Some(value) }),
    {
        self.upcall_on_command = Some(value);
    }

    /// The stub serves the humidity driver number with one subscription slot.
    pub fn info(&self) -> (r: DriverInfo)
        ensures
            r == (DriverInfo { driver_num: DRIVER_NUM, upcall_count: 1 }),
    {
        DriverInfo { driver_num: DRIVER_NUM, upcall_count: 1 }
    }

    /// Handles a command, returning the syscall result and the upcall to
    /// enqueue, if the command produced one. The two argument words are
    /// ignored by this driver.
    pub fn command(&mut self, command_id: u32, _argument0: u32, _argument1: u32) -> (r: (
        CommandReturn,
        Option<UpcallRecord>,
    ))
        ensures
            final(self)@ == spec_command(old(self)@, command_id).0,
            r.0 == spec_command(old(self)@, command_id).1,
            r.1 == spec_command(old(self)@, command_id).2,
    {
        if command_id == EXISTS {
            (CommandReturn::Success, None)
        } else if command_id == READ_HUM {
            if self.busy {
                return (CommandReturn::Failure(ErrorCode::Busy), None);
            }
            self.busy = true;
            match self.upcall_on_command {
                Some(v) => {
                    self.upcall_on_command = None;
                    let up = self.set_value(v);
                    (CommandReturn::Success, up)
                },
                None => (CommandReturn::Success, None),
            }
        } else {
            (CommandReturn::Failure(ErrorCode::NoSupport), None)
        }
    }
}

} // verus!
