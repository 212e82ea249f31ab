//! The deterministic fake kernel: one instance owns the driver stubs, the
//! upcall registry and the pending-upcall queue, and implements the whole
//! syscall surface (`command`, `subscribe`, `allow_readwrite` and the two
//! yield primitives).
//!
//! Dispatch routes by driver number; every syscall against an unregistered
//! number fails with `NoDevice` and never succeeds. Upcalls are enqueued in
//! FIFO order and drained one at a time, only at yield points; the yield
//! primitives are the sole points where a listener is invoked.

use vstd::prelude::*;
use crate::command_return::CommandReturn;
use crate::error_code::ErrorCode;
use crate::fake::humidity;
use crate::fake::rng;
use crate::fake::Driver;
use crate::fake::DriverInfo;
use crate::upcall::listener_last;
use crate::upcall::spec_deliver;
use crate::upcall::Listener;
use crate::upcall::ListenerV;
use crate::upcall::PendingUpcall;
use crate::upcall::UpcallRecord;
use crate::upcall::UpcallRegistry;
use crate::upcall::UpcallSlot;

verus! {

/// What `yield_no_wait` reports: whether a pending upcall was delivered.
#[derive(Clone, Copy, Debug, PartialEq, Eq, Structural)]
pub enum YieldNoWaitReturn {
    Upcall,
    NoUpcall,
}

/// The fake kernel. One instance stands for the whole simulated kernel:
/// per-slot listener state is owned here, not by process-wide globals.
pub struct Kernel {
    humidity: Option<humidity::Humidity>,
    rng: Option<rng::Rng>,
    registry: UpcallRegistry,
    queue: Vec<PendingUpcall>,
}

/// The mathematical model of the kernel: the installed stubs' states, the
/// slot-to-listener bindings, and the FIFO of pending upcalls.
#[verifier::ext_equal]
pub ghost struct KernelView {
    pub humidity: Option<humidity::HumidityV>,
    pub rng: Option<rng::RngV>,
    pub bindings: Map<UpcallSlot, ListenerV>,
    pub queue: Seq<PendingUpcall>,
}

impl View for Kernel {
    type V = KernelView;

    closed spec fn view(&self) -> KernelView {
        KernelView {
            humidity: match self.humidity {
                Some(ref h) => Some(h@),
                None => None,
            },
            rng: match self.rng {
                Some(ref r) => Some(r@),
                None => None,
            },
            bindings: self.registry@,
            queue: self.queue@,
        }
    }
}

/// Whether a driver serving `driver_num` is installed.
pub open spec fn has_driver(kv: KernelView, driver_num: u32) -> bool {
    ||| (driver_num == humidity::DRIVER_NUM && kv.humidity is Some)
    ||| (driver_num == rng::DRIVER_NUM && kv.rng is Some)
}

/// The subscription slot a driver schedules its upcalls on.
pub open spec fn driver_slot(driver_num: u32) -> UpcallSlot {
    UpcallSlot { driver_num, subscribe_num: 0 }
}

/// A queue extended by an optional upcall for `slot`.
pub open spec fn push_opt(
    q: Seq<PendingUpcall>,
    slot: UpcallSlot,
    up: Option<UpcallRecord>,
) -> Seq<PendingUpcall> {
    match up {
        Some(record) => q.push(PendingUpcall { slot, record }),
        None => q,
    }
}

/// One yield step: the front pending upcall (if any) is consumed and
/// delivered to whatever listener is bound to its slot at this moment; an
/// entry for an unbound slot is consumed and silently discarded.
pub open spec fn spec_deliver_next(kv: KernelView) -> KernelView {
    if kv.queue.len() == 0 {
        kv
    } else {
        KernelView {
            bindings: spec_deliver(kv.bindings, kv.queue.first().slot, kv.queue.first().record),
            queue: kv.queue.drop_first(),
            ..kv
        }
    }
}

/// The binding a slot currently holds, if any.
pub open spec fn binding_of(kv: KernelView, slot: UpcallSlot) -> Option<ListenerV> {
    if kv.bindings.contains_key(slot) {
        Some(kv.bindings[slot])
    } else {
        None
    }
}

/// The most recent payload delivered to the listener bound to `slot`.
pub open spec fn spec_peek_upcall(kv: KernelView, slot: UpcallSlot) -> Option<UpcallRecord> {
    if kv.bindings.contains_key(slot) {
        listener_last(kv.bindings[slot])
    } else {
        None
    }
}

impl Kernel {
    /// Well-formed: the registry binds each slot at most once and any
    /// installed random number generator stub is internally consistent.
    pub closed spec fn wf(&self) -> bool {
        &&& self.registry.wf()
        &&& (match self@.rng {
            Some(r) => rng::rng_wf(r),
            None => true,
        })
    }

    /// A fresh kernel: no drivers, no bindings, nothing pending.
    pub fn new() -> (k: Kernel)
        ensures
            k.wf(),
            k@ == (KernelView {
                humidity: None,
                rng: None,
                bindings: Map::<UpcallSlot, ListenerV>::empty(),
                queue: Seq::<PendingUpcall>::empty(),
            }),
    {
        Kernel {
            humidity: None,
            rng: None,
            registry: UpcallRegistry::new(),
            queue: Vec::new(),
        }
    }

    /// Installs a driver stub under its own driver number. At most one stub
    /// per number may ever be installed.
    pub fn add_driver(&mut self, driver: Driver)
        requires
            old(self).wf(),
            (match driver {
                Driver::Humidity(_) => old(self)@.humidity is None,
                Driver::Rng(r) => old(self)@.rng is None && rng::rng_wf(r@),
            }),
        ensures
            final(self).wf(),
            final(self)@ == (match driver {
                Driver::Humidity(h) => KernelView { humidity: Some(h@), ..old(self)@ },
                Driver::Rng(r) => KernelView { rng: Some(r@), ..old(self)@ },
            }),
    {
        match driver {
            Driver::Humidity(h) => {
                self.humidity = Some(h);
            },
            Driver::Rng(r) => {
                self.rng = Some(r);
            },
        }
    }

    /// What each installed driver reports about itself; `None` when no
    /// driver serves the number.
    pub fn driver_info(&self, driver_num: u32) -> (r: Option<DriverInfo>)
        ensures
            r is Some <==> has_driver(self@, driver_num),
            (match r {
                Some(info) => info.driver_num == driver_num && info.upcall_count == 1,
                None => true,
            }),
    {
        if driver_num == humidity::DRIVER_NUM {
            match self.humidity {
                Some(ref h) => Some(h.info()),
                None => None,
            }
        } else if driver_num == rng::DRIVER_NUM {
            match self.rng {
                Some(ref r) => Some(r.info()),
                None => None,
            }
        } else {
            None
        }
    }

    /// The `command` syscall: routed to the driver stub serving
    /// `driver_num`; an unregistered number fails every command with
    /// `NoDevice`. An upcall the command produces is enqueued, not
    /// delivered: delivery happens only at yield points.
    pub fn command(&mut self, driver_num: u32, command_id: u32, argument0: u32, argument1: u32) -> (r:
        CommandReturn)
        requires
            old(self).wf(),
        ensures
            final(self).wf(),
            !has_driver(old(self)@, driver_num) ==> r == CommandReturn::Failure(ErrorCode::NoDevice)
                && final(self)@ == old(self)@,
            (driver_num == humidity::DRIVER_NUM && old(self)@.humidity is Some) ==> ({
                let t = humidity::spec_command(old(self)@.humidity->Some_0, command_id);
                r == t.1 && final(self)@ == (KernelView {
                    humidity: Some(t.0),
                    queue: push_opt(old(self)@.queue, driver_slot(driver_num), t.2),
                    ..old(self)@
                })
            }),
            (driver_num == rng::DRIVER_NUM && old(self)@.rng is Some) ==> ({
                let t = rng::spec_command(old(self)@.rng->Some_0, command_id, argument0);
                r == t.1 && final(self)@ == (KernelView {
                    rng: Some(t.0),
                    queue: push_opt(old(self)@.queue, driver_slot(driver_num), t.2),
                    ..old(self)@
                })
            }),
    {
        if driver_num == humidity::DRIVER_NUM {
            let mut stub: Option<humidity::Humidity> = None;
            core::mem::swap(&mut stub, &mut self.humidity);
            match stub {
                Some(mut h) => {
                    let (ret, up) = h.command(command_id, argument0, argument1);
                    self.humidity = Some(h);
                    if let Some(record) = up {
                        self.queue.push(PendingUpcall {
                            slot: UpcallSlot { driver_num, subscribe_num: 0 },
                            record,
                        });
                    }
                    ret
                },
                None => CommandReturn::Failure(ErrorCode::NoDevice),
            }
        } else if driver_num == rng::DRIVER_NUM {
            let mut stub: Option<rng::Rng> = None;
            core::mem::swap(&mut stub, &mut self.rng);
            match stub {
                Some(mut rs) => {
                    let (ret, up) = rs.command(command_id, argument0, argument1);
                    self.rng = Some(rs);
                    if let Some(record) = up {
                        self.queue.push(PendingUpcall {
                            slot: UpcallSlot { driver_num, subscribe_num: 0 },
                            record,
                        });
                    }
                    ret
                },
                None => CommandReturn::Failure(ErrorCode::NoDevice),
            }
        } else {
            CommandReturn::Failure(ErrorCode::NoDevice)
        }
    }

    /// The `subscribe` syscall: binds `listener` to the slot, returning the
    /// listener bound there before, if any. Fails with `NoDevice` when no
    /// driver serves the number and with `Invalid` when the driver exposes
    /// no such subscription slot; on failure nothing changes.
    pub fn subscribe(&mut self, driver_num: u32, subscribe_num: u32, listener: Listener) -> (r:
        Result<Option<Listener>, ErrorCode>)
        requires
            old(self).wf(),
        ensures
            final(self).wf(),
            !has_driver(old(self)@, driver_num) ==> r == Err::<Option<Listener>, ErrorCode>(
                ErrorCode::NoDevice,
            ) && final(self)@ == old(self)@,
            (has_driver(old(self)@, driver_num) && subscribe_num >= 1) ==> r == Err::<
                Option<Listener>,
                ErrorCode,
            >(ErrorCode::Invalid) && final(self)@ == old(self)@,
            (has_driver(old(self)@, driver_num) && subscribe_num == 0) ==> ({
                let slot = UpcallSlot { driver_num, subscribe_num };
                &&& final(self)@ == (KernelView {
                    bindings: old(self)@.bindings.insert(slot, listener@),
                    ..old(self)@
                })
                &&& r is Ok
                &&& (match r->Ok_0 {
                    Some(prior) => old(self)@.bindings.contains_key(slot) && prior@ == old(
                        self,
                    )@.bindings[slot],
                    None => !old(self)@.bindings.contains_key(slot),
                })
            }),
    {
        match self.driver_info(driver_num) {
            None => Err(ErrorCode::NoDevice),
            Some(info) => {
                if subscribe_num >= info.upcall_count {
                    Err(ErrorCode::Invalid)
                } else {
                    let prior = self.registry.register(
                        UpcallSlot { driver_num, subscribe_num },
                        listener,
                    );
                    Ok(prior)
                }
            },
        }
    }

    /// The `unsubscribe` syscall: clears the slot's binding and returns the
    /// listener that was bound, if any. Clearing an unbound slot is a no-op.
    pub fn unsubscribe(&mut self, driver_num: u32, subscribe_num: u32) -> (prior: Option<Listener>)
        requires
            old(self).wf(),
        ensures
            final(self).wf(),
            final(self)@ == (KernelView {
                bindings: old(self)@.bindings.remove(
                    UpcallSlot { driver_num, subscribe_num },
                ),
                ..old(self)@
            }),
            (match prior {
                Some(l) => old(self)@.bindings.contains_key(
                    UpcallSlot { driver_num, subscribe_num },
                ) && l@ == old(self)@.bindings[UpcallSlot { driver_num, subscribe_num }],
                None => !old(self)@.bindings.contains_key(
                    UpcallSlot { driver_num, subscribe_num },
                ),
            }),
    {
        self.registry.unregister(UpcallSlot { driver_num, subscribe_num })
    }

    /// The `allow_readwrite` syscall: lends a buffer to the driver, which
    /// returns the buffer it held before — ownership transfer, never
    /// aliasing. On failure the offered buffer comes straight back with the
    /// error; an unregistered number fails with `NoDevice`, and a driver
    /// without read-write buffers fails with `NoSupport`.
    pub fn allow_readwrite(&mut self, driver_num: u32, buffer_num: u32, buffer: Vec<u8>) -> (r:
        Result<Vec<u8>, (Vec<u8>, ErrorCode)>)
        requires
            old(self).wf(),
        ensures
            final(self).wf(),
            !has_driver(old(self)@, driver_num) ==> final(self)@ == old(self)@ && (match r {
                Err((back, e)) => back@ == buffer@ && e == ErrorCode::NoDevice,
                Ok(_) => false,
            }),
            (driver_num == humidity::DRIVER_NUM && old(self)@.humidity is Some) ==> final(self)@
                == old(self)@ && (match r {
                Err((back, e)) => back@ == buffer@ && e == ErrorCode::NoSupport,
                Ok(_) => false,
            }),
            (driver_num == rng::DRIVER_NUM && old(self)@.rng is Some) ==> ({
                let t = rng::spec_allow_readwrite(old(self)@.rng->Some_0, buffer_num, buffer@);
                &&& final(self)@ == (KernelView { rng: Some(t.0), ..old(self)@ })
                &&& (match r {
                    Ok(prev) => t.1 == Ok::<Seq<u8>, (Seq<u8>, ErrorCode)>(prev@),
                    Err((back, e)) => t.1 == Err::<Seq<u8>, (Seq<u8>, ErrorCode)>((back@, e)),
                })
            }),
    {
        if driver_num == humidity::DRIVER_NUM {
            match self.humidity {
                Some(_) => Err((buffer, ErrorCode::NoSupport)),
                None => Err((buffer, ErrorCode::NoDevice)),
            }
        } else if driver_num == rng::DRIVER_NUM {
            let mut stub: Option<rng::Rng> = None;
            core::mem::swap(&mut stub, &mut self.rng);
            match stub {
                Some(mut rs) => {
                    let out = rs.allow_readwrite(buffer_num, buffer);
                    self.rng = Some(rs);
                    out
                },
                None => Err((buffer, ErrorCode::NoDevice)),
            }
        } else {
            Err((buffer, ErrorCode::NoDevice))
        }
    }

    /// The non-blocking yield: delivers at most one already-pending upcall
    /// and returns immediately with a delivered / none indicator. An entry
    /// whose slot has no bound listener is consumed and discarded, and
    /// counts as none delivered.
    pub fn yield_no_wait(&mut self) -> (r: YieldNoWaitReturn)
        requires
            old(self).wf(),
        ensures
            final(self).wf(),
            final(self)@ == spec_deliver_next(old(self)@),
            r == (if old(self)@.queue.len() > 0 && old(self)@.bindings.contains_key(
                old(self)@.queue.first().slot,
            ) {
                YieldNoWaitReturn::Upcall
            } else {
                YieldNoWaitReturn::NoUpcall
            }),
    {
        if self.queue.len() == 0 {
            return YieldNoWaitReturn::NoUpcall;
        }
        let entry = self.queue.remove(0);
        proof {
            assert(old(self)@.queue.remove(0) =~= old(self)@.queue.drop_first());
        }
        let delivered = self.registry.deliver(entry.slot, entry.record);
        if delivered {
            YieldNoWaitReturn::Upcall
        } else {
            YieldNoWaitReturn::NoUpcall
        }
    }

    /// The blocking yield: the sole suspension point. It returns only once
    /// one pending upcall has been consumed, so in this deterministic
    /// single-threaded kernel it may only be called while an upcall is
    /// pending — with nothing pending the caller would block forever.
    pub fn yield_wait(&mut self)
        requires
            old(self).wf(),
            old(self)@.queue.len() > 0,
        ensures
            final(self).wf(),
            final(self)@ == spec_deliver_next(old(self)@),
    {
        let entry = self.queue.remove(0);
        proof {
            assert(old(self)@.queue.remove(0) =~= old(self)@.queue.drop_first());
        }
        let _ = self.registry.deliver(entry.slot, entry.record);
    }

    /// The most recent payload delivered to the listener bound to `slot` —
    /// the cell a blocking wrapper re-checks after each wake.
    pub fn peek_upcall(&self, slot: UpcallSlot) -> (r: Option<UpcallRecord>)
        requires
            self.wf(),
        ensures
            r == spec_peek_upcall(self@, slot),
    {
        self.registry.last_for(slot)
    }

    /// Whether a read is outstanding on the installed humidity stub.
    pub fn humidity_is_busy(&self) -> (r: bool)
        requires
            self@.humidity is Some,
        ensures
            r == self@.humidity->Some_0.busy,
    {
        match self.humidity {
            Some(ref h) => h.is_busy(),
            None => false,
        }
    }

    /// Test stimulus: answers the humidity stub's outstanding read with
    /// `value`, enqueuing its completion upcall. Ignored when no read is
    /// outstanding or no humidity stub is installed.
    pub fn humidity_set_value(&mut self, value: i32)
        requires
            old(self).wf(),
        ensures
            final(self).wf(),
            old(self)@.humidity is None ==> final(self)@ == old(self)@,
            old(self)@.humidity is Some ==> ({
                let t = humidity::spec_set_value(old(self)@.humidity->Some_0, value);
                final(self)@ == (KernelView {
                    humidity: Some(t.0),
                    queue: push_opt(
                        old(self)@.queue,
                        driver_slot(humidity::DRIVER_NUM),
                        t.1,
                    ),
                    ..old(self)@
                })
            }),
    {
        let mut stub: Option<humidity::Humidity> = None;
        core::mem::swap(&mut stub, &mut self.humidity);
        match stub {
            Some(mut h) => {
                let up = h.set_value(value);
                self.humidity = Some(h);
                if let Some(record) = up {
                    self.queue.push(PendingUpcall {
                        slot: UpcallSlot { driver_num: humidity::DRIVER_NUM, subscribe_num: 0 },
                        record,
                    });
                }
            },
            None => {},
        }
    }

    /// Test stimulus: pre-seeds the humidity stub so that the next read
    /// command answers immediately. Ignored when no stub is installed.
    pub fn humidity_set_value_sync(&mut self, value: i32)
        requires
            old(self).wf(),
        ensures
            final(self).wf(),
            old(self)@.humidity is None ==> final(self)@ == old(self)@,
            old(self)@.humidity is Some ==> final(self)@ == (KernelView {
                humidity: Some(
                    humidity::HumidityV {
                        busy: old(self)@.humidity->Some_0.busy,
                        upcall_on_command: Some(value),
                    },
                ),
                ..old(self)@
            }),
    {
        match &mut self.humidity {
            Some(h) => {
                h.set_value_sync(value);
            },
            None => {},
        }
    }

    /// Test stimulus: feeds entropy to the random number generator stub's
    /// outstanding request, enqueuing the completion upcall once the
    /// request is fully served. Ignored when no stub is installed.
    pub fn rng_add_bytes(&mut self, buf: &Vec<u8>)
        requires
            old(self).wf(),
        ensures
            final(self).wf(),
            old(self)@.rng is None ==> final(self)@ == old(self)@,
            old(self)@.rng is Some ==> ({
                let t = rng::spec_add_bytes(old(self)@.rng->Some_0, buf@);
                final(self)@ == (KernelView {
                    rng: Some(t.0),
                    queue: push_opt(old(self)@.queue, driver_slot(rng::DRIVER_NUM), t.1),
                    ..old(self)@
                })
            }),
    {
        let mut stub: Option<rng::Rng> = None;
        core::mem::swap(&mut stub, &mut self.rng);
        match stub {
            Some(mut rs) => {
                let up = rs.add_bytes(buf);
                self.rng = Some(rs);
                if let Some(record) = up {
                    self.queue.push(PendingUpcall {
                        slot: UpcallSlot { driver_num: rng::DRIVER_NUM, subscribe_num: 0 },
                        record,
                    });
                }
            },
            None => {},
        }
    }

    /// Test stimulus: pre-seeds entropy so that the next request command
    /// completes immediately. Ignored when no stub is installed.
    pub fn rng_add_bytes_sync(&mut self, buf: &Vec<u8>)
        requires
            old(self).wf(),
        ensures
            final(self).wf(),
            old(self)@.rng is None ==> final(self)@ == old(self)@,
            old(self)@.rng is Some ==> final(self)@ == (KernelView {
                rng: Some(
                    rng::RngV { random_numbers: Some(buf@), ..old(self)@.rng->Some_0 },
                ),
                ..old(self)@
            }),
    {
        let mut stub: Option<rng::Rng> = None;
        core::mem::swap(&mut stub, &mut self.rng);
        match stub {
            Some(mut rs) => {
                rs.add_bytes_sync(buf);
                self.rng = Some(rs);
            },
            None => {},
        }
    }
}

/// Law: upcalls for one slot are delivered in enqueue order. With two
/// payloads queued on one bound slot, front first, two yield steps extend
/// the bound listener's history by exactly those payloads, first one first.
pub proof fn lemma_yield_fifo(kv: KernelView, slot: UpcallSlot)
    requires
        kv.queue.len() == 2,
        kv.queue[0].slot == slot,
        kv.queue[1].slot == slot,
        kv.bindings.contains_key(slot),
    ensures
        ({
            let kv2 = spec_deliver_next(spec_deliver_next(kv));
            &&& kv2.queue.len() == 0
            &&& kv2.bindings.contains_key(slot)
            &&& kv2.bindings[slot].id == kv.bindings[slot].id
            &&& kv2.bindings[slot].received =~= kv.bindings[slot].received.push(
                kv.queue[0].record,
            ).push(kv.queue[1].record)
        }),
{
    let kv1 = spec_deliver_next(kv);
    assert(kv.queue.first() == kv.queue[0]);
    assert(kv1.queue.len() == 1);
    assert(kv1.queue.first() == kv.queue[1]);
    let kv2 = spec_deliver_next(kv1);
    assert(kv2.queue =~= Seq::<PendingUpcall>::empty());
}

} // verus!
