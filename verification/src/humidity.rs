//! The humidity sensor driver client.
//!
//! A thin consumer of the syscall surface: it issues commands with fixed
//! numeric ids, registers listeners for the driver's one subscription slot,
//! and builds a blocking read on top of the asynchronous primitives with
//! the synchronous-over-asynchronous pattern: subscribe a one-shot listener
//! inside a scope, issue the triggering command, wait at the yield
//! primitive re-checking its own slot after every wake, and revoke the
//! subscription on every exit path.

use vstd::prelude::*;
use crate::error_code::ErrorCode;
use crate::fake::kernel::binding_of;
use crate::fake::kernel::driver_slot;
use crate::fake::kernel::has_driver;
use crate::fake::kernel::spec_peek_upcall;
use crate::fake::kernel::Kernel;
use crate::fake::kernel::KernelView;
use crate::fake::humidity::HumidityV;
use crate::scope::Scope;
use crate::upcall::no_pending_for;
use crate::upcall::spec_deliver;
use crate::upcall::spec_deliver_all;
use crate::upcall::Listener;
use crate::upcall::ListenerV;
use crate::upcall::PendingUpcall;
use crate::upcall::UpcallRecord;
use crate::upcall::UpcallSlot;

verus! {

/// The humidity driver number.
pub const DRIVER_NUM: u32 = 0x60001;

/// Command id: existence check.
pub const EXISTS: u32 = 0;

/// Command id: initiate a humidity measurement.
pub const READ_HUM: u32 = 1;

/// A one-shot cell to be registered and filled when a humidity reading is
/// done: each upcall overwrites it with the reading carried in the
/// payload's first word.
#[derive(Debug, PartialEq, Eq)]
pub struct HumidityListener {
    pub humidity: Option<u32>,
}

impl HumidityListener {
    /// Receives a delivered payload: the first word is the reading in
    /// hundredths of a percent; the other two are unused.
    pub fn upcall(&mut self, humidity: u32, _arg1: u32, _arg2: u32)
        ensures
            final(self).humidity == Some(humidity),
    {
        self.humidity = Some(humidity);
    }
}

/// The humidity driver client.
pub struct Humidity;

impl Humidity {
    /// Returns `Ok(())` if the driver is present. This does not necessarily
    /// mean that the driver is working.
    pub fn driver_exists(kernel: &mut Kernel) -> (r: Result<(), ErrorCode>)
        requires
            old(kernel).wf(),
        ensures
            final(kernel).wf(),
            final(kernel)@ == old(kernel)@,
            r == (if has_driver(old(kernel)@, DRIVER_NUM) {
                Ok::<(), ErrorCode>(())
            } else {
                Err::<(), ErrorCode>(ErrorCode::NoDevice)
            }),
    {
        let r = kernel.command(DRIVER_NUM, EXISTS, 0, 0).to_result();
        proof {
            assert(kernel@ =~~= old(kernel)@);
        }
        r
    }

    /// Initiates a humidity measurement.
    ///
    /// This function is used both for synchronous and asynchronous
    /// readings: with no driver present it fails with `NoDevice`; while a
    /// measurement is outstanding it fails with `Busy`; otherwise it
    /// succeeds, marking the driver busy, and a pre-seeded value is
    /// answered immediately by enqueuing its upcall.
    pub fn read(kernel: &mut Kernel) -> (r: Result<(), ErrorCode>)
        requires
            old(kernel).wf(),
        ensures
            final(kernel).wf(),
            !has_driver(old(kernel)@, DRIVER_NUM) ==> r == Err::<(), ErrorCode>(
                ErrorCode::NoDevice,
            ) && final(kernel)@ == old(kernel)@,
            (old(kernel)@.humidity matches Some(h) && h.busy) ==> r == Err::<(), ErrorCode>(
                ErrorCode::Busy,
            ) && final(kernel)@ == old(kernel)@,
            (old(kernel)@.humidity matches Some(h) && !h.busy && h.upcall_on_command is None)
                ==> r == Ok::<(), ErrorCode>(()) && final(kernel)@ == (KernelView {
                humidity: Some(HumidityV { busy: true, upcall_on_command: None }),
                ..old(kernel)@
            }),
            (old(kernel)@.humidity is Some && !old(kernel)@.humidity->Some_0.busy && old(
                kernel,
            )@.humidity->Some_0.upcall_on_command is Some) ==> ({
                let v = old(kernel)@.humidity->Some_0.upcall_on_command->Some_0;
                r == Ok::<(), ErrorCode>(()) && final(kernel)@ == (KernelView {
                    humidity: Some(HumidityV { busy: false, upcall_on_command: None }),
                    queue: old(kernel)@.queue.push(
                        PendingUpcall {
                            slot: driver_slot(DRIVER_NUM),
                            record: UpcallRecord { arg0: v as u32, arg1: 0, arg2: 0 },
                        },
                    ),
                    ..old(kernel)@
                })
            }),
    {
        let r = kernel.command(DRIVER_NUM, READ_HUM, 0, 0).to_result();
        proof {
            if !has_driver(old(kernel)@, DRIVER_NUM) {
                assert(kernel@ =~~= old(kernel)@);
            } else {
                let h = old(kernel)@.humidity->Some_0;
                if h.busy {
                    assert(kernel@ =~~= old(kernel)@);
                }
            }
        }
        r
    }

    /// Registers an events listener on the driver's subscription slot,
    /// recording the grant in `scope` so that the prior binding is restored
    /// when the scope exits.
    pub fn register_listener(kernel: &mut Kernel, scope: &mut Scope, listener: Listener) -> (r:
        Result<(), ErrorCode>)
        requires
            old(kernel).wf(),
        ensures
            final(kernel).wf(),
            r is Ok <==> has_driver(old(kernel)@, DRIVER_NUM),
            r is Err ==> r == Err::<(), ErrorCode>(ErrorCode::NoDevice) && final(kernel)@ == old(
                kernel,
            )@ && final(scope)@ == old(scope)@,
            r is Ok ==> final(kernel)@ == (KernelView {
                bindings: old(kernel)@.bindings.insert(driver_slot(DRIVER_NUM), listener@),
                ..old(kernel)@
            }) && final(scope)@ == old(scope)@.push(
                crate::scope::GrantV::Subscription {
                    slot: driver_slot(DRIVER_NUM),
                    prior: binding_of(old(kernel)@, driver_slot(DRIVER_NUM)),
                },
            ),
    {
        scope.subscribe(kernel, DRIVER_NUM, 0, listener)
    }

    /// Unregisters the events listener: the slot's binding is cleared
    /// directly, outside any scope.
    pub fn unregister_listener(kernel: &mut Kernel)
        requires
            old(kernel).wf(),
        ensures
            final(kernel).wf(),
            final(kernel)@ == (KernelView {
                bindings: old(kernel)@.bindings.remove(driver_slot(DRIVER_NUM)),
                ..old(kernel)@
            }),
    {
        let _ = kernel.unsubscribe(DRIVER_NUM, 0);
    }

    /// Initiates a synchronous humidity measurement and blocks until the
    /// value arrives.
    ///
    /// With no driver present it returns `Err(NoDevice)` without entering
    /// the wait loop; while a measurement is outstanding it surfaces
    /// `Err(Busy)` without blocking; in both cases the kernel is left
    /// exactly as it was. Otherwise it returns `Ok` with the measured
    /// value. The wait loop may be woken by any pending upcall
    /// system-wide, so pending upcalls for other slots are delivered to
    /// their own listeners while this call waits; the temporary listener is
    /// revoked on every exit path, restoring the slot's prior binding.
    ///
    /// Because the fake kernel is deterministic and single-threaded, the
    /// measurement must already have an answer scheduled (a pre-seeded
    /// value), and no upcall for the driver's own slot may already be
    /// pending — otherwise the loop would either block forever or return a
    /// stale payload.
    pub fn read_sync(kernel: &mut Kernel) -> (r: Result<u32, ErrorCode>)
        requires
            old(kernel).wf(),
            no_pending_for(old(kernel)@.queue, driver_slot(DRIVER_NUM)),
            (old(kernel)@.humidity is Some && !old(kernel)@.humidity->Some_0.busy) ==> old(
                kernel,
            )@.humidity->Some_0.upcall_on_command is Some,
        ensures
            final(kernel).wf(),
            !has_driver(old(kernel)@, DRIVER_NUM) ==> r == Err::<u32, ErrorCode>(
                ErrorCode::NoDevice,
            ) && final(kernel)@ == old(kernel)@,
            (old(kernel)@.humidity matches Some(h) && h.busy) ==> r == Err::<u32, ErrorCode>(
                ErrorCode::Busy,
            ) && final(kernel)@ == old(kernel)@,
            (old(kernel)@.humidity is Some && !old(kernel)@.humidity->Some_0.busy && old(
                kernel,
            )@.humidity->Some_0.upcall_on_command is Some) ==> ({
                let v = old(kernel)@.humidity->Some_0.upcall_on_command->Some_0;
                r == Ok::<u32, ErrorCode>(v as u32) && final(kernel)@ == (KernelView {
                    humidity: Some(HumidityV { busy: false, upcall_on_command: None }),
                    bindings: spec_deliver_all(old(kernel)@.bindings, old(kernel)@.queue),
                    queue: Seq::<PendingUpcall>::empty(),
                    ..old(kernel)@
                })
            }),
    {
        let ghost kv0 = old(kernel)@;
        let ghost slot_spec = driver_slot(DRIVER_NUM);
        let slot = UpcallSlot { driver_num: DRIVER_NUM, subscribe_num: 0 };
        let mut scope = Scope::new();
        match Humidity::register_listener(kernel, &mut scope, Listener::new(0)) {
            Err(e) => {
                let _ = scope.exit(kernel);
                proof {
                    assert(kernel@ =~~= kv0);
                }
                return Err(e);
            },
            Ok(()) => {},
        }
        match Humidity::read(kernel) {
            Err(e) => {
                let ghost gs = scope@;
                let ghost kv_at = kernel@;
                let _ = scope.exit(kernel);
                proof {
                    let kvx = crate::scope::spec_undo_grant_kv(kv_at, gs.last());
                    assert(gs.drop_last() =~= Seq::<crate::scope::GrantV>::empty());
                    assert(crate::scope::spec_undo_all(kvx, gs.drop_last()).kv == kvx);
                    match binding_of(kv0, slot_spec) {
                        Some(l) => {
                            assert(kernel@.bindings =~= kv0.bindings);
                        },
                        None => {
                            assert(kernel@.bindings =~= kv0.bindings);
                        },
                    }
                    assert(kernel@ =~~= kv0);
                }
                return Err(e);
            },
            Ok(()) => {},
        }
        let ghost v = kv0.humidity->Some_0.upcall_on_command->Some_0;
        let ghost ours = PendingUpcall {
            slot: slot_spec,
            record: UpcallRecord { arg0: v as u32, arg1: 0, arg2: 0 },
        };
        let ghost full = kv0.queue.push(ours);
        let ghost fresh = ListenerV { id: 0, received: Seq::<UpcallRecord>::empty() };
        let ghost delivered = ListenerV { id: 0, received: seq![ours.record] };
        let ghost mut j: int = 0;
        proof {
            assert(kernel@.queue =~= full.skip(0));
            assert(kernel@.bindings =~= spec_deliver_all(kv0.bindings, kv0.queue.take(0)).insert(
                slot_spec,
                fresh,
            ));
        }
        while kernel.peek_upcall(slot).is_none()
            invariant
                kernel.wf(),
                0 <= j <= full.len(),
                full == kv0.queue.push(ours),
                ours.slot == slot_spec,
                slot == slot_spec,
                fresh == (ListenerV { id: 0, received: Seq::<UpcallRecord>::empty() }),
                delivered == (ListenerV { id: 0, received: seq![ours.record] }),
                no_pending_for(kv0.queue, slot_spec),
                kernel@.humidity == Some(
                    HumidityV { busy: false, upcall_on_command: None },
                ),
                kernel@.rng == kv0.rng,
                kernel@.queue == full.skip(j),
                j <= kv0.queue.len() ==> kernel@.bindings == spec_deliver_all(
                    kv0.bindings,
                    kv0.queue.take(j),
                ).insert(slot_spec, fresh),
                j == full.len() ==> kernel@.bindings == spec_deliver_all(
                    kv0.bindings,
                    kv0.queue,
                ).insert(slot_spec, delivered),
                scope@ == seq![
                    crate::scope::GrantV::Subscription {
                        slot: slot_spec,
                        prior: binding_of(kv0, slot_spec),
                    },
                ],
            decreases full.len() - j,
        {
            proof {
                if j == full.len() {
                    assert(kernel@.bindings.contains_key(slot_spec));
                    assert(kernel@.bindings[slot_spec] == delivered);
                    assert(delivered.received.len() == 1);
                    assert(delivered.received.last() == ours.record);
                    assert(spec_peek_upcall(kernel@, slot_spec) == Some(ours.record));
                    assert(false);
                }
                assert(kernel@.queue.len() > 0);
            }
            let ghost kv_pre = kernel@;
            kernel.yield_wait();
            proof {
                let entry = full[j];
                assert(kv_pre.queue.first() == entry);
                assert(kernel@.queue =~= full.skip(j + 1));
                if j < kv0.queue.len() {
                    assert(entry == kv0.queue[j]);
                    assert(entry.slot != slot_spec);
                    let m = spec_deliver_all(kv0.bindings, kv0.queue.take(j));
                    assert(spec_deliver(m.insert(slot_spec, fresh), entry.slot, entry.record)
                        =~= spec_deliver(m, entry.slot, entry.record).insert(slot_spec, fresh));
                    crate::upcall::lemma_deliver_all_push(
                        kv0.bindings,
                        kv0.queue.take(j),
                        entry,
                    );
                    assert(kv0.queue.take(j).push(entry) =~= kv0.queue.take(j + 1));
                    assert(kernel@.bindings =~= spec_deliver_all(
                        kv0.bindings,
                        kv0.queue.take(j + 1),
                    ).insert(slot_spec, fresh));
                } else {
                    assert(entry == ours);
                    let m = spec_deliver_all(kv0.bindings, kv0.queue.take(j));
                    assert(kv0.queue.take(j) =~= kv0.queue);
                    assert(m.insert(slot_spec, fresh).contains_key(slot_spec));
                    assert(m.insert(slot_spec, fresh)[slot_spec] == fresh);
                    assert(kernel@.bindings =~= spec_deliver_all(
                        kv0.bindings,
                        kv0.queue,
                    ).insert(slot_spec, delivered));
                }
                j = j + 1;
            }
        }
        proof {
            if j <= kv0.queue.len() {
                assert(kernel@.bindings.contains_key(slot_spec));
                assert(kernel@.bindings[slot_spec] == fresh);
                assert(spec_peek_upcall(kernel@, slot_spec) is None);
                assert(false);
            }
        }
        let record = match kernel.peek_upcall(slot) {
            Some(record) => record,
            None => {
                proof {
                    assert(false);
                }
                return Err(ErrorCode::Busy);
            },
        };
        let ghost kv_exit = kernel@;
        let ghost gs = scope@;
        let _ = scope.exit(kernel);
        proof {
            let kvx = crate::scope::spec_undo_grant_kv(kv_exit, gs.last());
            assert(gs.drop_last() =~= Seq::<crate::scope::GrantV>::empty());
            assert(crate::scope::spec_undo_all(kvx, gs.drop_last()).kv == kvx);
            crate::upcall::lemma_deliver_all_frame(kv0.bindings, kv0.queue, slot_spec);
            let restored = spec_deliver_all(kv0.bindings, kv0.queue);
            match binding_of(kv0, slot_spec) {
                Some(l) => {
                    assert(kernel@.bindings =~= restored);
                },
                None => {
                    assert(kernel@.bindings =~= restored);
                },
            }
            assert(kernel@ =~~= (KernelView {
                humidity: Some(HumidityV { busy: false, upcall_on_command: None }),
                bindings: spec_deliver_all(kv0.bindings, kv0.queue),
                queue: Seq::<PendingUpcall>::empty(),
                ..kv0
            }));
        }
        Ok(record.arg0)
    }
}

} // verus!
