//! The random number generator driver client.
//!
//! A thin consumer of the syscall surface: it shares a destination buffer
//! with the driver, registers a listener, issues the triggering command,
//! and for the blocking variant waits at the yield primitive until the
//! request completes, revoking both grants on every exit path. A request
//! larger than the shared buffer completes with the number of bytes that
//! fit — truncation, not failure.

use vstd::prelude::*;
use crate::error_code::ErrorCode;
use crate::fake::kernel::binding_of;
use crate::fake::kernel::driver_slot;
use crate::fake::kernel::has_driver;
use crate::fake::kernel::push_opt;
use crate::fake::kernel::spec_peek_upcall;
use crate::fake::kernel::Kernel;
use crate::fake::kernel::KernelView;
use crate::fake::rng::min_int;
use crate::fake::rng::spec_add_bytes;
use crate::fake::rng::RngV;
use crate::scope::GrantV;
use crate::scope::Scope;
use crate::upcall::no_pending_for;
use crate::upcall::spec_deliver;
use crate::upcall::spec_deliver_all;
use crate::upcall::Listener;
use crate::upcall::ListenerV;
use crate::upcall::PendingUpcall;
use crate::upcall::UpcallRecord;
use crate::upcall::UpcallSlot;

verus! {

/// The random number generator driver number.
pub const DRIVER_NUM: u32 = 0x40001;

/// Command id: existence check.
pub const EXISTS: u32 = 0;

/// Command id: request that many random bytes.
pub const ASK_FOR_RANDOM_BYTES: u32 = 1;

/// The read-write buffer id the randomness is written into.
pub const RW_ALLOW: u32 = 0;

/// The random number generator driver client.
pub struct Rng;

impl Rng {
    /// Returns `Ok(())` if the driver is present.
    pub fn driver_exists(kernel: &mut Kernel) -> (r: Result<(), ErrorCode>)
        requires
            old(kernel).wf(),
        ensures
            final(kernel).wf(),
            final(kernel)@ == old(kernel)@,
            r == (if has_driver(old(kernel)@, DRIVER_NUM) {
                Ok::<(), ErrorCode>(())
            } else {
                Err::<(), ErrorCode>(ErrorCode::NoDevice)
            }),
    {
        let r = kernel.command(DRIVER_NUM, EXISTS, 0, 0).to_result();
        proof {
            assert(kernel@ =~~= old(kernel)@);
        }
        r
    }

    /// Registers a listener to be called when the random generation is
    /// finished, recording the grant in `scope`.
    pub fn register_listener(kernel: &mut Kernel, scope: &mut Scope, listener: Listener) -> (r:
        Result<(), ErrorCode>)
        requires
            old(kernel).wf(),
        ensures
            final(kernel).wf(),
            r is Ok <==> has_driver(old(kernel)@, DRIVER_NUM),
            r is Err ==> r == Err::<(), ErrorCode>(ErrorCode::NoDevice) && final(kernel)@ == old(
                kernel,
            )@ && final(scope)@ == old(scope)@,
            r is Ok ==> final(kernel)@ == (KernelView {
                bindings: old(kernel)@.bindings.insert(driver_slot(DRIVER_NUM), listener@),
                ..old(kernel)@
            }) && final(scope)@ == old(scope)@.push(
                GrantV::Subscription {
                    slot: driver_slot(DRIVER_NUM),
                    prior: binding_of(old(kernel)@, driver_slot(DRIVER_NUM)),
                },
            ),
    {
        scope.subscribe(kernel, DRIVER_NUM, 0, listener)
    }

    /// Shares the buffer the random bytes will be written into, recording
    /// the grant in `scope`. On failure the buffer comes straight back with
    /// the error.
    pub fn set_buffer(kernel: &mut Kernel, scope: &mut Scope, buffer: Vec<u8>) -> (r: Result<
        (),
        (Vec<u8>, ErrorCode),
    >)
        requires
            old(kernel).wf(),
        ensures
            final(kernel).wf(),
            r is Ok <==> has_driver(old(kernel)@, DRIVER_NUM),
            (match r {
                Err((back, e)) => final(kernel)@ == old(kernel)@ && final(scope)@ == old(scope)@
                    && back@ == buffer@ && e == ErrorCode::NoDevice,
                Ok(_) => true,
            }),
            r is Ok ==> ({
                let r0 = old(kernel)@.rng->Some_0;
                &&& final(kernel)@ == (KernelView {
                    rng: Some(RngV { buffer: buffer@, ..r0 }),
                    ..old(kernel)@
                })
                &&& final(scope)@ == old(scope)@.push(
                    GrantV::AllowRw {
                        driver_num: DRIVER_NUM,
                        buffer_num: RW_ALLOW,
                        displaced: r0.buffer,
                    },
                )
            }),
    {
        scope.allow_readwrite(kernel, DRIVER_NUM, RW_ALLOW, buffer)
    }

    /// Initiates an asynchronous random generation of `n` bytes. A buffer
    /// and a listener should have been set before. When entropy was
    /// pre-seeded, the request completes inside the command itself and its
    /// completion upcall is already pending on return.
    pub fn get_random(kernel: &mut Kernel, n: u32) -> (r: Result<(), ErrorCode>)
        requires
            old(kernel).wf(),
        ensures
            final(kernel).wf(),
            !has_driver(old(kernel)@, DRIVER_NUM) ==> r == Err::<(), ErrorCode>(
                ErrorCode::NoDevice,
            ) && final(kernel)@ == old(kernel)@,
            (old(kernel)@.rng is Some && old(kernel)@.rng->Some_0.random_numbers is None) ==> r
                == Ok::<(), ErrorCode>(()) && final(kernel)@ == (KernelView {
                rng: Some(
                    RngV {
                        remaining: n as int,
                        idx: 0,
                        getting_randomness: true,
                        ..old(kernel)@.rng->Some_0
                    },
                ),
                ..old(kernel)@
            }),
            (old(kernel)@.rng is Some && old(kernel)@.rng->Some_0.random_numbers is Some) ==> ({
                let r0 = old(kernel)@.rng->Some_0;
                let fed = RngV {
                    remaining: n as int,
                    idx: 0,
                    getting_randomness: true,
                    random_numbers: None,
                    buffer: r0.buffer,
                };
                let t = spec_add_bytes(fed, r0.random_numbers->Some_0);
                r == Ok::<(), ErrorCode>(()) && final(kernel)@ == (KernelView {
                    rng: Some(t.0),
                    queue: push_opt(old(kernel)@.queue, driver_slot(DRIVER_NUM), t.1),
                    ..old(kernel)@
                })
            }),
    {
        let r = kernel.command(DRIVER_NUM, ASK_FOR_RANDOM_BYTES, n, 0).to_result();
        proof {
            if !has_driver(old(kernel)@, DRIVER_NUM) {
                assert(kernel@ =~~= old(kernel)@);
            } else {
                let r0 = old(kernel)@.rng->Some_0;
                if r0.random_numbers is None {
                    assert(kernel@ =~~= (KernelView {
                        rng: Some(
                            RngV {
                                remaining: n as int,
                                idx: 0,
                                getting_randomness: true,
                                ..r0
                            },
                        ),
                        ..old(kernel)@
                    }));
                }
            }
        }
        r
    }

    /// Initiates a synchronous random number generation: `n` random bytes
    /// are written into `buf` and the number of bytes actually written is
    /// returned — `min(n, buf.len())`, since a request larger than the
    /// buffer truncates rather than fails.
    ///
    /// Any setup failure (here: no driver installed) is collapsed into
    /// `Err(Fail)`, with the buffer and the kernel left unchanged. The wait
    /// loop may be woken by any pending upcall system-wide; pending upcalls
    /// for other slots are delivered to their own listeners while this call
    /// waits. Both grants — the buffer allow and the subscription — are
    /// revoked on every exit path, which is also what hands the filled
    /// buffer back.
    ///
    /// Because the fake kernel is deterministic and single-threaded, the
    /// entropy must be pre-seeded and sufficient for the truncated request,
    /// and no upcall for the driver's own slot may already be pending.
    pub fn get_random_sync(kernel: &mut Kernel, buf: &mut Vec<u8>, n: u32) -> (r: Result<
        u32,
        ErrorCode,
    >)
        requires
            old(kernel).wf(),
            no_pending_for(old(kernel)@.queue, driver_slot(DRIVER_NUM)),
            old(kernel)@.rng is Some ==> (old(kernel)@.rng->Some_0.random_numbers is Some
                && min_int(n as int, old(buf)@.len() as int) <= old(
                kernel,
            )@.rng->Some_0.random_numbers->Some_0.len()),
        ensures
            final(kernel).wf(),
            !has_driver(old(kernel)@, DRIVER_NUM) ==> r == Err::<u32, ErrorCode>(ErrorCode::Fail)
                && final(kernel)@ == old(kernel)@ && final(buf)@ == old(buf)@,
            old(kernel)@.rng is Some ==> ({
                let r0 = old(kernel)@.rng->Some_0;
                let numbers = r0.random_numbers->Some_0;
                let k = min_int(n as int, old(buf)@.len() as int);
                &&& r == Ok::<u32, ErrorCode>(k as u32)
                &&& final(buf)@ == numbers.take(k) + old(buf)@.skip(k)
                &&& final(kernel)@ == (KernelView {
                    rng: Some(
                        RngV {
                            buffer: r0.buffer,
                            remaining: 0,
                            idx: k,
                            getting_randomness: false,
                            random_numbers: None,
                        },
                    ),
                    bindings: spec_deliver_all(old(kernel)@.bindings, old(kernel)@.queue),
                    queue: Seq::<PendingUpcall>::empty(),
                    ..old(kernel)@
                })
            }),
    {
        let ghost kv0 = old(kernel)@;
        let ghost slot_spec = driver_slot(DRIVER_NUM);
        let slot = UpcallSlot { driver_num: DRIVER_NUM, subscribe_num: 0 };
        let mut owned: Vec<u8> = Vec::new();
        core::mem::swap(buf, &mut owned);
        let mut scope = Scope::new();
        match Rng::set_buffer(kernel, &mut scope, owned) {
            Err((back, _e)) => {
                *buf = back;
                let _ = scope.exit(kernel);
                proof {
                    assert(kernel@ =~~= kv0);
                }
                return Err(ErrorCode::Fail);
            },
            Ok(()) => {},
        }
        match Rng::register_listener(kernel, &mut scope, Listener::new(0)) {
            Err(_e) => {
                proof {
                    assert(false);
                }
                let _ = scope.exit(kernel);
                return Err(ErrorCode::Fail);
            },
            Ok(()) => {},
        }
        match Rng::get_random(kernel, n) {
            Err(_e) => {
                proof {
                    assert(false);
                }
                let _ = scope.exit(kernel);
                return Err(ErrorCode::Fail);
            },
            Ok(()) => {},
        }
        let ghost r0 = kv0.rng->Some_0;
        let ghost numbers = r0.random_numbers->Some_0;
        let ghost k = min_int(n as int, old(buf)@.len() as int);
        let ghost filled = numbers.take(k) + old(buf)@.skip(k);
        let ghost ours = PendingUpcall {
            slot: slot_spec,
            record: UpcallRecord { arg0: 0, arg1: k as u32, arg2: 0 },
        };
        let ghost full = kv0.queue.push(ours);
        let ghost fresh = ListenerV { id: 0, received: Seq::<UpcallRecord>::empty() };
        let ghost delivered = ListenerV { id: 0, received: seq![ours.record] };
        let ghost rng_done = RngV {
            buffer: filled,
            remaining: 0,
            idx: k,
            getting_randomness: false,
            random_numbers: None,
        };
        proof {
            let fed = RngV {
                remaining: n as int,
                idx: 0,
                getting_randomness: true,
                random_numbers: None,
                buffer: old(buf)@,
            };
            let t = spec_add_bytes(fed, numbers);
            assert(t.0.buffer =~= filled);
            assert(t.0 =~= rng_done);
            assert(t.1 == Some(ours.record));
            assert(kernel@.queue =~= full.skip(0));
            assert(kernel@.bindings =~= spec_deliver_all(kv0.bindings, kv0.queue.take(0)).insert(
                slot_spec,
                fresh,
            ));
        }
        let ghost mut j: int = 0;
        while kernel.peek_upcall(slot).is_none()
            invariant
                kernel.wf(),
                0 <= j <= full.len(),
                full == kv0.queue.push(ours),
                ours.slot == slot_spec,
                slot == slot_spec,
                fresh == (ListenerV { id: 0, received: Seq::<UpcallRecord>::empty() }),
                delivered == (ListenerV { id: 0, received: seq![ours.record] }),
                no_pending_for(kv0.queue, slot_spec),
                kernel@.humidity == kv0.humidity,
                kernel@.rng == Some(rng_done),
                kernel@.queue == full.skip(j),
                j <= kv0.queue.len() ==> kernel@.bindings == spec_deliver_all(
                    kv0.bindings,
                    kv0.queue.take(j),
                ).insert(slot_spec, fresh),
                j == full.len() ==> kernel@.bindings == spec_deliver_all(
                    kv0.bindings,
                    kv0.queue,
                ).insert(slot_spec, delivered),
            decreases full.len() - j,
        {
            proof {
                if j == full.len() {
                    assert(kernel@.bindings.contains_key(slot_spec));
                    assert(kernel@.bindings[slot_spec] == delivered);
                    assert(delivered.received.len() == 1);
                    assert(delivered.received.last() == ours.record);
                    assert(spec_peek_upcall(kernel@, slot_spec) == Some(ours.record));
                    assert(false);
                }
                assert(kernel@.queue.len() > 0);
            }
            let ghost kv_pre = kernel@;
            kernel.yield_wait();
            proof {
                let entry = full[j];
                assert(kv_pre.queue.first() == entry);
                assert(kernel@.queue =~= full.skip(j + 1));
                if j < kv0.queue.len() {
                    assert(entry == kv0.queue[j]);
                    assert(entry.slot != slot_spec);
                    let m = spec_deliver_all(kv0.bindings, kv0.queue.take(j));
                    assert(spec_deliver(m.insert(slot_spec, fresh), entry.slot, entry.record)
                        =~= spec_deliver(m, entry.slot, entry.record).insert(slot_spec, fresh));
                    crate::upcall::lemma_deliver_all_push(kv0.bindings, kv0.queue.take(j), entry);
                    assert(kv0.queue.take(j).push(entry) =~= kv0.queue.take(j + 1));
                    assert(kernel@.bindings =~= spec_deliver_all(
                        kv0.bindings,
                        kv0.queue.take(j + 1),
                    ).insert(slot_spec, fresh));
                } else {
                    assert(entry == ours);
                    let m = spec_deliver_all(kv0.bindings, kv0.queue.take(j));
                    assert(kv0.queue.take(j) =~= kv0.queue);
                    assert(m.insert(slot_spec, fresh).contains_key(slot_spec));
                    assert(m.insert(slot_spec, fresh)[slot_spec] == fresh);
                    assert(kernel@.bindings =~= spec_deliver_all(kv0.bindings, kv0.queue).insert(
                        slot_spec,
                        delivered,
                    ));
                }
                j = j + 1;
            }
        }
        proof {
            if j <= kv0.queue.len() {
                assert(kernel@.bindings.contains_key(slot_spec));
                assert(kernel@.bindings[slot_spec] == fresh);
                assert(spec_peek_upcall(kernel@, slot_spec) is None);
                assert(false);
            }
        }
        let record = match kernel.peek_upcall(slot) {
            Some(record) => record,
            None => {
                proof {
                    assert(false);
                }
                return Err(ErrorCode::Fail);
            },
        };
        let ghost kv_exit = kernel@;
        let ghost gs = scope@;
        let mut out = scope.exit(kernel);
        proof {
            let kv1 = crate::scope::spec_undo_grant_kv(kv_exit, gs.last());
            let gs1 = gs.drop_last();
            assert(gs1.last() == gs[0]);
            assert(gs1.drop_last() =~= Seq::<GrantV>::empty());
            let kv2 = crate::scope::spec_undo_grant_kv(kv1, gs1.last());
            assert(crate::scope::spec_undo_all(kv2, gs1.drop_last()).kv == kv2);
            assert(crate::scope::spec_undo_all(kv1, gs1).kv == kv2);
            crate::upcall::lemma_deliver_all_frame(kv0.bindings, kv0.queue, slot_spec);
            let restored = spec_deliver_all(kv0.bindings, kv0.queue);
            match binding_of(kv0, slot_spec) {
                Some(l) => {
                    assert(kernel@.bindings =~= restored);
                },
                None => {
                    assert(kernel@.bindings =~= restored);
                },
            }
            assert(kernel@ =~~= (KernelView {
                rng: Some(
                    RngV {
                        buffer: r0.buffer,
                        remaining: 0,
                        idx: k,
                        getting_randomness: false,
                        random_numbers: None,
                    },
                ),
                bindings: restored,
                queue: Seq::<PendingUpcall>::empty(),
                ..kv0
            }));
            assert(crate::scope::buffers_v(out.buffers@) =~= seq![filled]);
            assert(crate::scope::buffers_v(out.buffers@).len() == out.buffers@.len());
            assert(crate::scope::buffers_v(out.buffers@)[0] == out.buffers@[0]@);
            assert(out.buffers@[0]@ == filled);
            assert(out.buffers@.last() == out.buffers@[0]);
        }
        let reclaimed = match out.buffers.pop() {
            Some(b) => b,
            None => {
                proof {
                    assert(false);
                }
                return Err(ErrorCode::Fail);
            },
        };
        *buf = reclaimed;
        proof {
            assert(buf@ =~= filled);
        }
        Ok(record.arg1)
    }
}

} // verus!
