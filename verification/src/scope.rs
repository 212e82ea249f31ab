//! The capability scope manager: scoped, revocable grants.
//!
//! A [`Scope`] is created per blocking or multi-grant operation. Every
//! grant it makes — a subscription or a read-write buffer allow — records
//! the state it displaced, and `exit` issues the exact inverse operation
//! for each recorded grant, newest first, on every exit path: the prior
//! listener is re-registered (or the slot cleared), and the prior buffer is
//! re-allowed, handing the granted buffer back to its caller. A grant that
//! fails records nothing, so a scope whose setup fails midway rolls back
//! exactly the grants it had made and no more.

use vstd::prelude::*;
use crate::error_code::ErrorCode;
use crate::fake::kernel::binding_of;
use crate::fake::kernel::has_driver;
use crate::fake::kernel::Kernel;
use crate::fake::kernel::KernelView;
use crate::fake::rng;
use crate::upcall::Listener;
use crate::upcall::ListenerV;
use crate::upcall::UpcallSlot;

verus! {

/// One recorded grant, together with the state it displaced.
pub enum Grant {
    /// A listener was bound to `slot`; `prior` is the binding it replaced.
    Subscription { slot: UpcallSlot, prior: Option<Listener> },
    /// A buffer was lent to a driver; `displaced` is the buffer it displaced.
    AllowRw { driver_num: u32, buffer_num: u32, displaced: Vec<u8> },
}

/// The mathematical model of a recorded grant.
#[verifier::ext_equal]
pub ghost enum GrantV {
    Subscription { slot: UpcallSlot, prior: Option<ListenerV> },
    AllowRw { driver_num: u32, buffer_num: u32, displaced: Seq<u8> },
}

impl View for Grant {
    type V = GrantV;

    open spec fn view(&self) -> GrantV {
        match self {
            Grant::Subscription { slot, prior } => GrantV::Subscription {
                slot: *slot,
                prior: match prior {
                    Some(l) => Some(l@),
                    None => None,
                },
            },
            Grant::AllowRw { driver_num, buffer_num, displaced } => GrantV::AllowRw {
                driver_num: *driver_num,
                buffer_num: *buffer_num,
                displaced: displaced@,
            },
        }
    }
}

/// A grant's inverse can still be issued against `kv`: the driver it spoke
/// to is still installed (drivers are never removed, so this holds from
/// grant time on).
pub open spec fn grant_ok(g: GrantV, kv: KernelView) -> bool {
    match g {
        GrantV::Subscription { slot, prior } => has_driver(kv, slot.driver_num)
            && slot.subscribe_num == 0,
        GrantV::AllowRw { driver_num, buffer_num, displaced } => driver_num == rng::DRIVER_NUM
            && kv.rng is Some && buffer_num == rng::RW_ALLOW,
    }
}

pub open spec fn grants_ok(gs: Seq<GrantV>, kv: KernelView) -> bool {
    forall|i: int| 0 <= i < gs.len() ==> grant_ok(#[trigger] gs[i], kv)
}

/// What revoking one grant does to the kernel: the slot's binding returns
/// to the recorded prior listener (or is cleared), or the recorded prior
/// buffer is re-allowed.
pub open spec fn spec_undo_grant_kv(kv: KernelView, g: GrantV) -> KernelView {
    match g {
        GrantV::Subscription { slot, prior } => match prior {
            Some(l) => KernelView { bindings: kv.bindings.insert(slot, l), ..kv },
            None => KernelView { bindings: kv.bindings.remove(slot), ..kv },
        },
        GrantV::AllowRw { driver_num, buffer_num, displaced } => KernelView {
            rng: Some(rng::RngV { buffer: displaced, ..kv.rng->Some_0 }),
            ..kv
        },
    }
}

/// What revoking one grant reclaims for the scope's caller.
pub open spec fn spec_undo_grant_listener(kv: KernelView, g: GrantV) -> Seq<Option<ListenerV>> {
    match g {
        GrantV::Subscription { slot, prior } => seq![binding_of(kv, slot)],
        GrantV::AllowRw { .. } => Seq::empty(),
    }
}

pub open spec fn spec_undo_grant_buffer(kv: KernelView, g: GrantV) -> Seq<Seq<u8>> {
    match g {
        GrantV::Subscription { .. } => Seq::empty(),
        GrantV::AllowRw { .. } => seq![kv.rng->Some_0.buffer],
    }
}

/// The result of revoking a list of grants, newest first.
#[verifier::ext_equal]
pub ghost struct UndoOutcome {
    pub kv: KernelView,
    pub listeners: Seq<Option<ListenerV>>,
    pub buffers: Seq<Seq<u8>>,
}

/// Revoking every recorded grant, newest first: each revocation is the
/// exact inverse of the grant it undoes.
pub open spec fn spec_undo_all(kv: KernelView, gs: Seq<GrantV>) -> UndoOutcome
    decreases gs.len(),
{
    if gs.len() == 0 {
        UndoOutcome { kv, listeners: Seq::empty(), buffers: Seq::empty() }
    } else {
        let g = gs.last();
        let rest = spec_undo_all(spec_undo_grant_kv(kv, g), gs.drop_last());
        UndoOutcome {
            kv: rest.kv,
            listeners: spec_undo_grant_listener(kv, g) + rest.listeners,
            buffers: spec_undo_grant_buffer(kv, g) + rest.buffers,
        }
    }
}

pub open spec fn listener_opts_v(s: Seq<Option<Listener>>) -> Seq<Option<ListenerV>> {
    s.map_values(
        |o: Option<Listener>|
            match o {
                Some(l) => Some(l@),
                None => None,
            },
    )
}

pub open spec fn buffers_v(s: Seq<Vec<u8>>) -> Seq<Seq<u8>> {
    s.map_values(|b: Vec<u8>| b@)
}

spec fn grant_views(s: Seq<Grant>) -> Seq<GrantV> {
    s.map_values(|g: Grant| g@)
}

/// What a scope's exit hands back: one entry per revoked grant — the
/// listener each subscription slot held at exit (in revocation order,
/// newest grant first), and each reclaimed buffer likewise.
pub struct ScopeExit {
    pub listeners: Vec<Option<Listener>>,
    pub buffers: Vec<Vec<u8>>,
}

/// A capability scope: records every grant it creates, so that exit can
/// revoke exactly those — never more, never fewer.
pub struct Scope {
    grants: Vec<Grant>,
}

impl View for Scope {
    type V = Seq<GrantV>;

    closed spec fn view(&self) -> Seq<GrantV> {
        grant_views(self.grants@)
    }
}

impl Scope {
    /// A fresh scope with no grants.
    pub fn new() -> (s: Scope)
        ensures
            s@ == Seq::<GrantV>::empty(),
    {
        let s = Scope { grants: Vec::new() };
        proof {
            assert(s@ =~= Seq::<GrantV>::empty());
        }
        s
    }

    /// How many grants this scope has made (and will revoke on exit).
    pub fn grant_count(&self) -> (n: usize)
        ensures
            n == self@.len(),
    {
        self.grants.len()
    }

    /// Grants a subscription: binds `listener` to the slot and records the
    /// displaced binding for restoration. On failure (no such driver:
    /// `NoDevice`; no such subscription slot: `Invalid`) nothing changes
    /// and nothing is recorded.
    pub fn subscribe(
        &mut self,
        kernel: &mut Kernel,
        driver_num: u32,
        subscribe_num: u32,
        listener: Listener,
    ) -> (r: Result<(), ErrorCode>)
        requires
            old(kernel).wf(),
        ensures
            final(kernel).wf(),
            r is Ok <==> (has_driver(old(kernel)@, driver_num) && subscribe_num == 0),
            r is Err ==> final(kernel)@ == old(kernel)@ && final(self)@ == old(self)@,
            !has_driver(old(kernel)@, driver_num) ==> r == Err::<(), ErrorCode>(
                ErrorCode::NoDevice,
            ),
            (has_driver(old(kernel)@, driver_num) && subscribe_num >= 1) ==> r == Err::<
                (),
                ErrorCode,
            >(ErrorCode::Invalid),
            r is Ok ==> ({
                let slot = UpcallSlot { driver_num, subscribe_num };
                &&& final(kernel)@ == (KernelView {
                    bindings: old(kernel)@.bindings.insert(slot, listener@),
                    ..old(kernel)@
                })
                &&& final(self)@ =~= old(self)@.push(
                    GrantV::Subscription { slot, prior: binding_of(old(kernel)@, slot) },
                )
            }),
    {
        let ghost g0 = self.grants@;
        match kernel.subscribe(driver_num, subscribe_num, listener) {
            Ok(prior) => {
                let slot = UpcallSlot { driver_num, subscribe_num };
                self.grants.push(Grant::Subscription { slot, prior });
                proof {
                    assert(self@ =~= old(self)@.push(
                        GrantV::Subscription {
                            slot,
                            prior: binding_of(old(kernel)@, slot),
                        },
                    ));
                }
                Ok(())
            },
            Err(e) => Err(e),
        }
    }

    /// Grants a read-write buffer allow: lends `buffer` to the driver and
    /// records the displaced buffer for restoration. On failure the offered
    /// buffer comes back with the error and nothing is recorded.
    pub fn allow_readwrite(
        &mut self,
        kernel: &mut Kernel,
        driver_num: u32,
        buffer_num: u32,
        buffer: Vec<u8>,
    ) -> (r: Result<(), (Vec<u8>, ErrorCode)>)
        requires
            old(kernel).wf(),
        ensures
            final(kernel).wf(),
            r is Ok <==> (driver_num == rng::DRIVER_NUM && old(kernel)@.rng is Some && buffer_num
                == rng::RW_ALLOW),
            (match r {
                Err((back, e)) => final(kernel)@ == old(kernel)@ && final(self)@ == old(self)@
                    && back@ == buffer@ && (!has_driver(old(kernel)@, driver_num) ==> e
                    == ErrorCode::NoDevice),
                Ok(_) => true,
            }),
            r is Ok ==> ({
                let prior = old(kernel)@.rng->Some_0.buffer;
                &&& final(kernel)@ == (KernelView {
                    rng: Some(rng::RngV { buffer: buffer@, ..old(kernel)@.rng->Some_0 }),
                    ..old(kernel)@
                })
                &&& final(self)@ =~= old(self)@.push(
                    GrantV::AllowRw { driver_num, buffer_num, displaced: prior },
                )
            }),
    {
        match kernel.allow_readwrite(driver_num, buffer_num, buffer) {
            Ok(prior) => {
                self.grants.push(Grant::AllowRw { driver_num, buffer_num, displaced: prior });
                proof {
                    assert(self@ =~= old(self)@.push(
                        GrantV::AllowRw {
                            driver_num,
                            buffer_num,
                            displaced: old(kernel)@.rng->Some_0.buffer,
                        },
                    ));
                }
                Ok(())
            },
            Err(back) => Err(back),
        }
    }

    /// Leaves the scope: revokes every recorded grant, newest first, by
    /// issuing its exact inverse — exactly one revocation per grant,
    /// whether the operation inside the scope succeeded or failed.
    pub fn exit(self, kernel: &mut Kernel) -> (out: ScopeExit)
        requires
            old(kernel).wf(),
            grants_ok(self@, old(kernel)@),
        ensures
            final(kernel).wf(),
            ({
                let u = spec_undo_all(old(kernel)@, self@);
                &&& final(kernel)@ == u.kv
                &&& listener_opts_v(out.listeners@) == u.listeners
                &&& buffers_v(out.buffers@) == u.buffers
                &&& out.listeners@.len() + out.buffers@.len() == self@.len()
            }),
    {
        let ghost gs0 = self@;
        let ghost kv0 = old(kernel)@;
        let ghost u0 = spec_undo_all(kv0, gs0);
        let mut grants = self.grants;
        let mut listeners: Vec<Option<Listener>> = Vec::new();
        let mut buffers: Vec<Vec<u8>> = Vec::new();
        proof {
            assert(grant_views(grants@) =~= gs0.take(grants@.len() as int));
            assert(listener_opts_v(listeners@) =~= Seq::<Option<ListenerV>>::empty());
            assert(buffers_v(buffers@) =~= Seq::<Seq<u8>>::empty());
            assert(u0.listeners =~= listener_opts_v(listeners@) + spec_undo_all(
                kernel@,
                grant_views(grants@),
            ).listeners);
            assert(u0.buffers =~= buffers_v(buffers@) + spec_undo_all(
                kernel@,
                grant_views(grants@),
            ).buffers);
            lemma_undo_count(kv0, gs0);
        }
        while grants.len() > 0
            invariant
                kernel.wf(),
                grant_views(grants@) == gs0.take(grants@.len() as int),
                grants_ok(grant_views(grants@), kernel@),
                spec_undo_all(kernel@, grant_views(grants@)).kv == u0.kv,
                u0.listeners == listener_opts_v(listeners@) + spec_undo_all(
                    kernel@,
                    grant_views(grants@),
                ).listeners,
                u0.buffers == buffers_v(buffers@) + spec_undo_all(
                    kernel@,
                    grant_views(grants@),
                ).buffers,
                listeners@.len() + buffers@.len() + grants@.len() == gs0.len(),
            decreases grants@.len(),
        {
            let ghost m = grants@.len() as int;
            let ghost rem = grant_views(grants@);
            let ghost kv_pre = kernel@;
            proof {
                assert(rem.len() == m);
                assert(rem.last() == grants@.last()@);
                assert(rem.drop_last() =~= gs0.take(m - 1));
            }
            let g = match grants.pop() {
                Some(g) => g,
                None => {
                    proof {
                        assert(false);
                    }
                    return ScopeExit { listeners, buffers };
                },
            };
            proof {
                assert(grant_views(grants@) =~= gs0.take(m - 1));
                assert(grant_ok(g@, kv_pre));
            }
            match g {
                Grant::Subscription { slot, prior } => {
                    let reclaimed: Option<Listener> = match prior {
                        Some(l) => {
                            match kernel.subscribe(slot.driver_num, slot.subscribe_num, l) {
                                Ok(p) => p,
                                Err(_) => {
                                    proof {
                                        assert(false);
                                    }
                                    None
                                },
                            }
                        },
                        None => kernel.unsubscribe(slot.driver_num, slot.subscribe_num),
                    };
                    proof {
                        assert(kernel@ =~~= spec_undo_grant_kv(kv_pre, rem.last()));
                    }
                    listeners.push(reclaimed);
                    proof {
                        assert(listener_opts_v(listeners@) =~= listener_opts_v(
                            listeners@.drop_last(),
                        ).push(binding_of(kv_pre, slot)));
                        assert(u0.listeners =~= listener_opts_v(listeners@) + spec_undo_all(
                            kernel@,
                            grant_views(grants@),
                        ).listeners);
                        assert(u0.buffers =~= buffers_v(buffers@) + spec_undo_all(
                            kernel@,
                            grant_views(grants@),
                        ).buffers);
                    }
                },
                Grant::AllowRw { driver_num, buffer_num, displaced } => {
                    match kernel.allow_readwrite(driver_num, buffer_num, displaced) {
                        Ok(reclaimed) => {
                            proof {
                                assert(kernel@ =~~= spec_undo_grant_kv(kv_pre, rem.last()));
                            }
                            buffers.push(reclaimed);
                            proof {
                                assert(buffers_v(buffers@) =~= buffers_v(
                                    buffers@.drop_last(),
                                ).push(kv_pre.rng->Some_0.buffer));
                                assert(u0.buffers =~= buffers_v(buffers@) + spec_undo_all(
                                    kernel@,
                                    grant_views(grants@),
                                ).buffers);
                                assert(u0.listeners =~= listener_opts_v(listeners@)
                                    + spec_undo_all(
                                    kernel@,
                                    grant_views(grants@),
                                ).listeners);
                            }
                        },
                        Err(_) => {
                            proof {
                                assert(false);
                            }
                        },
                    }
                },
            }
        }
        proof {
            assert(grant_views(grants@) =~= Seq::<GrantV>::empty());
            assert(u0.listeners =~= listener_opts_v(listeners@));
            assert(u0.buffers =~= buffers_v(buffers@));
        }
        ScopeExit { listeners, buffers }
    }
}

/// Revoking a list of grants reclaims exactly one item per grant.
proof fn lemma_undo_count(kv: KernelView, gs: Seq<GrantV>)
    ensures
        spec_undo_all(kv, gs).listeners.len() + spec_undo_all(kv, gs).buffers.len() == gs.len(),
    decreases gs.len(),
{
    if gs.len() == 0 {
    } else {
        lemma_undo_count(spec_undo_grant_kv(kv, gs.last()), gs.drop_last());
    }
}

/// Whether a grant is a subscription on exactly this slot.
pub open spec fn is_sub_on(g: GrantV, slot: UpcallSlot) -> bool {
    match g {
        GrantV::Subscription { slot: s, prior } => s == slot,
        GrantV::AllowRw { .. } => false,
    }
}

/// The slot a subscription grant targets.
pub open spec fn sub_slot(g: GrantV) -> UpcallSlot {
    match g {
        GrantV::Subscription { slot, prior } => slot,
        GrantV::AllowRw { .. } => arbitrary(),
    }
}

/// Some grant in the list subscribes on `slot`.
pub open spec fn some_sub_on(gs: Seq<GrantV>, slot: UpcallSlot) -> bool {
    exists|i: int| 0 <= i < gs.len() && is_sub_on(#[trigger] gs[i], slot)
}

/// Some grant in the list is a buffer allow.
pub open spec fn some_allow(gs: Seq<GrantV>) -> bool {
    exists|i: int| 0 <= i < gs.len() && #[trigger] gs[i] is AllowRw
}

/// No two grants touch the same state: subscription slots are pairwise
/// distinct, and at most one buffer allow was granted.
pub open spec fn grants_distinct(gs: Seq<GrantV>) -> bool {
    forall|i: int, j: int|
        0 <= i < j < gs.len() ==> !(#[trigger] gs[i] is Subscription && #[trigger] gs[j]
            is Subscription && sub_slot(gs[i]) == sub_slot(gs[j])) && !(gs[i] is AllowRw && gs[j]
            is AllowRw)
}

/// Each grant records exactly the state the pre-scope kernel held for its
/// target: the slot's binding, or the driver's held buffer.
pub open spec fn grants_recorded(gs: Seq<GrantV>, kv0: KernelView) -> bool {
    forall|i: int|
        0 <= i < gs.len() ==> (match #[trigger] gs[i] {
            GrantV::Subscription { slot, prior } => prior == binding_of(kv0, slot),
            GrantV::AllowRw { driver_num, buffer_num, displaced } => kv0.rng is Some && displaced
                == kv0.rng->Some_0.buffer,
        })
}

/// Law: for any scope registering k grants against a pre-scope kernel
/// state, exactly k revocations occur on exit — on success and on error
/// paths alike — and the post-scope slot and buffer state equals the
/// pre-scope state: every granted slot returns to the binding it had
/// before the scope, a granted buffer returns to the buffer held before,
/// and no other slot, stub state or queued upcall is touched by the exit —
/// never more, never fewer. `kv1` is the kernel state at exit time,
/// whatever happened inside the scope.
pub proof fn lemma_scope_exit_restores(kv0: KernelView, gs: Seq<GrantV>, kv1: KernelView)
    requires
        grants_recorded(gs, kv0),
        grants_distinct(gs),
        grants_ok(gs, kv1),
    ensures
        ({
            let u = spec_undo_all(kv1, gs);
            &&& u.listeners.len() + u.buffers.len() == gs.len()
            &&& (forall|i: int|
                0 <= i < gs.len() && #[trigger] gs[i] is Subscription ==> binding_of(
                    u.kv,
                    sub_slot(gs[i]),
                ) == binding_of(kv0, sub_slot(gs[i])))
            &&& (some_allow(gs) ==> u.kv.rng is Some && u.kv.rng->Some_0.buffer
                == kv0.rng->Some_0.buffer)
            &&& (forall|s: UpcallSlot|
                !some_sub_on(gs, s) ==> #[trigger] binding_of(u.kv, s) == binding_of(kv1, s))
            &&& u.kv.humidity == kv1.humidity
            &&& u.kv.queue == kv1.queue
            &&& (u.kv.rng is Some <==> kv1.rng is Some)
            &&& (kv1.rng is Some && !some_allow(gs) ==> u.kv.rng == kv1.rng)
            &&& (kv1.rng is Some ==> u.kv.rng is Some && u.kv.rng->Some_0.remaining
                == kv1.rng->Some_0.remaining && u.kv.rng->Some_0.idx == kv1.rng->Some_0.idx
                && u.kv.rng->Some_0.getting_randomness == kv1.rng->Some_0.getting_randomness
                && u.kv.rng->Some_0.random_numbers == kv1.rng->Some_0.random_numbers)
        }),
    decreases gs.len(),
{
    lemma_undo_count(kv1, gs);
    if gs.len() == 0 {
    } else {
        let g = gs.last();
        let kvm = spec_undo_grant_kv(kv1, g);
        let rest = gs.drop_last();
        assert(forall|i: int| 0 <= i < rest.len() ==> rest[i] == gs[i]);
        lemma_scope_exit_restores(kv0, rest, kvm);
        let u = spec_undo_all(kv1, gs);
        let ur = spec_undo_all(kvm, rest);
        assert(u.kv == ur.kv);
        match g {
            GrantV::Subscription { slot, prior } => {
                assert(binding_of(kvm, slot) == prior);
                assert(!some_sub_on(rest, slot)) by {
                    if some_sub_on(rest, slot) {
                        let i = choose|i: int| 0 <= i < rest.len() && is_sub_on(rest[i], slot);
                        assert(gs[i] is Subscription && gs[gs.len() - 1] is Subscription
                            && sub_slot(gs[i]) == sub_slot(gs[gs.len() - 1]));
                    }
                }
                assert(binding_of(u.kv, slot) == binding_of(kvm, slot));
                assert(forall|i: int|
                    0 <= i < gs.len() && #[trigger] gs[i] is Subscription ==> binding_of(
                        u.kv,
                        sub_slot(gs[i]),
                    ) == binding_of(kv0, sub_slot(gs[i]))) by {
                    assert forall|i: int|
                        0 <= i < gs.len() && #[trigger] gs[i] is Subscription implies binding_of(
                        u.kv,
                        sub_slot(gs[i]),
                    ) == binding_of(kv0, sub_slot(gs[i])) by {
                        if i < gs.len() - 1 {
                            assert(rest[i] == gs[i]);
                        }
                    }
                }
                assert(some_allow(gs) ==> some_allow(rest)) by {
                    if some_allow(gs) {
                        let i = choose|i: int| 0 <= i < gs.len() && gs[i] is AllowRw;
                        assert(i < gs.len() - 1);
                        assert(rest[i] is AllowRw);
                    }
                }
                assert(forall|s: UpcallSlot|
                    !some_sub_on(gs, s) ==> #[trigger] binding_of(u.kv, s) == binding_of(
                        kv1,
                        s,
                    )) by {
                    assert forall|s: UpcallSlot| !some_sub_on(gs, s) implies #[trigger] binding_of(
                        u.kv,
                        s,
                    ) == binding_of(kv1, s) by {
                        assert(!is_sub_on(gs[gs.len() - 1], s));
                        assert(s != slot);
                        assert(!some_sub_on(rest, s)) by {
                            if some_sub_on(rest, s) {
                                let i = choose|i: int|
                                    0 <= i < rest.len() && is_sub_on(rest[i], s);
                                assert(is_sub_on(gs[i], s));
                            }
                        }
                        assert(binding_of(kvm, s) == binding_of(kv1, s));
                    }
                }
            },
            GrantV::AllowRw { driver_num, buffer_num, displaced } => {
                assert(kvm.rng->Some_0.buffer == kv0.rng->Some_0.buffer);
                assert(!some_allow(rest)) by {
                    if some_allow(rest) {
                        let i = choose|i: int| 0 <= i < rest.len() && rest[i] is AllowRw;
                        assert(gs[i] is AllowRw && gs[gs.len() - 1] is AllowRw);
                    }
                }
                assert(u.kv.rng == kvm.rng);
                assert(forall|i: int|
                    0 <= i < gs.len() && #[trigger] gs[i] is Subscription ==> binding_of(
                        u.kv,
                        sub_slot(gs[i]),
                    ) == binding_of(kv0, sub_slot(gs[i]))) by {
                    assert forall|i: int|
                        0 <= i < gs.len() && #[trigger] gs[i] is Subscription implies binding_of(
                        u.kv,
                        sub_slot(gs[i]),
                    ) == binding_of(kv0, sub_slot(gs[i])) by {
                        assert(i < gs.len() - 1);
                        assert(rest[i] == gs[i]);
                    }
                }
                assert(forall|s: UpcallSlot|
                    !some_sub_on(gs, s) ==> #[trigger] binding_of(u.kv, s) == binding_of(
                        kv1,
                        s,
                    )) by {
                    assert forall|s: UpcallSlot| !some_sub_on(gs, s) implies #[trigger] binding_of(
                        u.kv,
                        s,
                    ) == binding_of(kv1, s) by {
                        assert(!some_sub_on(rest, s)) by {
                            if some_sub_on(rest, s) {
                                let i = choose|i: int|
                                    0 <= i < rest.len() && is_sub_on(rest[i], s);
                                assert(is_sub_on(gs[i], s));
                            }
                        }
                        assert(binding_of(kvm, s) == binding_of(kv1, s));
                    }
                }
            },
        }
    }
}

} // verus!
