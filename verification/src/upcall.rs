//! Upcall slots, listeners, the pending-upcall queue entries, and the
//! registry that binds a listener to a subscription slot.
//!
//! A subscription slot holds at most one listener at any time. Rebinding a
//! slot atomically replaces the prior listener, which is handed back to the
//! caller and from then on receives no further deliveries. Delivering a
//! payload to a slot with no bound listener silently discards the event,
//! matching real hardware semantics where unobserved events are lost.

use vstd::prelude::*;

verus! {

/// Identifies a subscription slot: a (driver number, subscribe number) pair.
#[derive(Clone, Copy, Debug, PartialEq, Eq, Structural)]
pub struct UpcallSlot {
    pub driver_num: u32,
    pub subscribe_num: u32,
}

/// The 3-word payload a kernel-side event delivers to a listener.
#[derive(Clone, Copy, Debug, PartialEq, Eq, Structural)]
pub struct UpcallRecord {
    pub arg0: u32,
    pub arg1: u32,
    pub arg2: u32,
}

/// A pending upcall: a payload enqueued for a slot, awaiting a yield point.
#[derive(Clone, Copy, Debug, PartialEq, Eq, Structural)]
pub struct PendingUpcall {
    pub slot: UpcallSlot,
    pub record: UpcallRecord,
}

/// A callback endpoint. The `id` tells listeners apart; `received` is the
/// ordered history of payloads delivered while the listener was bound.
#[derive(Debug, PartialEq, Eq)]
pub struct Listener {
    pub id: u32,
    pub received: Vec<UpcallRecord>,
}

/// The mathematical model of a [`Listener`].
#[verifier::ext_equal]
pub ghost struct ListenerV {
    pub id: u32,
    pub received: Seq<UpcallRecord>,
}

impl View for Listener {
    type V = ListenerV;

    open spec fn view(&self) -> ListenerV {
        ListenerV { id: self.id, received: self.received@ }
    }
}

impl Listener {
    /// A fresh listener that has received nothing yet.
    pub fn new(id: u32) -> (l: Listener)
        ensures
            l@ == (ListenerV { id, received: Seq::<UpcallRecord>::empty() }),
    {
        Listener { id, received: Vec::new() }
    }

    /// The most recent payload delivered to this listener, if any.
    pub fn last_received(&self) -> (r: Option<UpcallRecord>)
        ensures
            r == listener_last(self@),
    {
        let n = self.received.len();
        if n == 0 {
            None
        } else {
            Some(self.received[n - 1])
        }
    }
}

/// The most recent payload in a listener's history.
pub open spec fn listener_last(l: ListenerV) -> Option<UpcallRecord> {
    if l.received.len() > 0 {
        Some(l.received.last())
    } else {
        None
    }
}

/// Delivering one payload to a slot of a binding map: if a listener is
/// bound there, the payload is appended to its history; otherwise the event
/// is discarded and the map is unchanged.
pub open spec fn spec_deliver(
    m: Map<UpcallSlot, ListenerV>,
    slot: UpcallSlot,
    record: UpcallRecord,
) -> Map<UpcallSlot, ListenerV> {
    if m.contains_key(slot) {
        m.insert(slot, ListenerV { id: m[slot].id, received: m[slot].received.push(record) })
    } else {
        m
    }
}

/// Delivering a queue of pending upcalls, front first.
pub open spec fn spec_deliver_all(
    m: Map<UpcallSlot, ListenerV>,
    es: Seq<PendingUpcall>,
) -> Map<UpcallSlot, ListenerV>
    decreases es.len(),
{
    if es.len() == 0 {
        m
    } else {
        spec_deliver_all(spec_deliver(m, es.first().slot, es.first().record), es.drop_first())
    }
}

/// The payloads a queue holds for one slot, in queue order.
pub open spec fn records_for(es: Seq<PendingUpcall>, slot: UpcallSlot) -> Seq<UpcallRecord>
    decreases es.len(),
{
    if es.len() == 0 {
        Seq::empty()
    } else {
        (if es.first().slot == slot {
            seq![es.first().record]
        } else {
            Seq::empty()
        }) + records_for(es.drop_first(), slot)
    }
}

/// True when no queued entry targets the given slot.
pub open spec fn no_pending_for(es: Seq<PendingUpcall>, slot: UpcallSlot) -> bool {
    forall|i: int| 0 <= i < es.len() ==> es[i].slot != slot
}

struct RegistryEntry {
    slot: UpcallSlot,
    listener: Listener,
}

/// Binds each subscription slot to at most one listener.
pub struct UpcallRegistry {
    entries: Vec<RegistryEntry>,
}

spec fn unique_slots(s: Seq<RegistryEntry>) -> bool {
    forall|i: int, j: int| 0 <= i < j < s.len() ==> s[i].slot != s[j].slot
}

spec fn entries_map(s: Seq<RegistryEntry>) -> Map<UpcallSlot, ListenerV>
    decreases s.len(),
{
    if s.len() == 0 {
        Map::empty()
    } else {
        entries_map(s.drop_last()).insert(s.last().slot, s.last().listener@)
    }
}

impl View for UpcallRegistry {
    type V = Map<UpcallSlot, ListenerV>;

    closed spec fn view(&self) -> Map<UpcallSlot, ListenerV> {
        entries_map(self.entries@)
    }
}

proof fn lemma_entries_map_contains(s: Seq<RegistryEntry>, slot: UpcallSlot)
    ensures
        entries_map(s).contains_key(slot) <==> (exists|i: int|
            0 <= i < s.len() && s[i].slot == slot),
    decreases s.len(),
{
    if s.len() == 0 {
    } else {
        lemma_entries_map_contains(s.drop_last(), slot);
        if s.last().slot == slot {
            assert(s[s.len() - 1].slot == slot);
        } else {
            if entries_map(s).contains_key(slot) {
                let i = choose|i: int| 0 <= i < s.drop_last().len() && s.drop_last()[i].slot
                    == slot;
                assert(s[i].slot == slot);
            }
            if exists|i: int| 0 <= i < s.len() && s[i].slot == slot {
                let i = choose|i: int| 0 <= i < s.len() && s[i].slot == slot;
                assert(i < s.len() - 1);
                assert(s.drop_last()[i].slot == slot);
            }
        }
    }
}

proof fn lemma_entries_map_value(s: Seq<RegistryEntry>, i: int)
    requires
        unique_slots(s),
        0 <= i < s.len(),
    ensures
        entries_map(s).contains_key(s[i].slot),
        entries_map(s)[s[i].slot] == s[i].listener@,
    decreases s.len(),
{
    if i == s.len() - 1 {
    } else {
        assert(unique_slots(s.drop_last())) by {
            assert(forall|a: int, b: int|
                0 <= a < b < s.drop_last().len() ==> s.drop_last()[a] == s[a] && s.drop_last()[b]
                    == s[b]);
        }
        assert(s.drop_last()[i] == s[i]);
        lemma_entries_map_value(s.drop_last(), i);
        assert(s.last().slot != s[i].slot);
    }
}

proof fn lemma_entries_map_remove(s: Seq<RegistryEntry>, i: int)
    requires
        unique_slots(s),
        0 <= i < s.len(),
    ensures
        entries_map(s.remove(i)) =~= entries_map(s).remove(s[i].slot),
    decreases s.len(),
{
    if i == s.len() - 1 {
        assert(s.remove(i) =~= s.drop_last());
        lemma_entries_map_contains(s.drop_last(), s[i].slot);
        assert(forall|j: int|
            0 <= j < s.drop_last().len() ==> s.drop_last()[j] == s[j] && s[j].slot != s[i].slot);
        assert(!entries_map(s.drop_last()).contains_key(s[i].slot));
        assert(entries_map(s.drop_last()) =~= entries_map(s.drop_last()).insert(
            s[i].slot,
            s[i].listener@,
        ).remove(s[i].slot));
    } else {
        assert(unique_slots(s.drop_last())) by {
            assert(forall|a: int, b: int|
                0 <= a < b < s.drop_last().len() ==> s.drop_last()[a] == s[a] && s.drop_last()[b]
                    == s[b]);
        }
        assert(s.remove(i).drop_last() =~= s.drop_last().remove(i));
        assert(s.remove(i).last() == s.last());
        lemma_entries_map_remove(s.drop_last(), i);
        assert(s.last().slot != s[i].slot);
        assert(s.drop_last()[i] == s[i]);
        assert(entries_map(s.remove(i)) =~= entries_map(s.drop_last()).remove(s[i].slot).insert(
            s.last().slot,
            s.last().listener@,
        ));
        assert(entries_map(s.drop_last()).remove(s[i].slot).insert(
            s.last().slot,
            s.last().listener@,
        ) =~= entries_map(s).remove(s[i].slot));
    }
}

proof fn lemma_entries_map_push(s: Seq<RegistryEntry>, e: RegistryEntry)
    ensures
        entries_map(s.push(e)) == entries_map(s).insert(e.slot, e.listener@),
{
    assert(s.push(e).drop_last() =~= s);
    assert(s.push(e).last() == e);
}

impl UpcallRegistry {
    /// Well-formed: each slot is bound at most once.
    pub closed spec fn wf(&self) -> bool {
        unique_slots(self.entries@)
    }

    /// An empty registry: no slot is bound.
    pub fn new() -> (r: UpcallRegistry)
        ensures
            r.wf(),
            r@ == Map::<UpcallSlot, ListenerV>::empty(),
    {
        UpcallRegistry { entries: Vec::new() }
    }

    fn find_index(&self, slot: UpcallSlot) -> (r: Option<usize>)
        ensures
            match r {
                Some(i) => i < self.entries@.len() && self.entries@[i as int].slot == slot,
                None => forall|j: int| 0 <= j < self.entries@.len() ==> self.entries@[j].slot != slot,
            },
    {
        let mut i: usize = 0;
        while i < self.entries.len()
            invariant
                i <= self.entries@.len(),
                forall|j: int| 0 <= j < i ==> self.entries@[j].slot != slot,
            decreases self.entries@.len() - i,
        {
            if self.entries[i].slot == slot {
                return Some(i);
            }
            i = i + 1;
        }
        None
    }

    /// Binds `listener` to `slot`, atomically replacing and returning any
    /// listener bound there before.
    pub fn register(&mut self, slot: UpcallSlot, listener: Listener) -> (prior: Option<Listener>)
        requires
            old(self).wf(),
        ensures
            final(self).wf(),
            final(self)@ == old(self)@.insert(slot, listener@),
            match prior {
                Some(l) => old(self)@.contains_key(slot) && l@ == old(self)@[slot],
                None => !old(self)@.contains_key(slot),
            },
    {
        let ghost s0 = self.entries@;
        match self.find_index(slot) {
            Some(i) => {
                let prior_entry = self.entries.remove(i);
                self.entries.push(RegistryEntry { slot, listener });
                proof {
                    lemma_entries_map_value(s0, i as int);
                    lemma_entries_map_remove(s0, i as int);
                    lemma_entries_map_push(s0.remove(i as int), RegistryEntry { slot, listener });
                    assert(forall|j: int|
                        0 <= j < s0.remove(i as int).len() ==> s0.remove(i as int)[j].slot != slot);
                    assert(unique_slots(self.entries@));
                    assert(final(self)@ =~= old(self)@.insert(slot, listener@));
                }
                Some(prior_entry.listener)
            },
            None => {
                self.entries.push(RegistryEntry { slot, listener });
                proof {
                    lemma_entries_map_contains(s0, slot);
                    lemma_entries_map_push(s0, RegistryEntry { slot, listener });
                    assert(unique_slots(self.entries@));
                }
                None
            },
        }
    }

    /// Clears the binding for `slot`, returning the listener that was bound.
    pub fn unregister(&mut self, slot: UpcallSlot) -> (prior: Option<Listener>)
        requires
            old(self).wf(),
        ensures
            final(self).wf(),
            final(self)@ == old(self)@.remove(slot),
            match prior {
                Some(l) => old(self)@.contains_key(slot) && l@ == old(self)@[slot],
                None => !old(self)@.contains_key(slot),
            },
    {
        let ghost s0 = self.entries@;
        match self.find_index(slot) {
            Some(i) => {
                let prior_entry = self.entries.remove(i);
                proof {
                    lemma_entries_map_value(s0, i as int);
                    lemma_entries_map_remove(s0, i as int);
                    assert(unique_slots(self.entries@));
                    assert(final(self)@ =~= old(self)@.remove(slot));
                }
                Some(prior_entry.listener)
            },
            None => {
                proof {
                    lemma_entries_map_contains(s0, slot);
                    assert(final(self)@ =~= old(self)@.remove(slot));
                }
                None
            },
        }
    }

    /// Delivers a payload to the listener bound to `slot`, if any; an event
    /// for an unbound slot is silently discarded. Returns whether a listener
    /// was invoked.
    pub fn deliver(&mut self, slot: UpcallSlot, record: UpcallRecord) -> (delivered: bool)
        requires
            old(self).wf(),
        ensures
            final(self).wf(),
            final(self)@ == spec_deliver(old(self)@, slot, record),
            delivered == old(self)@.contains_key(slot),
    {
        let ghost s0 = self.entries@;
        match self.find_index(slot) {
            Some(i) => {
                let mut entry = self.entries.remove(i);
                entry.listener.received.push(record);
                let ghost e2 = entry;
                self.entries.push(entry);
                proof {
                    lemma_entries_map_value(s0, i as int);
                    lemma_entries_map_remove(s0, i as int);
                    lemma_entries_map_push(s0.remove(i as int), e2);
                    assert(forall|j: int|
                        0 <= j < s0.remove(i as int).len() ==> s0.remove(i as int)[j].slot != slot);
                    assert(unique_slots(self.entries@));
                    assert(final(self)@ =~= spec_deliver(old(self)@, slot, record));
                }
                true
            },
            None => {
                proof {
                    lemma_entries_map_contains(s0, slot);
                }
                false
            },
        }
    }

    /// The most recent payload delivered to the listener bound to `slot`,
    /// or `None` when the slot is unbound or nothing was delivered yet.
    pub fn last_for(&self, slot: UpcallSlot) -> (r: Option<UpcallRecord>)
        requires
            self.wf(),
        ensures
            r == (if self@.contains_key(slot) {
                listener_last(self@[slot])
            } else {
                None::<UpcallRecord>
            }),
    {
        match self.find_index(slot) {
            Some(i) => {
                proof {
                    lemma_entries_map_value(self.entries@, i as int);
                }
                self.entries[i].listener.last_received()
            },
            None => {
                proof {
                    lemma_entries_map_contains(self.entries@, slot);
                }
                None
            },
        }
    }

    /// Whether any listener is bound to `slot`.
    pub fn is_bound(&self, slot: UpcallSlot) -> (r: bool)
        requires
            self.wf(),
        ensures
            r == self@.contains_key(slot),
    {
        let found = self.find_index(slot);
        proof {
            lemma_entries_map_contains(self.entries@, slot);
            if found is Some {
                let i = found->Some_0;
                assert(self.entries@[i as int].slot == slot);
            }
        }
        found.is_some()
    }
}

/// Delivering a queue entry by entry equals delivering the queue and then
/// one more entry at its back.
pub proof fn lemma_deliver_all_push(
    m: Map<UpcallSlot, ListenerV>,
    es: Seq<PendingUpcall>,
    e: PendingUpcall,
)
    ensures
        spec_deliver_all(m, es.push(e)) == spec_deliver(spec_deliver_all(m, es), e.slot, e.record),
    decreases es.len(),
{
    if es.len() == 0 {
        assert(es.push(e).first() == e);
        let empty = Seq::<PendingUpcall>::empty();
        assert(es.push(e).drop_first() =~= empty);
        assert(spec_deliver_all(m, es.push(e)) == spec_deliver_all(
            spec_deliver(m, e.slot, e.record),
            empty,
        ));
        assert(spec_deliver_all(spec_deliver(m, e.slot, e.record), empty) == spec_deliver(
            m,
            e.slot,
            e.record,
        ));
        assert(spec_deliver_all(m, es) == m);
    } else {
        let f = es.first();
        let m1 = spec_deliver(m, f.slot, f.record);
        assert(es.push(e).first() == f);
        assert(es.push(e).drop_first() =~= es.drop_first().push(e));
        assert(spec_deliver_all(m, es.push(e)) == spec_deliver_all(m1, es.drop_first().push(e)));
        lemma_deliver_all_push(m1, es.drop_first(), e);
        assert(spec_deliver_all(m, es) == spec_deliver_all(m1, es.drop_first()));
    }
}

/// A slot no queued entry targets keeps its binding through a drain.
pub proof fn lemma_deliver_all_frame(
    m: Map<UpcallSlot, ListenerV>,
    es: Seq<PendingUpcall>,
    slot: UpcallSlot,
)
    requires
        no_pending_for(es, slot),
    ensures
        spec_deliver_all(m, es).contains_key(slot) == m.contains_key(slot),
        m.contains_key(slot) ==> spec_deliver_all(m, es)[slot] == m[slot],
    decreases es.len(),
{
    if es.len() == 0 {
    } else {
        assert(es[0] == es.first());
        assert(forall|i: int| 0 <= i < es.drop_first().len() ==> es.drop_first()[i] == es[i + 1]);
        lemma_deliver_all_frame(spec_deliver(m, es.first().slot, es.first().record), es.drop_first(), slot);
    }
}

/// Law: rebinding a slot to a new listener causes all subsequent deliveries
/// for that slot to reach only the new listener. Whatever queue is then
/// drained, the slot ends bound to the new listener's identity, and its
/// history is the new listener's history extended by exactly the payloads
/// queued for that slot, in order. The replaced listener was handed back to
/// the caller at rebind time, so no delivery can reach it at all.
pub proof fn lemma_rebind_redirects_deliveries(
    m: Map<UpcallSlot, ListenerV>,
    slot: UpcallSlot,
    l2: ListenerV,
    es: Seq<PendingUpcall>,
)
    ensures
        spec_deliver_all(m.insert(slot, l2), es).contains_key(slot),
        spec_deliver_all(m.insert(slot, l2), es)[slot].id == l2.id,
        spec_deliver_all(m.insert(slot, l2), es)[slot].received =~= l2.received + records_for(
            es,
            slot,
        ),
    decreases es.len(),
{
    let m1 = m.insert(slot, l2);
    if es.len() == 0 {
        assert(records_for(es, slot) =~= Seq::<UpcallRecord>::empty());
        assert(l2.received + records_for(es, slot) =~= l2.received);
    } else {
        let e = es.first();
        if e.slot == slot {
            let l2p = ListenerV { id: l2.id, received: l2.received.push(e.record) };
            assert(spec_deliver(m1, e.slot, e.record) =~= m.insert(slot, l2p));
            lemma_rebind_redirects_deliveries(m, slot, l2p, es.drop_first());
            assert(l2p.received + records_for(es.drop_first(), slot) =~= l2.received + records_for(
                es,
                slot,
            ));
        } else {
            let m2 = spec_deliver(m, e.slot, e.record);
            assert(spec_deliver(m1, e.slot, e.record) =~= m2.insert(slot, l2));
            lemma_rebind_redirects_deliveries(m2, slot, l2, es.drop_first());
            assert(records_for(es.drop_first(), slot) =~= records_for(es, slot));
        }
    }
}

} // verus!
