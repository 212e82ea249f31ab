//! Concrete checks of the library's stated laws: listener rebinding,
//! scope revocation, buffer round trips, FIFO delivery, and the
//! no-such-device rule.

use libtock::command_return::CommandReturn;
use libtock::error_code::ErrorCode;
use libtock::fake::humidity::Humidity as FakeHumidity;
use libtock::fake::kernel::Kernel;
use libtock::fake::kernel::YieldNoWaitReturn;
use libtock::fake::rng::Rng as FakeRng;
use libtock::fake::Driver;
use libtock::humidity::DRIVER_NUM as HUMIDITY_NUM;
use libtock::rng::DRIVER_NUM as RNG_NUM;
use libtock::rng::RW_ALLOW;
use libtock::scope::Scope;
use libtock::upcall::Listener;
use libtock::upcall::UpcallRecord;
use libtock::upcall::UpcallRegistry;
use libtock::upcall::UpcallSlot;

fn record(arg0: u32, arg1: u32, arg2: u32) -> UpcallRecord {
    UpcallRecord { arg0, arg1, arg2 }
}

// Rebinding a slot from one listener to another: the replaced listener is
// handed back untouched, and every subsequent delivery reaches only the
// new listener.
#[test]
fn rebinding_redirects_deliveries() {
    let slot = UpcallSlot { driver_num: HUMIDITY_NUM, subscribe_num: 0 };
    let mut registry = UpcallRegistry::new();

    assert!(registry.register(slot, Listener::new(1)).is_none());
    assert!(registry.deliver(slot, record(10, 0, 0)));

    // Rebind: the first listener comes back with exactly what it saw.
    let first = registry.register(slot, Listener::new(2)).unwrap();
    assert_eq!(first.id, 1);
    assert_eq!(first.received, vec![record(10, 0, 0)]);

    assert!(registry.deliver(slot, record(20, 0, 0)));
    assert!(registry.deliver(slot, record(30, 0, 0)));

    // The replaced listener saw nothing more; the new one saw everything
    // delivered since the rebind.
    assert_eq!(first.received, vec![record(10, 0, 0)]);
    let second = registry.unregister(slot).unwrap();
    assert_eq!(second.id, 2);
    assert_eq!(second.received, vec![record(20, 0, 0), record(30, 0, 0)]);
}

// A scope that made k grants revokes exactly k on exit, and the slot and
// buffer state return to their pre-scope values.
#[test]
fn scope_exit_revokes_exactly_its_grants() {
    let mut kernel = Kernel::new();
    kernel.add_driver(Driver::Humidity(FakeHumidity::new()));
    kernel.add_driver(Driver::Rng(FakeRng::new()));
    let slot = UpcallSlot { driver_num: HUMIDITY_NUM, subscribe_num: 0 };

    // Pre-scope state: a listener on the humidity slot, a buffer with the
    // random number generator.
    assert!(kernel.subscribe(HUMIDITY_NUM, 0, Listener::new(9)).is_ok());
    assert!(kernel.allow_readwrite(RNG_NUM, RW_ALLOW, vec![42, 43]).is_ok());

    let mut scope = Scope::new();
    assert!(scope.subscribe(&mut kernel, HUMIDITY_NUM, 0, Listener::new(1)).is_ok());
    assert!(scope.allow_readwrite(&mut kernel, RNG_NUM, RW_ALLOW, vec![0; 8]).is_ok());
    assert_eq!(scope.grant_count(), 2);

    let out = scope.exit(&mut kernel);
    assert_eq!(out.listeners.len() + out.buffers.len(), 2);

    // The slot holds the pre-scope listener again.
    let restored = kernel.unsubscribe(HUMIDITY_NUM, 0).unwrap();
    assert_eq!(restored.id, 9);

    // The driver holds the pre-scope buffer again.
    let restored_buf = kernel.allow_readwrite(RNG_NUM, RW_ALLOW, Vec::new()).unwrap();
    assert_eq!(restored_buf, vec![42, 43]);
}

// A scope whose setup fails midway rolls back exactly the grants it had
// made before the error: here one of one.
#[test]
fn scope_rolls_back_after_failed_grant() {
    let mut kernel = Kernel::new();
    kernel.add_driver(Driver::Rng(FakeRng::new()));

    let mut scope = Scope::new();
    assert!(scope.allow_readwrite(&mut kernel, RNG_NUM, RW_ALLOW, vec![5, 6]).is_ok());
    // The second grant fails: no driver serves the humidity number.
    assert_eq!(
        scope.subscribe(&mut kernel, HUMIDITY_NUM, 0, Listener::new(1)),
        Err(ErrorCode::NoDevice)
    );
    assert_eq!(scope.grant_count(), 1);

    let out = scope.exit(&mut kernel);
    assert_eq!(out.listeners.len() + out.buffers.len(), 1);
    let restored_buf = kernel.allow_readwrite(RNG_NUM, RW_ALLOW, Vec::new()).unwrap();
    assert_eq!(restored_buf, Vec::<u8>::new());
}

// Allowing one buffer and then another returns the first buffer on the
// second call.
#[test]
fn allow_returns_previously_held_buffer() {
    let mut rng = FakeRng::new();
    assert_eq!(rng.allow_readwrite(RW_ALLOW, vec![1, 2, 3]), Ok(Vec::new()));
    assert_eq!(rng.allow_readwrite(RW_ALLOW, vec![4, 5]), Ok(vec![1, 2, 3]));

    let mut kernel = Kernel::new();
    kernel.add_driver(Driver::Rng(FakeRng::new()));
    assert_eq!(
        kernel.allow_readwrite(RNG_NUM, RW_ALLOW, vec![7, 8]),
        Ok(Vec::new())
    );
    assert_eq!(
        kernel.allow_readwrite(RNG_NUM, RW_ALLOW, Vec::new()),
        Ok(vec![7, 8])
    );
}

// Two upcalls enqueued on one slot are delivered in enqueue order by two
// non-blocking yields.
#[test]
fn yield_no_wait_delivers_in_fifo_order() {
    let mut kernel = Kernel::new();
    kernel.add_driver(Driver::Humidity(FakeHumidity::new()));
    let slot = UpcallSlot { driver_num: HUMIDITY_NUM, subscribe_num: 0 };

    assert!(kernel.subscribe(HUMIDITY_NUM, 0, Listener::new(1)).is_ok());

    assert!(kernel.command(HUMIDITY_NUM, 1, 0, 0).is_success());
    kernel.humidity_set_value(111);
    assert!(kernel.command(HUMIDITY_NUM, 1, 0, 0).is_success());
    kernel.humidity_set_value(222);

    assert_eq!(kernel.yield_no_wait(), YieldNoWaitReturn::Upcall);
    assert_eq!(kernel.peek_upcall(slot), Some(record(111, 0, 0)));
    assert_eq!(kernel.yield_no_wait(), YieldNoWaitReturn::Upcall);
    assert_eq!(kernel.peek_upcall(slot), Some(record(222, 0, 0)));

    let listener = kernel.unsubscribe(HUMIDITY_NUM, 0).unwrap();
    assert_eq!(listener.received, vec![record(111, 0, 0), record(222, 0, 0)]);
}

// Every syscall against an unregistered driver number fails with
// `NoDevice` and never succeeds.
#[test]
fn unregistered_driver_number_returns_no_device() {
    let mut kernel = Kernel::new();
    kernel.add_driver(Driver::Humidity(FakeHumidity::new()));

    let unknown: u32 = 0x99999;
    assert_eq!(
        kernel.command(unknown, 0, 0, 0),
        CommandReturn::Failure(ErrorCode::NoDevice)
    );
    assert_eq!(
        kernel.subscribe(unknown, 0, Listener::new(1)),
        Err(ErrorCode::NoDevice)
    );
    assert_eq!(
        kernel.allow_readwrite(unknown, 0, vec![1]),
        Err((vec![1], ErrorCode::NoDevice))
    );

    // The same holds for a known driver number with no stub installed.
    assert_eq!(
        kernel.command(RNG_NUM, 0, 0, 0),
        CommandReturn::Failure(ErrorCode::NoDevice)
    );
    assert_eq!(
        kernel.subscribe(RNG_NUM, 0, Listener::new(1)),
        Err(ErrorCode::NoDevice)
    );
}

// A wait that is woken by another slot's upcall re-checks its own slot:
// the foreign upcall goes to its own listener and the blocking read still
// returns its own value.
#[test]
fn foreign_upcall_wakes_but_does_not_satisfy_wait() {
    let mut kernel = Kernel::new();
    kernel.add_driver(Driver::Humidity(FakeHumidity::new()));
    kernel.add_driver(Driver::Rng(FakeRng::new()));
    let rng_slot = UpcallSlot { driver_num: RNG_NUM, subscribe_num: 0 };

    // Leave one pending upcall on the rng slot, with a listener bound.
    assert!(kernel.allow_readwrite(RNG_NUM, RW_ALLOW, vec![0; 2]).is_ok());
    assert!(kernel.subscribe(RNG_NUM, 0, Listener::new(5)).is_ok());
    kernel.rng_add_bytes_sync(&vec![1, 2]);
    assert!(kernel.command(RNG_NUM, 1, 2, 0).is_success());

    // The blocking humidity read must drain the rng upcall first, then
    // find its own.
    kernel.humidity_set_value_sync(77);
    assert_eq!(libtock::humidity::Humidity::read_sync(&mut kernel), Ok(77));

    assert_eq!(kernel.peek_upcall(rng_slot), Some(record(0, 2, 0)));
    let rng_listener = kernel.unsubscribe(RNG_NUM, 0).unwrap();
    assert_eq!(rng_listener.received, vec![record(0, 2, 0)]);
}
