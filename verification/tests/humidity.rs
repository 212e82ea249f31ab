use libtock::error_code::ErrorCode;
use libtock::fake::humidity::Humidity as FakeHumidity;
use libtock::fake::kernel::Kernel;
use libtock::fake::kernel::YieldNoWaitReturn;
use libtock::fake::Driver;
use libtock::humidity::Humidity;
use libtock::humidity::DRIVER_NUM;
use libtock::scope::Scope;
use libtock::upcall::Listener;
use libtock::upcall::UpcallRecord;
use libtock::upcall::UpcallSlot;

#[test]
fn no_driver() {
    let mut kernel = Kernel::new();
    assert_eq!(Humidity::driver_exists(&mut kernel), Err(ErrorCode::NoDevice));
}

#[test]
fn driver_check() {
    let mut kernel = Kernel::new();
    kernel.add_driver(Driver::Humidity(FakeHumidity::new()));

    assert_eq!(Humidity::driver_exists(&mut kernel), Ok(()));
}

#[test]
fn read_humidity() {
    let mut kernel = Kernel::new();
    kernel.add_driver(Driver::Humidity(FakeHumidity::new()));

    assert_eq!(Humidity::read(&mut kernel), Ok(()));
    assert!(kernel.humidity_is_busy());

    assert_eq!(Humidity::read(&mut kernel), Err(ErrorCode::Busy));
    assert_eq!(Humidity::read_sync(&mut kernel), Err(ErrorCode::Busy));
}

#[test]
fn register_unregister_listener() {
    let mut kernel = Kernel::new();
    kernel.add_driver(Driver::Humidity(FakeHumidity::new()));
    let slot = UpcallSlot { driver_num: DRIVER_NUM, subscribe_num: 0 };

    // An event fired with no listener bound is silently discarded.
    assert_eq!(Humidity::read(&mut kernel), Ok(()));
    kernel.humidity_set_value(100);
    assert_eq!(kernel.yield_no_wait(), YieldNoWaitReturn::NoUpcall);

    let mut scope = Scope::new();
    assert_eq!(
        Humidity::register_listener(&mut kernel, &mut scope, Listener::new(1)),
        Ok(())
    );
    assert_eq!(Humidity::read(&mut kernel), Ok(()));
    kernel.humidity_set_value(100);
    assert_eq!(kernel.yield_no_wait(), YieldNoWaitReturn::Upcall);
    assert_eq!(
        kernel.peek_upcall(slot),
        Some(UpcallRecord { arg0: 100, arg1: 0, arg2: 0 })
    );

    Humidity::unregister_listener(&mut kernel);
    assert_eq!(Humidity::read(&mut kernel), Ok(()));
    kernel.humidity_set_value(100);
    assert_eq!(kernel.yield_no_wait(), YieldNoWaitReturn::NoUpcall);

    let out = scope.exit(&mut kernel);
    assert_eq!(out.listeners.len() + out.buffers.len(), 1);
}

#[test]
fn read_humidity_sync() {
    let mut kernel = Kernel::new();
    kernel.add_driver(Driver::Humidity(FakeHumidity::new()));

    kernel.humidity_set_value_sync(1000);
    assert_eq!(Humidity::read_sync(&mut kernel), Ok(1000));
}

#[test]
fn read_sync_without_driver_skips_wait_loop() {
    // With no stub registered, the blocking wrapper fails its setup and
    // returns at once, leaving nothing bound and nothing pending.
    let mut kernel = Kernel::new();
    assert_eq!(Humidity::read_sync(&mut kernel), Err(ErrorCode::NoDevice));
    assert_eq!(kernel.yield_no_wait(), YieldNoWaitReturn::NoUpcall);
}
