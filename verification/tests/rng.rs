use libtock::error_code::ErrorCode;
use libtock::fake::kernel::Kernel;
use libtock::fake::kernel::YieldNoWaitReturn;
use libtock::fake::rng::Rng as FakeRng;
use libtock::fake::Driver;
use libtock::rng::Rng;
use libtock::rng::DRIVER_NUM;
use libtock::scope::Scope;
use libtock::upcall::Listener;
use libtock::upcall::UpcallRecord;
use libtock::upcall::UpcallSlot;

#[test]
fn tests_no_driver() {
    let mut kernel = Kernel::new();
    assert_eq!(Rng::driver_exists(&mut kernel), Err(ErrorCode::NoDevice));
}

#[test]
fn tests_driver_check() {
    let mut kernel = Kernel::new();
    kernel.add_driver(Driver::Rng(FakeRng::new()));

    assert_eq!(Rng::driver_exists(&mut kernel), Ok(()));
}

#[test]
fn get_random() {
    let mut kernel = Kernel::new();
    kernel.add_driver(Driver::Rng(FakeRng::new()));
    let slot = UpcallSlot { driver_num: DRIVER_NUM, subscribe_num: 0 };

    let buf: Vec<u8> = vec![0; 10];
    let mut scope = Scope::new();

    assert!(Rng::set_buffer(&mut kernel, &mut scope, buf).is_ok());
    assert!(Rng::register_listener(&mut kernel, &mut scope, Listener::new(0)).is_ok());

    assert!(Rng::get_random(&mut kernel, 5).is_ok());

    kernel.rng_add_bytes(&vec![1, 2, 3]);

    assert_eq!(kernel.yield_no_wait(), YieldNoWaitReturn::NoUpcall);

    kernel.rng_add_bytes(&vec![4, 5, 6]);

    assert_eq!(kernel.yield_no_wait(), YieldNoWaitReturn::Upcall);

    assert_eq!(
        kernel.peek_upcall(slot),
        Some(UpcallRecord { arg0: 0, arg1: 5, arg2: 0 })
    );

    let mut out = scope.exit(&mut kernel);
    let buf = out.buffers.pop().unwrap();
    assert!(buf[..5].eq(&[1, 2, 3, 4, 5]));
}

#[test]
fn get_sync() {
    let mut kernel = Kernel::new();
    kernel.add_driver(Driver::Rng(FakeRng::new()));

    kernel.rng_add_bytes_sync(&vec![10, 20, 30, 40, 50]);

    let mut buf: Vec<u8> = vec![0; 10];

    assert_eq!(Rng::get_random_sync(&mut kernel, &mut buf, 5), Ok(5));
    assert!(buf[..5].eq(&[10, 20, 30, 40, 50]));

    kernel.rng_add_bytes_sync(&vec![1, 2, 3, 4, 5, 6, 7, 8, 9, 10, 11]);

    assert_eq!(Rng::get_random_sync(&mut kernel, &mut buf, 11), Ok(10));
}

#[test]
fn get_sync_without_driver_collapses_to_fail() {
    // A setup failure inside the blocking wrapper is collapsed into the
    // generic failure, and the caller's buffer comes back untouched.
    let mut kernel = Kernel::new();
    let mut buf: Vec<u8> = vec![7; 4];
    assert_eq!(
        Rng::get_random_sync(&mut kernel, &mut buf, 4),
        Err(ErrorCode::Fail)
    );
    assert_eq!(buf, vec![7; 4]);
}
