use libtock::fake::kernel::Kernel;
use libtock::fake::kernel::YieldNoWaitReturn;
use libtock::fake::rng::Rng;
use libtock::fake::rng::ASK_FOR_RANDOM_BYTES;
use libtock::fake::rng::DRIVER_NUM;
use libtock::fake::rng::EXISTS;
use libtock::fake::rng::RW_ALLOW;
use libtock::fake::Driver;
use libtock::upcall::Listener;
use libtock::upcall::UpcallRecord;
use libtock::upcall::UpcallSlot;

// Test the command implementation.
#[test]
fn command() {
    let mut rng = Rng::new();
    assert!(rng.command(EXISTS, 0, 0).0.is_success());
    assert!(rng.command(ASK_FOR_RANDOM_BYTES, 7, 0).0.is_success());
    assert!(rng.command(ASK_FOR_RANDOM_BYTES, 5, 0).0.is_success());

    assert!(rng.allow_readwrite(RW_ALLOW, Vec::new()).is_ok());
    assert!(rng.allow_readwrite(1, Vec::new()).is_err());
}

// Integration test that verifies the stub works through the fake kernel's
// whole syscall surface.
#[test]
fn kernel_integration() {
    let mut kernel = Kernel::new();
    kernel.add_driver(Driver::Rng(Rng::new()));
    assert!(kernel.command(DRIVER_NUM, EXISTS, 1, 2).is_success());
    let slot = UpcallSlot { driver_num: DRIVER_NUM, subscribe_num: 0 };

    let buf: Vec<u8> = vec![0; 10];
    let buf_sync: Vec<u8> = vec![0; 3];

    assert!(kernel.allow_readwrite(DRIVER_NUM, RW_ALLOW, buf).is_ok());
    assert!(kernel.subscribe(DRIVER_NUM, 0, Listener::new(0)).is_ok());

    assert!(kernel.command(DRIVER_NUM, ASK_FOR_RANDOM_BYTES, 5, 0).is_success());

    kernel.rng_add_bytes(&vec![1, 2, 3]);

    assert_eq!(kernel.yield_no_wait(), YieldNoWaitReturn::NoUpcall);

    kernel.rng_add_bytes(&vec![4, 5, 6]);

    assert_eq!(kernel.yield_no_wait(), YieldNoWaitReturn::Upcall);

    assert_eq!(
        kernel.peek_upcall(slot),
        Some(UpcallRecord { arg0: 0, arg1: 5, arg2: 0 })
    );

    // Re-allowing hands the first buffer back, filled.
    let buf = match kernel.allow_readwrite(DRIVER_NUM, RW_ALLOW, buf_sync) {
        Ok(prev) => prev,
        Err((_, e)) => panic!("allow failed: {:?}", e),
    };

    kernel.rng_add_bytes_sync(&vec![6, 7, 8, 9]);
    assert!(kernel.command(DRIVER_NUM, ASK_FOR_RANDOM_BYTES, 5, 0).is_success());
    assert_eq!(kernel.yield_no_wait(), YieldNoWaitReturn::Upcall);

    // The second buffer is smaller than the number of random bytes
    // requested: the fill truncates and reports the count that fit.
    assert_eq!(
        kernel.peek_upcall(slot),
        Some(UpcallRecord { arg0: 0, arg1: 3, arg2: 0 })
    );

    assert!(buf[..5].eq(&[1, 2, 3, 4, 5]));
    let buf_sync = match kernel.allow_readwrite(DRIVER_NUM, RW_ALLOW, Vec::new()) {
        Ok(prev) => prev,
        Err((_, e)) => panic!("allow failed: {:?}", e),
    };
    assert_eq!(buf_sync, vec![6, 7, 8]);
}
