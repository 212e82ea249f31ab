//! Checks of the syscall surface's value types, the remaining driver
//! clients, and each error kind the boundary can report.

use libtock::adc::Adc;
use libtock::buzzer::Buzzer;
use libtock::command_return::CommandReturn;
use libtock::error_code::ErrorCode;
use libtock::fake::humidity::Humidity as FakeHumidity;
use libtock::fake::kernel::Kernel;
use libtock::fake::kernel::YieldNoWaitReturn;
use libtock::fake::rng::Rng as FakeRng;
use libtock::fake::Driver;
use libtock::humidity::DRIVER_NUM as HUMIDITY_NUM;
use libtock::rng::DRIVER_NUM as RNG_NUM;
use libtock::sound_pressure::SoundPressure;
use libtock::text_screen::TextScreen;
use libtock::touch::Touch;
use libtock::touch::TouchEvent;
use libtock::touch::TouchStatus;
use libtock::upcall::Listener;

#[test]
fn command_return_accessors() {
    assert!(CommandReturn::Success.is_success());
    assert!(!CommandReturn::SuccessU32(3).is_success());
    assert!(CommandReturn::Failure(ErrorCode::Busy).is_failure());
    assert_eq!(CommandReturn::SuccessU32(3).get_success_u32(), Some(3));
    assert_eq!(CommandReturn::Success.get_success_u32(), None);
    assert_eq!(CommandReturn::Success.to_result(), Ok(()));
    assert_eq!(
        CommandReturn::Failure(ErrorCode::NoSupport).to_result(),
        Err(ErrorCode::NoSupport)
    );
    assert_eq!(
        CommandReturn::SuccessU32(3).to_result(),
        Err(ErrorCode::Invalid)
    );
}

#[test]
fn touch_status_from_u32() {
    assert_eq!(TouchStatus::from_u32(0), TouchStatus::Released);
    assert_eq!(TouchStatus::from_u32(1), TouchStatus::Pressed);
    assert_eq!(TouchStatus::from_u32(2), TouchStatus::Moved);
    assert_eq!(TouchStatus::from_u32(3), TouchStatus::Unstarted);
    assert_eq!(TouchStatus::from_u32(0xFFFF_FFFF), TouchStatus::Unstarted);
}

#[test]
fn touch_event_decoding() {
    let event = TouchEvent::from_payload(1, 0x0005_0007, 0x0002_0003);
    assert_eq!(event.status, TouchStatus::Pressed);
    assert_eq!(event.x, 5);
    assert_eq!(event.y, 7);
    assert_eq!(event.area, Some(3));
    assert_eq!(event.pressure, Some(2));

    // Zero halves mean the panel does not report size or pressure.
    let bare = TouchEvent::from_payload(0, 0xFFFF_0000, 0);
    assert_eq!(bare.status, TouchStatus::Released);
    assert_eq!(bare.x, 0xFFFF);
    assert_eq!(bare.y, 0);
    assert_eq!(bare.area, None);
    assert_eq!(bare.pressure, None);
}

// Each error kind of the boundary, produced by an input that earns it.
#[test]
fn error_kinds_at_the_boundary() {
    let mut kernel = Kernel::new();
    kernel.add_driver(Driver::Humidity(FakeHumidity::new()));
    kernel.add_driver(Driver::Rng(FakeRng::new()));

    // NoDevice: a number nothing serves.
    assert_eq!(
        kernel.command(0x12345, 0, 0, 0),
        CommandReturn::Failure(ErrorCode::NoDevice)
    );
    // NoSupport: a command id the driver does not implement.
    assert_eq!(
        kernel.command(HUMIDITY_NUM, 99, 0, 0),
        CommandReturn::Failure(ErrorCode::NoSupport)
    );
    // Busy: a second read while one is outstanding.
    assert!(kernel.command(HUMIDITY_NUM, 1, 0, 0).is_success());
    assert_eq!(
        kernel.command(HUMIDITY_NUM, 1, 0, 0),
        CommandReturn::Failure(ErrorCode::Busy)
    );
    // Invalid: a subscription slot the driver does not expose, and a
    // buffer id it does not accept.
    assert_eq!(
        kernel.subscribe(HUMIDITY_NUM, 1, Listener::new(0)),
        Err(ErrorCode::Invalid)
    );
    assert_eq!(
        kernel.allow_readwrite(RNG_NUM, 7, vec![1]),
        Err((vec![1], ErrorCode::Invalid))
    );
    // NoSupport: a read-write allow on a driver without buffers.
    assert_eq!(
        kernel.allow_readwrite(HUMIDITY_NUM, 0, vec![2]),
        Err((vec![2], ErrorCode::NoSupport))
    );
}

// The clients whose drivers have no stub in the deterministic kernel:
// every call reports the missing device (or its collapsed form) and
// leaves the kernel unchanged.
#[test]
fn stubless_clients_report_missing_device() {
    let mut kernel = Kernel::new();
    kernel.add_driver(Driver::Humidity(FakeHumidity::new()));

    let mut count: u32 = 0;
    assert_eq!(Adc::count(&mut kernel, &mut count), Err(ErrorCode::Fail));
    assert_eq!(count, 0);
    assert_eq!(Adc::driver_exists(&mut kernel), Err(ErrorCode::Fail));

    assert_eq!(Buzzer::driver_check(&mut kernel), Err(ErrorCode::NoDevice));
    assert_eq!(Buzzer::tone(&mut kernel, 440, 100), Err(ErrorCode::NoDevice));
    assert_eq!(
        Buzzer::tone_sync(&mut kernel, 440, 100),
        Err(ErrorCode::NoDevice)
    );

    assert_eq!(
        SoundPressure::driver_exists(&mut kernel),
        Err(ErrorCode::NoDevice)
    );
    assert_eq!(
        SoundPressure::read_sound_pressure(&mut kernel),
        Err(ErrorCode::NoDevice)
    );
    // The blocking read collapses its setup failure into Busy.
    assert_eq!(
        SoundPressure::read_sound_pressure_sync(&mut kernel),
        Err(ErrorCode::Busy)
    );

    assert_eq!(
        TextScreen::driver_exists(&mut kernel),
        Err(ErrorCode::NoDevice)
    );
    assert_eq!(
        TextScreen::turn_display_on(&mut kernel),
        Err(ErrorCode::NoDevice)
    );
    assert_eq!(
        TextScreen::set_cursor(&mut kernel, 2, 3),
        Err(ErrorCode::NoDevice)
    );
    assert_eq!(
        TextScreen::get_resolution(&mut kernel),
        Err(ErrorCode::NoDevice)
    );

    assert_eq!(Touch::driver_exists(&mut kernel), Err(ErrorCode::NoDevice));
    assert_eq!(
        Touch::enable_single_touch(&mut kernel),
        Err(ErrorCode::NoDevice)
    );
    assert_eq!(
        Touch::wait_for_single_touch(&mut kernel),
        Err(ErrorCode::NoDevice)
    );

    // None of it disturbed the installed humidity driver or left anything
    // bound or pending.
    assert!(!kernel.humidity_is_busy());
    assert_eq!(kernel.yield_no_wait(), YieldNoWaitReturn::NoUpcall);
}

// The typed listener cells store the payload word each driver's upcall
// carries, with the signed reinterpretation the signed drivers apply.
#[test]
fn typed_listeners_store_last_payload() {
    let mut hl = libtock::humidity::HumidityListener { humidity: None };
    hl.upcall(4500, 0, 0);
    assert_eq!(hl.humidity, Some(4500));

    let mut al = libtock::adc::AdcListener { sample: None };
    al.upcall(0xFFFF_FFFF, 0, 0);
    assert_eq!(al.sample, Some(-1));

    let mut sl = libtock::sound_pressure::SoundPressureListener { reading: None };
    sl.upcall(88, 0, 0);
    assert_eq!(sl.reading, Some(88));
}

// A read answered while no listener is bound is lost, not queued against
// a listener registered later.
#[test]
fn unobserved_events_are_lost() {
    let mut kernel = Kernel::new();
    kernel.add_driver(Driver::Humidity(FakeHumidity::new()));

    assert!(kernel.command(HUMIDITY_NUM, 1, 0, 0).is_success());
    kernel.humidity_set_value(500);

    // Drained while nothing is bound: the event is discarded, not held
    // for whoever subscribes next.
    assert_eq!(kernel.yield_no_wait(), YieldNoWaitReturn::NoUpcall);
    assert!(kernel.subscribe(HUMIDITY_NUM, 0, Listener::new(1)).is_ok());
    assert_eq!(kernel.yield_no_wait(), YieldNoWaitReturn::NoUpcall);
    let listener = kernel.unsubscribe(HUMIDITY_NUM, 0).unwrap();
    assert_eq!(listener.received, Vec::new());
}
