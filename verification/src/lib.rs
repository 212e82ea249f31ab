//! A userspace driver-access framework for a capability-based embedded
//! microkernel, together with the deterministic test-double kernel used to
//! exercise it.
//!
//! Application code talks to kernel-resident device drivers through a narrow
//! syscall surface: `command`, `subscribe`, `allow_readwrite` and the two
//! yield primitives. On top of that surface sit scoped, revocable capability
//! grants, the upcall registry that binds listeners to subscription slots,
//! and the blocking synchronous-over-asynchronous call pattern used by the
//! driver clients. The syscall surface is implemented by a deterministic
//! in-process kernel with scriptable driver stubs.

pub mod adc;
pub mod buzzer;
pub mod command_return;
pub mod error_code;
pub mod fake;
pub mod humidity;
pub mod rng;
pub mod scope;
pub mod sound_pressure;
pub mod text_screen;
pub mod touch;
pub mod upcall;

pub use command_return::CommandReturn;
pub use error_code::ErrorCode;
