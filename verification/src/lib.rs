//! Syscall-facing arbitration layer of an NFC tag-emulation driver.
//!
//! The library multiplexes a single hardware transmit path and a single
//! hardware receive path among several isolated processes. It owns the two
//! fixed-capacity hardware staging buffers, enforces that each is held by at
//! most one in-flight operation, and guarantees that a completed operation
//! notifies exactly the process that started it.
//!
//! The layer itself performs no I/O: syscalls return the hardware request
//! they decided on as a [`codes::HwAction`] value, and hardware completions
//! are fed back in through [`driver::NfcDriver::frame_transmitted`] and
//! [`driver::NfcDriver::frame_received`], which hand the staging buffer back
//! to the arbiter.

mod codes;
mod driver;
mod records;

pub use codes::HwAction;
pub use codes::Notification;
pub use codes::ReturnCode;
pub use codes::MAX_LENGTH;
pub use driver::NfcDriver;
pub use records::App;
pub use records::AppView;
pub use records::RecordStore;
