//! Communication protocol of Contec pulse oximeters (V7.0).
//!
//! Every exchange with the device is a nine-byte frame: a code byte, a high
//! byte and seven data bytes. The most significant bit of every byte after
//! the code is a synchronisation marker; the bits it displaces travel in the
//! high byte.
pub mod bit_ops;
pub mod encoding;
pub mod error;
pub mod incoming_package;
pub mod incoming_state_machine;
pub mod outgoing_package;
pub mod pulse_oximeter;
pub mod traits;

pub use error::Error;
pub use traits::AsyncReadWrite;
pub use pulse_oximeter::PulseOximeter;
