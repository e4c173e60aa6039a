//! What can go wrong while talking to the device.
use vstd::prelude::*;

verus! {

/// Why an exchange with the device failed. `E` is the transport's own error.
#[derive(Debug, PartialEq, Eq)]
pub enum Error<E> {
    /// Communicating with the device failed.
    DeviceIOError {
        /// The transport's error.
        source: E,
    },
    /// The device reported `0` bytes written.
    DeviceWriteZero,
    /// The device reported more bytes written than requested.
    DeviceWriteTooMuch {
        /// Number of requested bytes.
        requested: usize,
        /// Number of reportedly written bytes.
        reported: usize,
    },
    /// The device reported `0` bytes read.
    DeviceReadZero,
    /// The device reported more bytes read than requested.
    DeviceReadTooMuch {
        /// Number of requested bytes.
        requested: usize,
        /// Number of reportedly read bytes.
        reported: usize,
    },
    /// A byte of a received package lacks its synchronisation bit.
    InvalidPackageData {
        /// Package type code.
        code: u8,
        /// Package bytes as received (including the high byte), zero after `length`.
        bytes: [u8; 8],
        /// Package length (including the high byte).
        length: usize,
        /// Index of the first invalid byte.
        invalid_index: usize,
    },
    /// An unexpected package type code was received.
    UnknownTypeCode {
        /// The unknown type code.
        code: u8,
    },
}

impl<E> From<E> for Error<E> {
    /// A failure of the transport as an error of the protocol.
    fn from(source: E) -> (error: Self) {
        Error::DeviceIOError { source }
    }
}

impl<E> vstd::std_specs::convert::FromSpecImpl<E> for Error<E> {
    open spec fn obeys_from_spec() -> bool {
        true
    }

    open spec fn from_spec(source: E) -> Self {
        Error::DeviceIOError { source }
    }
}

} // verus!
