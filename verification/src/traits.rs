//! The serial port as the protocol sees it.
use core::task::{Context, Poll};
use vstd::prelude::*;

verus! {

/// `core::task::Context`: handed through to the port, never looked into.
#[verifier::external_type_specification]
#[verifier::external_body]
pub struct ExContext<'a>(Context<'a>);

/// `core::task::Poll`: either `Ready` with a value or `Pending`.
#[verifier::external_type_specification]
#[verifier::reject_recursive_types(T)]
pub struct ExPoll<T>(Poll<T>);

/// Trait that must be implemented by the serial port that enables async
/// communication.
///
/// Nothing is assumed of what a port reports: a count of zero, or one above
/// the room it was given, is met with an error by the caller.
pub trait AsyncReadWrite {
    /// Device error.
    type Error;

    /// Attempt to read from the object into `buf`.
    ///
    /// An implementation reports `Pending` when nothing can be read yet, and
    /// otherwise how many bytes it placed at the start of `buf`.
    fn poll_read(&mut self, cx: &mut Context<'_>, buf: &mut [u8]) -> (outcome: Poll<
        Result<usize, Self::Error>,
    >);

    /// Attempt to write bytes from `buf` into the object.
    ///
    /// An implementation reports `Pending` when nothing can be written yet,
    /// and otherwise how many bytes from the start of `buf` it took.
    fn poll_write(&mut self, cx: &mut Context<'_>, buf: &[u8]) -> (outcome: Poll<
        Result<usize, Self::Error>,
    >);
}

} // verus!
