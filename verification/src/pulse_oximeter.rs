//! A connection with a pulse oximeter: one package at a time in each
//! direction, over a port that may take or give any number of bytes per call.
use crate::error::Error;
use crate::incoming_package::IncomingPackage;
use crate::incoming_state_machine::{
    continues, delivers, resumed, IncomingStateMachine, ParseState,
};
use crate::outgoing_package::{bytes_from_package, frame_of, OutgoingPackage};
use crate::traits::AsyncReadWrite;
use core::task::{Context, Poll};
use vstd::prelude::*;

verus! {

/// Where the sending side stands.
pub enum SendState {
    /// No frame is on its way.
    Idle,
    /// The first `sent` bytes of `frame` have been written.
    Sending { frame: Seq<u8>, sent: int },
}

/// The sending side before a write, for an operation that wants to send
/// `own` and `waits` for an earlier frame: an idle side takes up `own`, and
/// the operation waits no longer; a busy side goes on with what it has.
pub open spec fn prepared(state: SendState, own: Seq<u8>, waits: bool) -> (SendState, bool) {
    match state {
        SendState::Idle => (SendState::Sending { frame: own, sent: 0 }, false),
        SendState::Sending { .. } => (state, waits),
    }
}

/// The sending side after the port reported `count` bytes written of the
/// frame that `state` has on its way, for an operation that `waits` for an
/// earlier frame or not. The result is the next state, whether the
/// operation still waits, and what the write leads to: an error, or whether
/// the operation is done.
///
/// A count of zero and a count above what was left of the frame are errors
/// that change nothing. A frame whose ninth byte is written leaves the side
/// idle: the operation is done if that frame was its own, and waits no
/// longer if it was the earlier one.
pub open spec fn acknowledged<E>(state: SendState, waits: bool, count: usize) -> (
    SendState,
    bool,
    Result<bool, Error<E>>,
)
    recommends
        state is Sending,
{
    match state {
        SendState::Idle => (state, waits, Ok(false)),
        SendState::Sending { frame, sent } => if count == 0 {
            (state, waits, Err(Error::DeviceWriteZero))
        } else if count > 9 - sent {
            (
                state,
                waits,
                Err(Error::DeviceWriteTooMuch { requested: (9 - sent) as usize, reported: count }),
            )
        } else if sent + count == 9 {
            (SendState::Idle, false, Ok(!waits))
        } else {
            (SendState::Sending { frame, sent: sent + count }, waits, Ok(false))
        },
    }
}

/// Whether `later` is `earlier` with no less written: the same frame is on
/// its way.
pub open spec fn advanced(earlier: SendState, later: SendState) -> bool {
    match (earlier, later) {
        (
            SendState::Sending { frame: first, sent: before },
            SendState::Sending { frame, sent },
        ) => first == frame && before <= sent,
        _ => false,
    }
}

/// What holds of the sending side when an operation that sends `own`
/// returns before it is done: a frame is on its way. While the operation
/// still `waits`, it waited before and the frame is the one that was on its
/// way then, with no less written. Once it waits no longer, the frame is
/// its own or, as before, the one that was on its way.
pub open spec fn in_flight(
    before: SendState,
    waited: bool,
    own: Seq<u8>,
    after: SendState,
    waits: bool,
) -> bool {
    if waits {
        waited && advanced(before, after)
    } else {
        match after {
            SendState::Idle => false,
            SendState::Sending { frame, sent } => frame == own || advanced(before, after),
        }
    }
}

/// A write of zero bytes is an error whenever a frame is on its way, and
/// changes nothing.
pub proof fn lemma_zero_write<E>(frame: Seq<u8>, sent: int, waits: bool)
    ensures
        acknowledged::<E>(SendState::Sending { frame, sent }, waits, 0) == (
            SendState::Sending { frame, sent },
            waits,
            Err::<bool, Error<E>>(Error::DeviceWriteZero),
        ),
{
}

/// A write that reports more than was left of the frame is an error, and
/// changes nothing.
pub proof fn lemma_write_too_much<E>(frame: Seq<u8>, sent: int, waits: bool, count: usize)
    requires
        0 <= sent < 9,
        count > 9 - sent,
    ensures
        acknowledged::<E>(SendState::Sending { frame, sent }, waits, count) == (
            SendState::Sending { frame, sent },
            waits,
            Err::<bool, Error<E>>(
                Error::DeviceWriteTooMuch { requested: (9 - sent) as usize, reported: count },
            ),
        ),
{
}

/// Two writes that take `first` and then `second` bytes lead to what one
/// write that takes both leads to.
pub proof fn lemma_acknowledged_split<E>(
    frame: Seq<u8>,
    sent: int,
    waits: bool,
    first: usize,
    second: usize,
)
    requires
        0 <= sent,
        0 < first,
        0 < second,
        sent + first + second <= 9,
    ensures
        acknowledged::<E>(SendState::Sending { frame, sent }, waits, first) == (
            SendState::Sending { frame, sent: sent + first },
            waits,
            Ok::<bool, Error<E>>(false),
        ),
        acknowledged::<E>(SendState::Sending { frame, sent: sent + first }, waits, second)
            == acknowledged::<E>(
            SendState::Sending { frame, sent },
            waits,
            (first + second) as usize,
        ),
{
}

/// One answer of the port to a write, seen from the sending side: the
/// port was given what is left of the frame on its way and answered
/// `answer`. The result is the next state, whether the operation still
/// waits, and what the caller is told, if anything: `None` means that the
/// operation writes on.
///
/// A port that cannot go on yet, or that fails, changes nothing; its
/// failure is handed on as it is. A count is taken in as `acknowledged`
/// says.
pub open spec fn write_outcome<E>(state: SendState, waits: bool, answer: Poll<Result<usize, E>>)
    -> (SendState, bool, Option<Poll<Result<(), Error<E>>>>) {
    match answer {
        Poll::Pending => (state, waits, Some(Poll::Pending)),
        Poll::Ready(Err(source)) => (
            state,
            waits,
            Some(Poll::Ready(Err(Error::DeviceIOError { source }))),
        ),
        Poll::Ready(Ok(count)) => {
            let next = acknowledged::<E>(state, waits, count);
            match next.2 {
                Err(error) => (next.0, next.1, Some(Poll::Ready(Err(error)))),
                Ok(true) => (next.0, next.1, Some(Poll::Ready(Ok(())))),
                Ok(false) => (next.0, next.1, None),
            }
        },
    }
}

/// What a run of writes leads to for an operation that sends `own`, from
/// `state` on. Each entry of `answers` is the port's answer to one write of
/// what was left of the frame on its way: the sending side is got ready
/// before each write, and the run ends with the first write after which the
/// caller is told something.
pub open spec fn write_run<E>(
    state: SendState,
    waits: bool,
    own: Seq<u8>,
    answers: Seq<Poll<Result<usize, E>>>,
) -> (SendState, bool, Option<Poll<Result<(), Error<E>>>>)
    decreases answers.len(),
{
    if answers.len() == 0 {
        (state, waits, None)
    } else {
        let before = write_run(state, waits, own, answers.drop_last());
        if before.2 is Some {
            before
        } else {
            let ready = prepared(before.0, own, before.1);
            write_outcome(ready.0, ready.1, answers.last())
        }
    }
}

/// Whether `answers` is a run of writes that takes the sending side from
/// `state` to `end` for an operation that sends `own`, and tells the caller
/// `outcome`: there is at least one write, and only the last one told the
/// caller anything.
pub open spec fn sent_by<E>(
    state: SendState,
    waits: bool,
    own: Seq<u8>,
    answers: Seq<Poll<Result<usize, E>>>,
    end: SendState,
    still_waits: bool,
    outcome: Poll<Result<(), Error<E>>>,
) -> bool {
    &&& answers.len() > 0
    &&& forall|i: int|
        0 <= i < answers.len() ==> write_run(state, waits, own, #[trigger] answers.take(i)).2
            is None
    &&& write_run(state, waits, own, answers) == (end, still_waits, Some(outcome))
}

/// Number of bytes of the frame on its way that are not written yet.
pub open spec fn left_to_write(state: SendState) -> int {
    match state {
        SendState::Idle => 0,
        SendState::Sending { frame, sent } => 9 - sent,
    }
}

/// Number of writes after which an operation has at the latest finished or
/// failed.
pub open spec fn writes_left(state: SendState, waits: bool) -> int {
    (if waits {
        10int
    } else {
        0int
    }) + match state {
        SendState::Idle => 10,
        SendState::Sending { frame, sent } => 9 - sent,
    }
}

/// One send operation: the frame of the caller's package, and whether a
/// frame that an earlier operation left unfinished goes first.
#[derive(Debug)]
pub struct SendPackage {
    buffer: [u8; 9],
    unfinished_send: bool,
}

impl SendPackage {
    /// The frame that this operation sends.
    pub closed spec fn frame(&self) -> Seq<u8> {
        self.buffer@
    }

    /// Whether the operation still waits for an earlier frame to be
    /// written.
    pub closed spec fn waits(&self) -> bool {
        self.unfinished_send
    }
}

/// The sending side of a connection.
#[derive(Debug)]
pub struct OutgoingStatus {
    sending: bool,
    buffer: [u8; 9],
    already_sent: usize,
}

impl View for OutgoingStatus {
    type V = SendState;

    closed spec fn view(&self) -> SendState {
        if self.sending {
            SendState::Sending { frame: self.buffer@, sent: self.already_sent as int }
        } else {
            SendState::Idle
        }
    }
}

impl OutgoingStatus {
    /// A frame that is on its way has at least one byte left to write.
    pub closed spec fn wf(&self) -> bool {
        self.sending ==> self.already_sent < 9
    }

    /// What `wf` means for the view.
    pub proof fn lemma_wf(&self)
        requires
            self.wf(),
        ensures
            self@ matches SendState::Sending { frame, sent } ==> frame.len() == 9 && 0 <= sent < 9,
            0 <= writes_left(self@, false) <= 10,
    {
    }

    /// A sending side with nothing on its way.
    pub fn new() -> (status: Self)
        ensures
            status.wf(),
            status@ == SendState::Idle,
    {
        OutgoingStatus { sending: false, buffer: [0u8; 9], already_sent: 0 }
    }

    /// Whether a frame is on its way.
    pub fn is_sending(&self) -> (sending: bool)
        ensures
            sending == (self@ is Sending),
    {
        self.sending
    }

    /// Gets the side ready for the next write of `operation`.
    pub fn prepare(&mut self, operation: &mut SendPackage)
        requires
            old(self).wf(),
        ensures
            final(self).wf(),
            final(operation).frame() == old(operation).frame(),
            (final(self)@, final(operation).waits()) == prepared(
                old(self)@,
                old(operation).frame(),
                old(operation).waits(),
            ),
    {
        if !self.sending {
            self.sending = true;
            self.buffer = operation.buffer;
            self.already_sent = 0;
            operation.unfinished_send = false;
        }
    }

    /// The bytes that the next write is to take: what is left of the frame
    /// on its way.
    pub fn pending(&self) -> (rest: &[u8])
        requires
            self.wf(),
        ensures
            match self@ {
                SendState::Idle => rest@.len() == 0,
                SendState::Sending { frame, sent } => rest@ == frame.skip(sent),
            },
            rest@.len() == left_to_write(self@),
    {
        if self.sending {
            vstd::slice::slice_subrange(self.buffer.as_slice(), self.already_sent, 9)
        } else {
            vstd::slice::slice_subrange(self.buffer.as_slice(), 9, 9)
        }
    }

    /// Takes in one write of `operation`: the port was given the pending
    /// bytes and reported `count` of them written. Returns whether the
    /// operation is done.
    pub fn acknowledge<E>(&mut self, operation: &mut SendPackage, count: usize) -> (done: Result<
        bool,
        Error<E>,
    >)
        requires
            old(self).wf(),
            old(self)@ is Sending,
        ensures
            final(self).wf(),
            final(operation).frame() == old(operation).frame(),
            (final(self)@, final(operation).waits(), done) == acknowledged::<E>(
                old(self)@,
                old(operation).waits(),
                count,
            ),
    {
        let requested: usize = 9 - self.already_sent;
        if count == 0 {
            return Err(Error::DeviceWriteZero);
        }
        if count > requested {
            return Err(Error::DeviceWriteTooMuch { requested, reported: count });
        }
        self.already_sent += count;
        if self.already_sent == 9 {
            self.sending = false;
            if operation.unfinished_send {
                operation.unfinished_send = false;
                Ok(false)
            } else {
                Ok(true)
            }
        } else {
            Ok(false)
        }
    }

    /// Takes in one answer of the port to a write of `operation`: the port
    /// was given the pending bytes and answered `answer`. Returns what the
    /// caller is to be told, or `None` where the operation is to write on.
    pub fn after_write<E>(&mut self, operation: &mut SendPackage, answer: Poll<Result<usize, E>>)
        -> (outcome: Option<Poll<Result<(), Error<E>>>>)
        requires
            old(self).wf(),
            old(self)@ is Sending,
        ensures
            final(self).wf(),
            final(operation).frame() == old(operation).frame(),
            (final(self)@, final(operation).waits(), outcome) == write_outcome::<E>(
                old(self)@,
                old(operation).waits(),
                answer,
            ),
    {
        match answer {
            Poll::Pending => Some(Poll::Pending),
            Poll::Ready(Err(source)) => Some(Poll::Ready(Err(Error::from(source)))),
            Poll::Ready(Ok(count)) => match self.acknowledge(operation, count) {
                Err(error) => Some(Poll::Ready(Err(error))),
                Ok(true) => Some(Poll::Ready(Ok(()))),
                Ok(false) => None,
            },
        }
    }
}

/// Represents a connection with a pulse oximeter.
///
/// Use [`PulseOximeter::send_package`] with [`PulseOximeter::poll_send`] and
/// [`PulseOximeter::receive_package`] to communicate with the device.
pub struct PulseOximeter<T: AsyncReadWrite> {
    port: T,
    incoming: IncomingStateMachine,
    outgoing: OutgoingStatus,
}

impl<T: AsyncReadWrite> PulseOximeter<T> {
    /// Both directions are in a state that they can be in.
    pub closed spec fn wf(&self) -> bool {
        self.incoming.wf() && self.outgoing.wf()
    }

    /// Where the receiving side stands.
    pub closed spec fn incoming(&self) -> ParseState {
        self.incoming@
    }

    /// Where the sending side stands.
    pub closed spec fn outgoing(&self) -> SendState {
        self.outgoing@
    }

    /// Create a pulse oximeter interface, using the given `port` for
    /// communication.
    pub fn new(port: T) -> (device: Self)
        ensures
            device.wf(),
            device.incoming() == ParseState::Idle,
            device.outgoing() == SendState::Idle,
    {
        PulseOximeter { port, incoming: IncomingStateMachine::new(), outgoing: OutgoingStatus::new() }
    }

    /// Send a package to the device: makes the operation that
    /// [`PulseOximeter::poll_send`] then drives.
    ///
    /// Note that if an earlier operation was not driven until completion,
    /// the rest of its package will be sent before the new package.
    pub fn send_package<P>(&self, package: P) -> (operation: SendPackage) where P: OutgoingPackage
        requires
            P::code_of() < 0x80,
        ensures
            operation.frame() == frame_of(P::code_of(), package.data()),
            operation.waits() == (self.outgoing() is Sending),
    {
        let buffer = bytes_from_package(package);
        SendPackage { buffer, unfinished_send: self.outgoing.is_sending() }
    }

    /// Drives a send operation: writes to the port until the operation's
    /// frame is written, the port cannot go on, or something fails.
    ///
    /// Whatever the port does: after `Ready(Ok(()))` nothing is on its way.
    /// Otherwise a frame is, and its progress is kept for the next call: it
    /// is the operation's own frame, or still the earlier one that the
    /// operation waits for. An error of the port comes back as it is.
    pub fn poll_send(&mut self, operation: &mut SendPackage, cx: &mut Context<'_>) -> (outcome:
        Poll<Result<(), Error<T::Error>>>)
        requires
            old(self).wf(),
        ensures
            final(self).wf(),
            final(self).incoming() == old(self).incoming(),
            final(operation).frame() == old(operation).frame(),
            exists|answers: Seq<Poll<Result<usize, T::Error>>>| #[trigger]
                sent_by(
                    old(self).outgoing(),
                    old(operation).waits(),
                    old(operation).frame(),
                    answers,
                    final(self).outgoing(),
                    final(operation).waits(),
                    outcome,
                ),
            outcome matches Poll::Ready(Ok(_)) ==> final(self).outgoing() == SendState::Idle
                && !final(operation).waits(),
            !(outcome matches Poll::Ready(Ok(_))) ==> in_flight(
                old(self).outgoing(),
                old(operation).waits(),
                final(operation).frame(),
                final(self).outgoing(),
                final(operation).waits(),
            ),
            outcome matches Poll::Ready(Err(error)) ==> error is DeviceIOError || error
                is DeviceWriteZero || error is DeviceWriteTooMuch,
            outcome matches Poll::Ready(Err(Error::DeviceWriteTooMuch { requested, reported }))
                ==> requested == left_to_write(final(self).outgoing()) && reported > requested,
    {
        let ghost mut answers = Seq::<Poll<Result<usize, T::Error>>>::empty();
        loop
            invariant
                self.wf(),
                write_run(
                    old(self).outgoing(),
                    old(operation).waits(),
                    old(operation).frame(),
                    answers,
                ) == (
                    self.outgoing(),
                    operation.waits(),
                    None::<Poll<Result<(), Error<T::Error>>>>,
                ),
                forall|i: int|
                    0 <= i < answers.len() ==> write_run(
                        old(self).outgoing(),
                        old(operation).waits(),
                        old(operation).frame(),
                        #[trigger] answers.take(i),
                    ).2 is None,
                self.incoming() == old(self).incoming(),
                operation.frame() == old(operation).frame(),
                operation.waits() ==> old(operation).waits(),
                ({
                    ||| self.outgoing() == old(self).outgoing() && operation.waits() == old(
                        operation,
                    ).waits()
                    ||| self.outgoing() is Idle && !operation.waits()
                    ||| in_flight(
                        old(self).outgoing(),
                        old(operation).waits(),
                        operation.frame(),
                        self.outgoing(),
                        operation.waits(),
                    )
                }),
            decreases writes_left(self.outgoing(), operation.waits()),
        {
            proof {
                self.outgoing.lemma_wf();
            }
            self.outgoing.prepare(operation);
            proof {
                self.outgoing.lemma_wf();
            }
            let rest = self.outgoing.pending();
            let answer = self.port.poll_write(cx, rest);
            proof {
                let earlier = answers;
                answers = earlier.push(answer);
                assert(answers.drop_last() =~= earlier);
                assert(answers.take(earlier.len() as int) =~= earlier);
                assert forall|i: int| 0 <= i < answers.len() implies write_run(
                    old(self).outgoing(),
                    old(operation).waits(),
                    old(operation).frame(),
                    #[trigger] answers.take(i),
                ).2 is None by {
                    if i < earlier.len() {
                        assert(answers.take(i) =~= earlier.take(i));
                    }
                }
            }
            match self.outgoing.after_write(operation, answer) {
                Some(outcome) => {
                    assert(sent_by(
                        old(self).outgoing(),
                        old(operation).waits(),
                        old(operation).frame(),
                        answers,
                        self.outgoing(),
                        operation.waits(),
                        outcome,
                    ));
                    return outcome;
                },
                None => {},
            }
        }
    }

    /// Receive the next package from the device: reads from the port until
    /// a package is complete, the port cannot go on, or something fails.
    pub fn receive_package(&mut self, cx: &mut Context<'_>) -> (outcome: Poll<
        Result<IncomingPackage, Error<T::Error>>,
    >)
        requires
            old(self).wf(),
        ensures
            final(self).wf(),
            final(self).outgoing() == old(self).outgoing(),
            exists|reads: Seq<(Seq<u8>, Poll<Result<usize, T::Error>>)>| #[trigger]
                resumed(old(self).incoming(), reads, final(self).incoming(), outcome),
            continues(old(self).incoming(), final(self).incoming()) || outcome matches Poll::Ready(
                Ok(_),
            ),
            outcome matches Poll::Ready(Ok(package)) ==> final(self).incoming() == ParseState::Idle
                && delivers(old(self).incoming(), package),
    {
        self.incoming.resume(&mut self.port, cx)
    }
}

} // verus!
