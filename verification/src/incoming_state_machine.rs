//! The parser of incoming packages: a state machine that is fed by reads of
//! any size and hands out one package per frame.
use crate::encoding::{
    lemma_decoded, lemma_decoded_reports_first, marked, received_frame, restored_payload,
};
use crate::error::Error;
use crate::incoming_package::{
    package_of, parsed, payload_length, payload_length_of, IncomingPackage,
};
use crate::traits::AsyncReadWrite;
use core::task::{Context, Poll};
use vstd::prelude::*;

verus! {

/// Where the parser of incoming packages stands.
pub enum ParseState {
    /// Between two packages: the next byte is a type code.
    Idle,
    /// Inside the package with type code `code`; `received` is what has come
    /// of its frame so far, the high byte first.
    Collecting { code: u8, received: Seq<u8> },
}

/// Number of bytes that the parser asks for in `state`: the type code, or
/// what is missing of the frame.
pub open spec fn wanted(state: ParseState) -> int {
    match state {
        ParseState::Idle => 1,
        ParseState::Collecting { code, received } => payload_length_of(code).unwrap() + 1
            - received.len(),
    }
}

/// Byte `i` of `raw`, or zero behind its end.
pub open spec fn at_or_zero(raw: Seq<u8>, i: int) -> u8 {
    if 0 <= i < raw.len() {
        raw[i]
    } else {
        0
    }
}

/// The first eight bytes of `raw`, followed by zeros where it is shorter.
pub open spec fn padded(raw: Seq<u8>) -> [u8; 8] {
    [
        at_or_zero(raw, 0),
        at_or_zero(raw, 1),
        at_or_zero(raw, 2),
        at_or_zero(raw, 3),
        at_or_zero(raw, 4),
        at_or_zero(raw, 5),
        at_or_zero(raw, 6),
        at_or_zero(raw, 7),
    ]
}

/// What a complete frame `raw` after the type code `code` leads to: the
/// parser is idle again and hands out the package, or it stays where it is
/// and reports the frame with the position of the first byte without its
/// synchronisation bit.
pub open spec fn completed<E>(code: u8, raw: Seq<u8>) -> (
    ParseState,
    Result<Option<IncomingPackage>, Error<E>>,
) {
    match parsed(code, raw) {
        Ok(package) => (ParseState::Idle, Ok(Some(package))),
        Err(invalid_index) => (
            ParseState::Collecting { code, received: raw },
            Err(
                Error::InvalidPackageData {
                    code,
                    bytes: padded(raw),
                    length: raw.len() as usize,
                    invalid_index,
                },
            ),
        ),
    }
}

/// One read, seen from the parser: in `state` the port was given `room` to
/// fill and reported `count` bytes. The result is the next state and what
/// the read leads to: an error, a package, or nothing yet.
///
/// A count of zero and a count above the room are errors that leave the
/// state alone. In `Idle` the byte read is the type code: a known one starts
/// a frame, an unknown one is an error. Inside a frame the first `count`
/// bytes of `room` are appended; the frame is decoded as soon as it is
/// complete.
pub open spec fn step<E>(state: ParseState, room: Seq<u8>, count: usize) -> (
    ParseState,
    Result<Option<IncomingPackage>, Error<E>>,
)
    recommends
        room.len() <= wanted(state),
{
    if count == 0 {
        (state, Err(Error::DeviceReadZero))
    } else if count > room.len() {
        (state, Err(Error::DeviceReadTooMuch { requested: room.len() as usize, reported: count }))
    } else {
        match state {
            ParseState::Idle => if payload_length_of(room[0]) is Some {
                (ParseState::Collecting { code: room[0], received: Seq::empty() }, Ok(None))
            } else {
                (state, Err(Error::UnknownTypeCode { code: room[0] }))
            },
            ParseState::Collecting { code, received } => {
                let now = received + room.take(count as int);
                if now.len() == payload_length_of(code).unwrap() + 1 {
                    completed(code, now)
                } else {
                    (ParseState::Collecting { code, received: now }, Ok(None))
                }
            },
        }
    }
}

/// One answer of the port to a read, seen from the parser: in `state` the
/// port was given `room` to fill and answered `answer`. The result is the
/// next state and what the caller is told, if anything: `None` means that
/// the parser reads on.
///
/// A port that cannot go on yet, or that fails, changes nothing; its
/// failure is handed on as it is. A count is taken in as `step` says.
pub open spec fn read_outcome<E>(state: ParseState, room: Seq<u8>, answer: Poll<Result<usize, E>>)
    -> (ParseState, Option<Poll<Result<IncomingPackage, Error<E>>>>) {
    match answer {
        Poll::Pending => (state, Some(Poll::Pending)),
        Poll::Ready(Err(source)) => (
            state,
            Some(Poll::Ready(Err(Error::DeviceIOError { source }))),
        ),
        Poll::Ready(Ok(count)) => {
            let next = step::<E>(state, room, count);
            match next.1 {
                Err(error) => (next.0, Some(Poll::Ready(Err(error)))),
                Ok(Some(package)) => (next.0, Some(Poll::Ready(Ok(package)))),
                Ok(None) => (next.0, None),
            }
        },
    }
}

/// What a run of reads leads to, from `state` on. Each entry of `reads` is
/// one read: the room as the port left it, and the port's answer. The run
/// ends with the first read after which the caller is told something.
pub open spec fn read_run<E>(state: ParseState, reads: Seq<(Seq<u8>, Poll<Result<usize, E>>)>)
    -> (ParseState, Option<Poll<Result<IncomingPackage, Error<E>>>>)
    decreases reads.len(),
{
    if reads.len() == 0 {
        (state, None)
    } else {
        let before = read_run(state, reads.drop_last());
        if before.1 is Some {
            before
        } else {
            read_outcome(before.0, reads.last().0, reads.last().1)
        }
    }
}

/// Whether `reads` is a run of reads that takes a parser from `start` to
/// `end` and tells the caller `outcome`: there is at least one read, every
/// read had exactly the room that the parser asked for, and only the last
/// read told the caller anything.
pub open spec fn resumed<E>(
    start: ParseState,
    reads: Seq<(Seq<u8>, Poll<Result<usize, E>>)>,
    end: ParseState,
    outcome: Poll<Result<IncomingPackage, Error<E>>>,
) -> bool {
    &&& reads.len() > 0
    &&& forall|i: int|
        0 <= i < reads.len() ==> {
            &&& read_run(start, #[trigger] reads.take(i)).1 is None
            &&& reads[i].0.len() == wanted(read_run(start, reads.take(i)).0)
        }
    &&& read_run(start, reads) == (end, Some(outcome))
}

/// Whether `later` can come of `earlier` by reading on: from `Idle` anything
/// can; inside a frame the code stays and what was received is kept in
/// front.
pub open spec fn continues(earlier: ParseState, later: ParseState) -> bool {
    match earlier {
        ParseState::Idle => true,
        ParseState::Collecting { code, received } => later matches ParseState::Collecting {
            code: later_code,
            received: later_received,
        } && later_code == code && received.is_prefix_of(later_received),
    }
}

/// Whether the complete frame `raw` after the type code `code` can be what
/// a parser in `state` goes on to receive.
pub open spec fn completes(state: ParseState, code: u8, raw: Seq<u8>) -> bool {
    &&& payload_length_of(code) is Some
    &&& raw.len() == payload_length_of(code).unwrap() + 1
    &&& continues(state, ParseState::Collecting { code, received: raw })
}

/// Whether `package` is what some complete frame that a parser in `state`
/// can go on to receive stands for.
pub open spec fn delivers(state: ParseState, package: IncomingPackage) -> bool {
    exists|code: u8, raw: Seq<u8>| #[trigger]
        completes(state, code, raw) && parsed(code, raw) == Ok::<IncomingPackage, usize>(package)
}

/// Number of reads after which a parser in `state` has at the latest
/// handed out a package or an error.
pub open spec fn reads_left(state: ParseState) -> int {
    match state {
        ParseState::Idle => 9,
        ParseState::Collecting { code, received } => wanted(state),
    }
}

/// What reads that deliver `bytes` one byte at a time lead to, from
/// `state` on: the state and the outcome of the first read that yields a
/// package or an error, or of the last read.
pub open spec fn step_each<E>(state: ParseState, bytes: Seq<u8>) -> (
    ParseState,
    Result<Option<IncomingPackage>, Error<E>>,
)
    decreases bytes.len(),
{
    if bytes.len() == 0 {
        (state, Ok(None))
    } else {
        let first = step::<E>(state, bytes.take(1), 1);
        if bytes.len() > 1 && first.1 == Ok::<Option<IncomingPackage>, Error<E>>(None) {
            step_each(first.0, bytes.skip(1))
        } else {
            first
        }
    }
}

/// A read of zero bytes is an error in every state, and changes nothing.
pub proof fn lemma_zero_read<E>(state: ParseState, room: Seq<u8>)
    ensures
        step::<E>(state, room, 0) == (
            state,
            Err::<Option<IncomingPackage>, Error<E>>(Error::DeviceReadZero),
        ),
{
}

/// A read that reports more than it had room for is an error in every
/// state, and changes nothing.
pub proof fn lemma_read_too_much<E>(state: ParseState, room: Seq<u8>, count: usize)
    requires
        count > room.len(),
    ensures
        step::<E>(state, room, count) == (
            state,
            Err::<Option<IncomingPackage>, Error<E>>(
                Error::DeviceReadTooMuch { requested: room.len() as usize, reported: count },
            ),
        ),
{
}

/// A type code that names no package is reported with the code, and the
/// parser stays idle.
pub proof fn lemma_unknown_code<E>(code: u8)
    requires
        payload_length_of(code) is None,
    ensures
        step::<E>(ParseState::Idle, seq![code], 1) == (
            ParseState::Idle,
            Err::<Option<IncomingPackage>, Error<E>>(Error::UnknownTypeCode { code }),
        ),
{
}

/// Only the bytes that a read reports are looked at: two rooms that both
/// hold the count and agree on its bytes lead to the same, whatever lies
/// behind.
pub proof fn lemma_step_reads_only_count<E>(
    state: ParseState,
    room: Seq<u8>,
    other: Seq<u8>,
    count: usize,
)
    requires
        count <= room.len(),
        count <= other.len(),
        room.take(count as int) == other.take(count as int),
    ensures
        step::<E>(state, room, count) == step::<E>(state, other, count),
{
    if count > 0 {
        assert(room[0] == room.take(count as int)[0]);
        assert(other[0] == other.take(count as int)[0]);
    }
}

/// Inside a frame, two reads that deliver `first` and then `second` lead to
/// what one read that delivers both leads to: the first yields nothing yet,
/// and after it the second does what the single read does.
pub proof fn lemma_step_split<E>(code: u8, received: Seq<u8>, first: Seq<u8>, second: Seq<u8>)
    requires
        payload_length_of(code) is Some,
        0 < first.len(),
        0 < second.len(),
        received.len() + first.len() + second.len() <= payload_length_of(code).unwrap() + 1,
    ensures
        step::<E>(ParseState::Collecting { code, received }, first, first.len() as usize) == (
            ParseState::Collecting { code, received: received + first },
            Ok::<Option<IncomingPackage>, Error<E>>(None),
        ),
        step::<E>(
            ParseState::Collecting { code, received: received + first },
            second,
            second.len() as usize,
        ) == step::<E>(
            ParseState::Collecting { code, received },
            first + second,
            (first.len() + second.len()) as usize,
        ),
{
    let both = first + second;
    assert(first.take(first.len() as int) =~= first);
    assert(second.take(second.len() as int) =~= second);
    assert(both.take(both.len() as int) =~= both);
    assert((received + first) + second =~= received + both);
}

/// Feeding what is missing of a frame one byte per read leads to the same
/// state and the same package or error as feeding it in a single read.
pub proof fn lemma_step_each<E>(code: u8, received: Seq<u8>, rest: Seq<u8>)
    requires
        payload_length_of(code) is Some,
        0 < rest.len(),
        received.len() + rest.len() == payload_length_of(code).unwrap() + 1,
    ensures
        step_each::<E>(ParseState::Collecting { code, received }, rest) == step::<E>(
            ParseState::Collecting { code, received },
            rest,
            rest.len() as usize,
        ),
        step_each::<E>(ParseState::Collecting { code, received }, rest) == completed::<E>(
            code,
            received + rest,
        ),
    decreases rest.len(),
{
    let state = ParseState::Collecting { code, received };
    assert(rest.take(rest.len() as int) =~= rest);
    if rest.len() == 1 {
        assert(rest.take(1) =~= rest);
    } else {
        let head = rest.take(1);
        let tail = rest.skip(1);
        assert(head + tail =~= rest);
        lemma_step_split::<E>(code, received, head, tail);
        lemma_step_each::<E>(code, received + head, tail);
        assert((received + head) + tail =~= received + rest);
    }
}

/// A whole exchange, the type code included: reads of one byte each lead to
/// what the frame as a whole stands for.
pub proof fn lemma_step_each_from_idle<E>(code: u8, raw: Seq<u8>)
    requires
        payload_length_of(code) is Some,
        raw.len() == payload_length_of(code).unwrap() + 1,
    ensures
        step_each::<E>(ParseState::Idle, seq![code] + raw) == completed::<E>(code, raw),
        step::<E>(ParseState::Idle, seq![code], 1) == (
            ParseState::Collecting { code, received: Seq::<u8>::empty() },
            Ok::<Option<IncomingPackage>, Error<E>>(None),
        ),
        step::<E>(
            ParseState::Collecting { code, received: Seq::<u8>::empty() },
            raw,
            raw.len() as usize,
        ) == completed::<E>(code, raw),
{
    let all = seq![code] + raw;
    assert(all.take(1) =~= seq![code]);
    assert(all.skip(1) =~= raw);
    lemma_step_each::<E>(code, Seq::<u8>::empty(), raw);
    assert(Seq::<u8>::empty() + raw =~= raw);
}

/// A complete frame whose byte at position `k` lacks its synchronisation
/// bit, while every byte before it has one, is reported as invalid at `k`
/// (0 is the high byte), together with the code, the frame, and its length;
/// the parser stays on the frame.
pub proof fn lemma_unmarked_byte_is_reported<E>(code: u8, raw: Seq<u8>, k: int)
    requires
        payload_length_of(code) is Some,
        raw.len() == payload_length_of(code).unwrap() + 1,
        0 <= k < raw.len(),
        !marked(raw[k]),
        forall|j: int| 0 <= j < k ==> marked(#[trigger] raw[j]),
    ensures
        parsed(code, raw) == Err::<IncomingPackage, usize>(k as usize),
        completed::<E>(code, raw) == (
            ParseState::Collecting { code, received: raw },
            Err::<Option<IncomingPackage>, Error<E>>(
                Error::InvalidPackageData {
                    code,
                    bytes: padded(raw),
                    length: raw.len() as usize,
                    invalid_index: k as usize,
                },
            ),
        ),
{
    let frame = received_frame(raw[0], raw.skip(1));
    assert(frame =~= raw);
    lemma_decoded_reports_first(raw[0], raw.skip(1), k);
}

/// A complete frame in which every byte has its synchronisation bit leads
/// to the package that its restored payload stands for, and the parser is
/// idle again.
pub proof fn lemma_marked_frame_is_delivered<E>(code: u8, raw: Seq<u8>)
    requires
        payload_length_of(code) is Some,
        raw.len() == payload_length_of(code).unwrap() + 1,
        forall|j: int| 0 <= j < raw.len() ==> marked(#[trigger] raw[j]),
    ensures
        completed::<E>(code, raw) == (
            ParseState::Idle,
            Ok::<Option<IncomingPackage>, Error<E>>(
                Some(
                    package_of(code, restored_payload(raw[0], raw.skip(1))),
                ),
            ),
        ),
{
    let frame = received_frame(raw[0], raw.skip(1));
    assert(frame =~= raw);
    lemma_decoded(raw[0], raw.skip(1));
}

/// State machine which handles incoming packages.
///
/// It is fed by reads of any size and keeps what has come of a frame across
/// calls, so that a read that cannot go on yet loses nothing. After a frame
/// with a missing synchronisation bit it stays on that frame: every further
/// read is then an error, since no room is left to read into.
#[derive(Debug)]
pub struct IncomingStateMachine {
    code: Option<u8>,
    buffer: [u8; 8],
    received_bytes: usize,
}

impl View for IncomingStateMachine {
    type V = ParseState;

    closed spec fn view(&self) -> ParseState {
        match self.code {
            None => ParseState::Idle,
            Some(code) => ParseState::Collecting {
                code,
                received: self.buffer@.take(self.received_bytes as int),
            },
        }
    }
}

impl IncomingStateMachine {
    /// The state is one that the parser can be in: inside a frame the type
    /// code is a known one and no more than the frame has been received.
    pub closed spec fn wf(&self) -> bool {
        match self.code {
            None => true,
            Some(code) => {
                &&& payload_length_of(code) is Some
                &&& self.received_bytes <= payload_length_of(code).unwrap() + 1
                &&& forall|i: int| self.received_bytes <= i < 8 ==> self.buffer@[i] == 0
            },
        }
    }

    /// A well-formed parser asks for at most eight bytes and never for a
    /// negative number; inside a frame it has received no more than the
    /// frame holds.
    pub proof fn lemma_wanted_bounds(&self)
        requires
            self.wf(),
        ensures
            0 <= wanted(self@) <= 8,
            self@ matches ParseState::Collecting { code, received } ==> payload_length_of(code)
                is Some && received.len() + wanted(self@) == payload_length_of(code).unwrap() + 1,
    {
    }

    /// A parser that waits for a type code.
    pub fn new() -> (machine: Self)
        ensures
            machine.wf(),
            machine@ == ParseState::Idle,
    {
        IncomingStateMachine { code: None, buffer: [0u8; 8], received_bytes: 0 }
    }

    /// Number of bytes to ask the port for next.
    pub fn requested(&self) -> (count: usize)
        requires
            self.wf(),
        ensures
            count == wanted(self@),
            count <= 8,
    {
        match self.code {
            None => 1,
            Some(code) => match payload_length(code) {
                Some(length) => length + 1 - self.received_bytes,
                None => 0,
            },
        }
    }

    /// Takes in one read: the port was given `room` to fill and reported
    /// `count` bytes.
    pub fn advance<E>(&mut self, room: &[u8], count: usize) -> (outcome: Result<
        Option<IncomingPackage>,
        Error<E>,
    >)
        requires
            old(self).wf(),
            room@.len() <= wanted(old(self)@),
        ensures
            final(self).wf(),
            (final(self)@, outcome) == step::<E>(old(self)@, room@, count),
    {
        let room_length: usize = room.len();
        if count == 0 {
            return Err(Error::DeviceReadZero);
        }
        if count > room_length {
            return Err(Error::DeviceReadTooMuch { requested: room_length, reported: count });
        }
        match self.code {
            None => {
                let code: u8 = room[0];
                match payload_length(code) {
                    None => Err(Error::UnknownTypeCode { code }),
                    Some(_) => {
                        self.code = Some(code);
                        self.buffer = [0u8; 8];
                        self.received_bytes = 0;
                        assert(self.buffer@.take(0) =~= Seq::<u8>::empty());
                        Ok(None)
                    },
                }
            },
            Some(code) => {
                let length: usize = match payload_length(code) {
                    Some(length) => length + 1,
                    None => 0,
                };
                let received: usize = self.received_bytes;
                let ghost before = self.buffer@;
                let mut buffer = self.buffer;
                let mut i: usize = 0;
                while i < count
                    invariant
                        i <= count <= room@.len(),
                        received + count <= length <= 8,
                        forall|k: int| 0 <= k < received ==> buffer@[k] == before[k],
                        forall|k: int| 0 <= k < i ==> buffer@[received + k] == room@[k],
                        forall|k: int| received + i <= k < 8 ==> buffer@[k] == 0,
                    decreases count - i,
                {
                    buffer[received + i] = room[i];
                    i += 1;
                }
                self.buffer = buffer;
                self.received_bytes = received + count;
                let ghost now = before.take(received as int) + room@.take(count as int);
                assert(self.buffer@.take(self.received_bytes as int) =~= now);
                if self.received_bytes == length {
                    match IncomingPackage::from_frame(code, &self.buffer) {
                        Ok(package) => {
                            self.code = None;
                            Ok(Some(package))
                        },
                        Err(invalid_index) => {
                            assert(self.buffer =~= padded(now));
                            Err(
                                Error::InvalidPackageData {
                                    code,
                                    bytes: self.buffer,
                                    length,
                                    invalid_index,
                                },
                            )
                        },
                    }
                } else {
                    Ok(None)
                }
            },
        }
    }

    /// Takes in one answer of the port to a read: the port was given
    /// `room` to fill and answered `answer`. Returns what the caller is to be
    /// told, or `None` where the parser is to read on.
    pub fn after_read<E>(&mut self, room: &[u8], answer: Poll<Result<usize, E>>) -> (outcome:
        Option<Poll<Result<IncomingPackage, Error<E>>>>)
        requires
            old(self).wf(),
            room@.len() <= wanted(old(self)@),
        ensures
            final(self).wf(),
            (final(self)@, outcome) == read_outcome::<E>(old(self)@, room@, answer),
    {
        match answer {
            Poll::Pending => Some(Poll::Pending),
            Poll::Ready(Err(source)) => Some(Poll::Ready(Err(Error::from(source)))),
            Poll::Ready(Ok(count)) => match self.advance(room, count) {
                Err(error) => Some(Poll::Ready(Err(error))),
                Ok(Some(package)) => Some(Poll::Ready(Ok(package))),
                Ok(None) => None,
            },
        }
    }

    /// Resumes execution of the state machine: reads from `port` until a
    /// package is complete, the port cannot go on, or something fails.
    ///
    /// Whatever the port does, the parser keeps what it has received. A
    /// package that is handed out is what a complete frame stands for that
    /// begins with the bytes received before the call, and the parser is
    /// idle afterwards. An error of the port comes back as it is.
    pub fn resume<T: AsyncReadWrite>(&mut self, port: &mut T, cx: &mut Context<'_>) -> (outcome:
        Poll<Result<IncomingPackage, Error<T::Error>>>)
        requires
            old(self).wf(),
        ensures
            final(self).wf(),
            exists|reads: Seq<(Seq<u8>, Poll<Result<usize, T::Error>>)>| #[trigger]
                resumed(old(self)@, reads, final(self)@, outcome),
            continues(old(self)@, final(self)@) || outcome matches Poll::Ready(Ok(_)),
            outcome matches Poll::Ready(Ok(package)) ==> final(self)@ == ParseState::Idle
                && delivers(old(self)@, package),
            outcome matches Poll::Ready(
                Err(Error::InvalidPackageData { code, bytes, length, invalid_index }),
            ) ==> final(self)@ matches ParseState::Collecting { code: at_code, received }
                && at_code == code && completes(old(self)@, code, received) && length
                == received.len() && bytes == padded(received) && parsed(code, received) == Err::<
                IncomingPackage,
                usize,
            >(invalid_index),
            outcome matches Poll::Ready(Err(Error::UnknownTypeCode { code })) ==> final(self)@
                == ParseState::Idle && payload_length_of(code) is None,
            outcome matches Poll::Ready(Err(Error::DeviceReadTooMuch { requested, reported }))
                ==> requested == wanted(final(self)@) && reported > requested,
            !(outcome matches Poll::Ready(Err(Error::DeviceWriteZero))),
            !(outcome matches Poll::Ready(Err(Error::DeviceWriteTooMuch { .. }))),
    {
        let ghost mut reads = Seq::<(Seq<u8>, Poll<Result<usize, T::Error>>)>::empty();
        loop
            invariant
                self.wf(),
                continues(old(self)@, self@),
                read_run(old(self)@, reads) == (
                    self@,
                    None::<Poll<Result<IncomingPackage, Error<T::Error>>>>,
                ),
                forall|i: int|
                    0 <= i < reads.len() ==> {
                        &&& read_run(old(self)@, #[trigger] reads.take(i)).1 is None
                        &&& reads[i].0.len() == wanted(read_run(old(self)@, reads.take(i)).0)
                    },
            decreases reads_left(self@),
        {
            let ghost at_entry = self@;
            proof {
                self.lemma_wanted_bounds();
            }
            let want: usize = self.requested();
            let mut scratch = [0u8; 8];
            let whole: &mut [u8] = &mut scratch;
            let (room, _) = whole.split_at_mut(want);
            let answer = port.poll_read(cx, room);
            let ghost count = match answer {
                Poll::Ready(Ok(count)) => count,
                _ => 0usize,
            };
            let filled = vstd::slice::slice_subrange(scratch.as_slice(), 0, want);
            proof {
                let earlier = reads;
                reads = earlier.push((filled@, answer));
                assert(reads.drop_last() =~= earlier);
                assert(reads.take(earlier.len() as int) =~= earlier);
                assert forall|i: int| 0 <= i < reads.len() implies {
                    &&& read_run(old(self)@, #[trigger] reads.take(i)).1 is None
                    &&& reads[i].0.len() == wanted(read_run(old(self)@, reads.take(i)).0)
                } by {
                    if i < earlier.len() {
                        assert(reads.take(i) =~= earlier.take(i));
                    }
                }
            }
            match self.after_read(filled, answer) {
                Some(outcome) => {
                    proof {
                        if outcome matches Poll::Ready(Ok(_)) {
                            lemma_step_delivers::<T::Error>(old(self)@, at_entry, filled@, count);
                        }
                        assert(resumed(old(self)@, reads, self@, outcome));
                    }
                    return outcome;
                },
                None => {},
            }
        }
    }
}

/// A step that hands out a package from a state that continues `start`
/// hands out one that `start` can deliver.
proof fn lemma_step_delivers<E>(start: ParseState, state: ParseState, room: Seq<u8>, count: usize)
    requires
        continues(start, state),
        state matches ParseState::Collecting { code, received } ==> payload_length_of(code) is Some,
        step::<E>(state, room, count).1 matches Ok(Some(_)),
    ensures
        step::<E>(state, room, count).1 matches Ok(Some(package)) && delivers(start, package),
{
    match state {
        ParseState::Idle => {},
        ParseState::Collecting { code, received } => {
            let now = received + room.take(count as int);
            assert(received.is_prefix_of(now));
            if let ParseState::Collecting { code: first_code, received: first } = start {
                assert(first.is_prefix_of(now)) by {
                    assert forall|k: int| 0 <= k < first.len() implies first[k] == now[k] by {
                        assert(first[k] == received[k]);
                    }
                }
            }
            assert(completes(start, code, now));
        },
    }
}

} // verus!
