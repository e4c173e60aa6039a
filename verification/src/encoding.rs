//! The high-byte scheme: the top bit of every transmitted byte is a marker,
//! and the bits it displaces are collected in one extra byte.
use crate::bit_ops::{bit_of, get_bit, lemma_with_bit, set_bit, with_bit};
use vstd::prelude::*;

verus! {

/// Whether `byte` carries the synchronisation marker, its most significant bit.
pub open spec fn marked(byte: u8) -> bool {
    bit_of(byte, 7)
}

/// The high byte that belongs to `payload`: the marker, and at bit `i` the
/// most significant bit of `payload[i]`.
pub open spec fn high_byte_of(payload: Seq<u8>) -> u8
    decreases payload.len(),
{
    if payload.len() == 0 {
        0x80u8
    } else {
        with_bit(
            high_byte_of(payload.drop_last()),
            (payload.len() - 1) as usize,
            bit_of(payload.last(), 7),
        )
    }
}

/// `payload` as it travels: every byte with its marker set.
pub open spec fn marked_payload(payload: Seq<u8>) -> Seq<u8> {
    Seq::new(payload.len(), |i: int| with_bit(payload[i], 7, true))
}

/// What a received `payload` stood for: every byte with its most significant
/// bit taken from bit `i` of `high_byte`.
pub open spec fn restored_payload(high_byte: u8, payload: Seq<u8>) -> Seq<u8> {
    Seq::new(payload.len(), |i: int| with_bit(payload[i], 7, bit_of(high_byte, i as usize)))
}

/// Position of the first byte of `frame` without its marker, or the frame's
/// length where every byte has it.
pub open spec fn first_unmarked(frame: Seq<u8>) -> int
    decreases frame.len(),
{
    if frame.len() == 0 {
        0
    } else if !marked(frame.first()) {
        0
    } else {
        1 + first_unmarked(frame.drop_first())
    }
}

/// A received frame after the code byte: the high byte, then the payload.
pub open spec fn received_frame(high_byte: u8, payload: Seq<u8>) -> Seq<u8> {
    seq![high_byte] + payload
}

/// The payload that a received frame stands for, or the position in the
/// frame (0 is the high byte) of the first byte without its marker.
pub open spec fn decoded(high_byte: u8, payload: Seq<u8>) -> Result<Seq<u8>, usize> {
    let at = first_unmarked(received_frame(high_byte, payload));
    if at == payload.len() + 1 {
        Ok(restored_payload(high_byte, payload))
    } else {
        Err(at as usize)
    }
}

/// Bit by bit, the high byte is the marker at bit 7, the displaced bit of
/// `payload[j]` at every `j` below the payload's length, and nothing else.
pub proof fn lemma_high_byte_bits(payload: Seq<u8>, j: usize)
    requires
        payload.len() <= 7,
        j < 8,
    ensures
        bit_of(high_byte_of(payload), j) == (j == 7 || (j < payload.len() && bit_of(
            payload[j as int],
            7,
        ))),
    decreases payload.len(),
{
    if payload.len() == 0 {
        assert(j < 8 ==> bit_of(0x80u8, j) == (j == 7)) by (bit_vector);
    } else {
        let rest = payload.drop_last();
        lemma_high_byte_bits(rest, j);
        lemma_with_bit(
            high_byte_of(rest),
            (payload.len() - 1) as usize,
            bit_of(payload.last(), 7),
            j,
        );
    }
}

/// Where the first unmarked byte is: at `k` exactly when `frame[k]` lacks
/// the marker and every byte before it has it; at the frame's length
/// exactly when no byte lacks it.
pub proof fn lemma_first_unmarked(frame: Seq<u8>)
    ensures
        0 <= first_unmarked(frame) <= frame.len(),
        forall|k: int| 0 <= k < first_unmarked(frame) ==> marked(#[trigger] frame[k]),
        first_unmarked(frame) < frame.len() ==> !marked(frame[first_unmarked(frame)]),
    decreases frame.len(),
{
    if frame.len() > 0 && marked(frame.first()) {
        let rest = frame.drop_first();
        lemma_first_unmarked(rest);
        assert forall|k: int| 0 <= k < first_unmarked(frame) implies marked(
            #[trigger] frame[k],
        ) by {
            if k > 0 {
                assert(frame[k] == rest[k - 1]);
            }
        }
        if first_unmarked(frame) < frame.len() {
            assert(frame[first_unmarked(frame)] == rest[first_unmarked(rest)]);
        }
    }
}

/// A frame is decoded exactly when every byte of it carries the marker; it
/// is refused at `k` exactly when `k` is the first position without one
/// (0 is the high byte, `i + 1` is payload byte `i`).
pub proof fn lemma_decoded(high_byte: u8, payload: Seq<u8>)
    requires
        payload.len() <= 7,
    ensures
        match decoded(high_byte, payload) {
            Ok(plain) => plain == restored_payload(high_byte, payload) && marked(high_byte)
                && forall|i: int| 0 <= i < payload.len() ==> marked(#[trigger] payload[i]),
            Err(at) => at <= payload.len() && !marked(received_frame(high_byte, payload)[at as int])
                && forall|j: int|
                0 <= j < at ==> marked(#[trigger] received_frame(high_byte, payload)[j]),
        },
{
    let frame = received_frame(high_byte, payload);
    lemma_first_unmarked(frame);
    if first_unmarked(frame) == frame.len() {
        assert(frame[0] == high_byte);
        assert forall|i: int| 0 <= i < payload.len() implies marked(#[trigger] payload[i]) by {
            assert(frame[i + 1] == payload[i]);
        }
    }
}

/// A frame whose byte at position `k` lacks the marker, while every byte
/// before it has one, is refused at `k`: at 0 for the high byte, at `i + 1`
/// for payload byte `i`.
pub proof fn lemma_decoded_reports_first(high_byte: u8, payload: Seq<u8>, k: int)
    requires
        payload.len() <= 7,
        0 <= k <= payload.len(),
        !marked(received_frame(high_byte, payload)[k]),
        forall|j: int| 0 <= j < k ==> marked(#[trigger] received_frame(high_byte, payload)[j]),
    ensures
        decoded(high_byte, payload) == Err::<Seq<u8>, usize>(k as usize),
{
    let frame = received_frame(high_byte, payload);
    lemma_first_unmarked(frame);
    let at = first_unmarked(frame);
    if at < k {
        assert(marked(frame[at]));
    }
}

/// A byte is fixed by its eight bits.
pub proof fn lemma_same_bits(a: u8, b: u8)
    requires
        forall|j: usize| j < 8 ==> bit_of(a, j) == bit_of(b, j),
    ensures
        a == b,
{
    assert(bit_of(a, 0) == bit_of(b, 0) && bit_of(a, 1) == bit_of(b, 1) && bit_of(a, 2) == bit_of(
        b,
        2,
    ) && bit_of(a, 3) == bit_of(b, 3) && bit_of(a, 4) == bit_of(b, 4) && bit_of(a, 5) == bit_of(
        b,
        5,
    ) && bit_of(a, 6) == bit_of(b, 6) && bit_of(a, 7) == bit_of(b, 7) ==> a == b)
        by (bit_vector);
}

/// Encoding and then decoding gives the payload back, whatever it holds.
pub proof fn lemma_decode_encode(payload: Seq<u8>)
    requires
        payload.len() <= 7,
    ensures
        decoded(high_byte_of(payload), marked_payload(payload)) == Ok::<Seq<u8>, usize>(payload),
{
    let high = high_byte_of(payload);
    let sent = marked_payload(payload);
    let frame = received_frame(high, sent);
    lemma_high_byte_bits(payload, 7);
    lemma_first_unmarked(frame);
    if first_unmarked(frame) < frame.len() {
        let k = first_unmarked(frame);
        if k > 0 {
            assert(frame[k] == sent[k - 1]);
            lemma_with_bit(payload[k - 1], 7, true, 7);
        }
    }
    assert forall|i: int| 0 <= i < payload.len() implies restored_payload(high, sent)[i]
        == payload[i] by {
        lemma_high_byte_bits(payload, i as usize);
        let b = payload[i];
        assert(with_bit(with_bit(b, 7, true), 7, bit_of(b, 7)) == b) by (bit_vector);
    }
    assert(restored_payload(high, sent) =~= payload);
}

/// Decoding and then encoding gives the frame back, for every frame whose
/// bytes all carry the marker and whose high byte holds nothing at the bits
/// that stand for no payload byte.
pub proof fn lemma_encode_decode(high_byte: u8, payload: Seq<u8>)
    requires
        payload.len() <= 7,
        marked(high_byte),
        forall|i: int| 0 <= i < payload.len() ==> marked(#[trigger] payload[i]),
        forall|j: usize| payload.len() <= j < 7 ==> !bit_of(high_byte, j),
    ensures
        decoded(high_byte, payload) == Ok::<Seq<u8>, usize>(
            restored_payload(high_byte, payload),
        ),
        high_byte_of(restored_payload(high_byte, payload)) == high_byte,
        marked_payload(restored_payload(high_byte, payload)) == payload,
{
    let frame = received_frame(high_byte, payload);
    let plain = restored_payload(high_byte, payload);
    lemma_first_unmarked(frame);
    if first_unmarked(frame) < frame.len() {
        let k = first_unmarked(frame);
        if k > 0 {
            assert(frame[k] == payload[k - 1]);
        }
    }
    assert forall|j: usize| j < 8 implies bit_of(high_byte_of(plain), j) == bit_of(
        high_byte,
        j,
    ) by {
        lemma_high_byte_bits(plain, j);
        if j < payload.len() {
            lemma_with_bit(payload[j as int], 7, bit_of(high_byte, j), 7);
        }
    }
    lemma_same_bits(high_byte_of(plain), high_byte);
    assert forall|i: int| 0 <= i < payload.len() implies marked_payload(plain)[i]
        == payload[i] by {
        let b = payload[i];
        let v = bit_of(high_byte, i as usize);
        assert(bit_of(b, 7) ==> with_bit(with_bit(b, 7, v), 7, true) == b) by (bit_vector);
    }
    assert(marked_payload(plain) =~= payload);
}

/// Encodes the high bits of `bytes` into an extra high byte.
pub fn encode_high_byte<const N: usize>(bytes: [u8; N]) -> (encoded: (u8, [u8; N]))
    requires
        N <= 7,
    ensures
        encoded.0 == high_byte_of(bytes@),
        encoded.1@ == marked_payload(bytes@),
{
    let mut high_byte: u8 = 0b10000000u8;
    let mut out = bytes;
    let mut index: usize = 0;
    while index < N
        invariant
            N <= 7,
            index <= N,
            high_byte == high_byte_of(bytes@.take(index as int)),
            forall|i: int| 0 <= i < index ==> out@[i] == with_bit(bytes@[i], 7, true),
            forall|i: int| index <= i < N ==> out@[i] == bytes@[i],
        decreases N - index,
    {
        let mut byte: u8 = out[index];
        set_bit(&mut high_byte, index, get_bit(byte, 7));
        set_bit(&mut byte, 7, true);
        out[index] = byte;
        proof {
            let upto = bytes@.take(index + 1);
            assert(upto.drop_last() =~= bytes@.take(index as int));
            assert(upto.last() == bytes@[index as int]);
        }
        index += 1;
    }
    proof {
        assert(bytes@.take(N as int) =~= bytes@);
        assert(out@ =~= marked_payload(bytes@));
    }
    (high_byte, out)
}

/// Applies the high bits to the payload of a received frame.
///
/// Also verifies that the high byte and every payload byte carry the marker.
/// On failure returns the position of the first byte that does not: 0 for
/// the high byte, `i + 1` for payload byte `i`.
pub fn decode_high_byte<const N: usize>(frame: (u8, [u8; N])) -> (plain: Result<[u8; N], usize>)
    requires
        N <= 7,
    ensures
        match plain {
            Ok(bytes) => decoded(frame.0, frame.1@) == Ok::<Seq<u8>, usize>(bytes@),
            Err(at) => decoded(frame.0, frame.1@) == Err::<Seq<u8>, usize>(at),
        },
        plain is Ok <==> marked(frame.0) && forall|i: int|
            0 <= i < N ==> marked(#[trigger] frame.1@[i]),
{
    let high_byte: u8 = frame.0;
    let mut out = frame.1;
    let ghost whole = received_frame(high_byte, frame.1@);
    proof {
        lemma_first_unmarked(whole);
        lemma_decoded(frame.0, frame.1@);
        if let Err(at) = decoded(frame.0, frame.1@) {
            if at > 0 {
                assert(whole[at as int] == frame.1@[at - 1]);
            }
        }
    }
    if !get_bit(high_byte, 7) {
        return Err(0);
    }
    let mut index: usize = 0;
    while index < N
        invariant
            N <= 7,
            index <= N,
            high_byte == frame.0,
            whole == received_frame(high_byte, frame.1@),
            forall|k: int| 0 <= k <= index ==> marked(#[trigger] whole[k]),
            forall|i: int|
                0 <= i < index ==> out@[i] == with_bit(
                    frame.1@[i],
                    7,
                    bit_of(high_byte, i as usize),
                ),
            forall|i: int| index <= i < N ==> out@[i] == frame.1@[i],
        decreases N - index,
    {
        let mut byte: u8 = out[index];
        if !get_bit(byte, 7) {
            proof {
                lemma_first_unmarked(whole);
                assert(whole[index + 1] == byte);
                assert(first_unmarked(whole) == index + 1);
            }
            return Err(index + 1);
        }
        set_bit(&mut byte, 7, get_bit(high_byte, index));
        out[index] = byte;
        proof {
            assert(whole[index + 1] == frame.1@[index as int]);
        }
        index += 1;
    }
    proof {
        lemma_first_unmarked(whole);
        assert(out@ =~= restored_payload(high_byte, frame.1@));
    }
    Ok(out)
}

} // verus!
