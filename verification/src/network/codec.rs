//! Length-prefixed framing of messages on a substream.
//!
//! A substream carries one message. On the wire the message is a frame: the
//! length of the payload as four bytes, most significant first, followed by
//! the payload itself. A stream is handled here as the bytes that were read
//! from it until it ended.

use vstd::prelude::*;

verus! {

/// Why a message could not be written to or read from a substream.
#[derive(Debug, Clone, Copy, PartialEq, Eq, Structural)]
pub enum CodecError {
    /// The bytes do not have the shape of the expected message.
    MalformedFrame,
    /// The payload is larger than the reader or writer admits.
    PayloadTooLarge,
    /// The stream ended before the message was complete.
    ConnectionLost,
}

/// Number of bytes of a length prefix.
pub const PREFIX_LEN: usize = 4;

/// The largest payload length that a prefix can express.
pub const MAX_PAYLOAD_LEN: usize = 0xffff_ffff;

/// The prefix that announces a payload of `len` bytes.
pub open spec fn length_prefix(len: nat) -> Seq<u8>
    recommends
        len <= MAX_PAYLOAD_LEN,
{
    seq![
        (len / 0x100_0000) as u8,
        (len / 0x1_0000 % 0x100) as u8,
        (len / 0x100 % 0x100) as u8,
        (len % 0x100) as u8,
    ]
}

/// The payload length that the first four bytes of `stream` announce.
pub open spec fn announced_len(stream: Seq<u8>) -> nat
    recommends
        stream.len() >= PREFIX_LEN,
{
    (stream[0] as nat) * 0x100_0000 + (stream[1] as nat) * 0x1_0000 + (stream[2] as nat) * 0x100
        + (stream[3] as nat)
}

/// The frame of a payload.
pub open spec fn frame(payload: Seq<u8>) -> Seq<u8>
    recommends
        payload.len() <= MAX_PAYLOAD_LEN,
{
    length_prefix(payload.len()) + payload
}

/// What reading a message from a finished stream gives, when payloads of up
/// to `max_len` bytes are admitted.
///
/// A stream that ends inside the prefix or inside the announced payload lost
/// its connection. An announced length above `max_len` is refused whatever
/// follows. Bytes after the announced payload make the frame malformed.
pub open spec fn unframe(stream: Seq<u8>, max_len: nat) -> Result<Seq<u8>, CodecError> {
    if stream.len() < PREFIX_LEN {
        Err(CodecError::ConnectionLost)
    } else if announced_len(stream) > max_len {
        Err(CodecError::PayloadTooLarge)
    } else if stream.len() < PREFIX_LEN + announced_len(stream) {
        Err(CodecError::ConnectionLost)
    } else if stream.len() > PREFIX_LEN + announced_len(stream) {
        Err(CodecError::MalformedFrame)
    } else {
        Ok(stream.subrange(PREFIX_LEN as int, stream.len() as int))
    }
}

/// A prefix announces the length it was made for.
pub proof fn lemma_prefix_round_trip(len: nat)
    requires
        len <= MAX_PAYLOAD_LEN,
    ensures
        length_prefix(len).len() == PREFIX_LEN,
        announced_len(length_prefix(len)) == len,
{
    let x = len as u64;
    assert(x / 0x100_0000 < 0x100 && (x / 0x100_0000) * 0x100_0000 + (x / 0x1_0000 % 0x100)
        * 0x1_0000 + (x / 0x100 % 0x100) * 0x100 + x % 0x100 == x) by (bit_vector)
        requires
            x <= 0xffff_ffff,
    ;
}

/// The four bytes of a prefix are the digits of the length they announce.
proof fn lemma_announced_digits(b0: u8, b1: u8, b2: u8, b3: u8)
    ensures
        announced_len(seq![b0, b1, b2, b3]) <= MAX_PAYLOAD_LEN,
        length_prefix(announced_len(seq![b0, b1, b2, b3])) == seq![b0, b1, b2, b3],
{
    let len = announced_len(seq![b0, b1, b2, b3]);
    let x = len as u64;
    let (d0, d1, d2, d3) = (b0 as u64, b1 as u64, b2 as u64, b3 as u64);
    assert(x == d0 * 0x100_0000 + d1 * 0x1_0000 + d2 * 0x100 + d3);
    assert(x / 0x100_0000 == d0 && x / 0x1_0000 % 0x100 == d1 && x / 0x100 % 0x100 == d2 && x
        % 0x100 == d3) by (bit_vector)
        requires
            x == d0 * 0x100_0000 + d1 * 0x1_0000 + d2 * 0x100 + d3,
            d0 < 0x100,
            d1 < 0x100,
            d2 < 0x100,
            d3 < 0x100,
    ;
    assert(length_prefix(len) =~= seq![b0, b1, b2, b3]);
}

/// Reading the frame of a payload gives the payload back, whenever the
/// payload is admitted.
pub proof fn lemma_frame_round_trip(payload: Seq<u8>, max_len: nat)
    requires
        payload.len() <= max_len,
        payload.len() <= MAX_PAYLOAD_LEN,
    ensures
        unframe(frame(payload), max_len) == Ok::<Seq<u8>, CodecError>(payload),
{
    lemma_prefix_round_trip(payload.len());
    let stream = frame(payload);
    assert(announced_len(stream) == announced_len(length_prefix(payload.len())));
    assert(stream.subrange(PREFIX_LEN as int, stream.len() as int) =~= payload);
}

/// A stream reads as a payload only if it is that payload's frame.
pub proof fn lemma_only_frames_read(stream: Seq<u8>, max_len: nat, payload: Seq<u8>)
    requires
        unframe(stream, max_len) == Ok::<Seq<u8>, CodecError>(payload),
    ensures
        stream == frame(payload),
        payload.len() <= max_len,
        payload.len() <= MAX_PAYLOAD_LEN,
{
    let prefix = seq![stream[0], stream[1], stream[2], stream[3]];
    lemma_announced_digits(stream[0], stream[1], stream[2], stream[3]);
    assert(announced_len(stream) == announced_len(prefix));
    assert(payload.len() == announced_len(stream));
    assert(stream =~= prefix + payload);
}

/// Appends the frame of `payload` to `stream`, unless the payload is longer
/// than `max_len` or than a prefix can express.
pub fn write_frame(stream: &mut Vec<u8>, payload: &[u8], max_len: usize) -> (done: Result<
    (),
    CodecError,
>)
    ensures
        done is Ok <==> payload@.len() <= max_len && payload@.len() <= MAX_PAYLOAD_LEN,
        done is Ok ==> final(stream)@ == old(stream)@ + frame(payload@),
        done is Err ==> done == Err::<(), CodecError>(CodecError::PayloadTooLarge),
        done is Err ==> final(stream)@ == old(stream)@,
{
    let len = payload.len();
    if len > max_len || len > MAX_PAYLOAD_LEN {
        return Err(CodecError::PayloadTooLarge);
    }
    stream.push((len / 0x100_0000) as u8);
    stream.push((len / 0x1_0000 % 0x100) as u8);
    stream.push((len / 0x100 % 0x100) as u8);
    stream.push((len % 0x100) as u8);
    assert(stream@ == old(stream)@ + length_prefix(len as nat));
    let mut i: usize = 0;
    while i < len
        invariant
            i <= len,
            len == payload@.len(),
            stream@ == old(stream)@ + length_prefix(len as nat) + payload@.subrange(0, i as int),
        decreases len - i,
    {
        stream.push(payload[i]);
        i += 1;
    }
    assert(payload@.subrange(0, len as int) =~= payload@);
    assert(stream@ =~= old(stream)@ + frame(payload@));
    Ok(())
}

/// Reads the prefix of a stream: the length of the payload that follows,
/// unless the stream ends inside the prefix or announces more than `max_len`
/// bytes.
pub fn payload_len(stream: &[u8], max_len: usize) -> (len: Result<usize, CodecError>)
    ensures
        match len {
            Ok(len) => stream@.len() >= PREFIX_LEN && len == announced_len(stream@) && len
                <= max_len,
            Err(e) => if stream@.len() < PREFIX_LEN {
                e == CodecError::ConnectionLost
            } else {
                e == CodecError::PayloadTooLarge && announced_len(stream@) > max_len
            },
        },
{
    if stream.len() < PREFIX_LEN {
        return Err(CodecError::ConnectionLost);
    }
    let announced: u64 = (stream[0] as u64) * 0x100_0000 + (stream[1] as u64) * 0x1_0000 + (
    stream[2] as u64) * 0x100 + (stream[3] as u64);
    if announced > max_len as u64 {
        return Err(CodecError::PayloadTooLarge);
    }
    Ok(announced as usize)
}

/// Reads the one message of a finished stream.
pub fn read_frame(stream: &[u8], max_len: usize) -> (payload: Result<Vec<u8>, CodecError>)
    ensures
        match payload {
            Ok(payload) => unframe(stream@, max_len as nat) == Ok::<Seq<u8>, CodecError>(payload@),
            Err(e) => unframe(stream@, max_len as nat) == Err::<Seq<u8>, CodecError>(e),
        },
{
    let len = match payload_len(stream, max_len) {
        Ok(len) => len,
        Err(e) => {
            return Err(e);
        },
    };
    let rest = stream.len() - PREFIX_LEN;
    if rest < len {
        Err(CodecError::ConnectionLost)
    } else if rest > len {
        Err(CodecError::MalformedFrame)
    } else {
        Ok(vstd::slice::slice_to_vec(vstd::slice::slice_subrange(stream, PREFIX_LEN, stream.len())))
    }
}

/// Number of bytes of a 64-bit number on the wire.
pub const U64_LEN: usize = 8;

/// The eight bytes of a 64-bit number, most significant first.
pub open spec fn u64_bytes(value: u64) -> Seq<u8> {
    seq![
        (value / 0x100_0000_0000_0000) as u8,
        (value / 0x1_0000_0000_0000 % 0x100) as u8,
        (value / 0x100_0000_0000 % 0x100) as u8,
        (value / 0x1_0000_0000 % 0x100) as u8,
        (value / 0x100_0000 % 0x100) as u8,
        (value / 0x1_0000 % 0x100) as u8,
        (value / 0x100 % 0x100) as u8,
        (value % 0x100) as u8,
    ]
}

/// The number that the eight bytes of `bytes` from position `at` stand for.
pub open spec fn u64_at(bytes: Seq<u8>, at: int) -> nat
    recommends
        0 <= at,
        at + U64_LEN <= bytes.len(),
{
    (bytes[at] as nat) * 0x100_0000_0000_0000 + (bytes[at + 1] as nat) * 0x1_0000_0000_0000 + (
    bytes[at + 2] as nat) * 0x100_0000_0000 + (bytes[at + 3] as nat) * 0x1_0000_0000 + (bytes[at
        + 4] as nat) * 0x100_0000 + (bytes[at + 5] as nat) * 0x1_0000 + (bytes[at + 6] as nat)
        * 0x100 + (bytes[at + 7] as nat)
}

/// The bytes of a number stand for that number, wherever they are found.
pub proof fn lemma_u64_round_trip(value: u64, bytes: Seq<u8>, at: int)
    requires
        0 <= at,
        at + U64_LEN <= bytes.len(),
        bytes.subrange(at, at + U64_LEN) == u64_bytes(value),
    ensures
        u64_at(bytes, at) == value,
{
    let digits = u64_bytes(value);
    assert forall|i: int| 0 <= i < 8 implies bytes[at + i] == digits[i] by {
        assert(bytes.subrange(at, at + U64_LEN)[i] == bytes[at + i]);
    }
    let x = value;
    assert(x / 0x100_0000_0000_0000 < 0x100 && (x / 0x100_0000_0000_0000) * 0x100_0000_0000_0000 + (
    x / 0x1_0000_0000_0000 % 0x100) * 0x1_0000_0000_0000 + (x / 0x100_0000_0000 % 0x100)
        * 0x100_0000_0000 + (x / 0x1_0000_0000 % 0x100) * 0x1_0000_0000 + (x / 0x100_0000 % 0x100)
        * 0x100_0000 + (x / 0x1_0000 % 0x100) * 0x1_0000 + (x / 0x100 % 0x100) * 0x100 + x % 0x100
        == x) by (bit_vector);
}

/// Appends the eight bytes of `value` to `stream`.
pub fn write_u64(stream: &mut Vec<u8>, value: u64)
    ensures
        final(stream)@ == old(stream)@ + u64_bytes(value),
{
    assert(value / 0x100_0000_0000_0000 < 0x100) by (bit_vector);
    stream.push((value / 0x100_0000_0000_0000) as u8);
    stream.push((value / 0x1_0000_0000_0000 % 0x100) as u8);
    stream.push((value / 0x100_0000_0000 % 0x100) as u8);
    stream.push((value / 0x1_0000_0000 % 0x100) as u8);
    stream.push((value / 0x100_0000 % 0x100) as u8);
    stream.push((value / 0x1_0000 % 0x100) as u8);
    stream.push((value / 0x100 % 0x100) as u8);
    stream.push((value % 0x100) as u8);
    assert(stream@ =~= old(stream)@ + u64_bytes(value));
}

/// Reads the number that the eight bytes of `bytes` from position `at` stand
/// for.
pub fn read_u64(bytes: &[u8], at: usize) -> (value: u64)
    requires
        at + U64_LEN <= bytes@.len(),
    ensures
        value == u64_at(bytes@, at as int),
{
    (bytes[at] as u64) * 0x100_0000_0000_0000 + (bytes[at + 1] as u64) * 0x1_0000_0000_0000 + (
    bytes[at + 2] as u64) * 0x100_0000_0000 + (bytes[at + 3] as u64) * 0x1_0000_0000 + (bytes[at
        + 4] as u64) * 0x100_0000 + (bytes[at + 5] as u64) * 0x1_0000 + (bytes[at + 6] as u64)
        * 0x100 + (bytes[at + 7] as u64)
}

} // verus!
