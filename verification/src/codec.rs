//! The wire framing: a 4-byte big-endian length followed by that many bytes
//! of frame body.
//!
//! This module frames and unframes bodies. A body is the serialized form of
//! one frame; the functions here treat it as opaque bytes and check only what
//! the framing rules say: a body has at most 16 MiB, and no frame has an empty
//! body.

use crate::buffer::be_bytes;
use crate::buffer::buffered;
use crate::buffer::contents;
use crate::buffer::put_u32;
use crate::text::decimal_digits;
use crate::text::push_decimal;
use bytes::Buf;
use bytes::Bytes;
use bytes::BytesMut;
use vstd::prelude::*;
use vstd::slice::slice_subrange;

verus! {

/// Largest frame body, in bytes (16 MiB).
pub const MAX_FRAME_SIZE: usize = 16 * 1024 * 1024;

/// Size of the length prefix, in bytes.
pub const LENGTH_PREFIX_SIZE: usize = 4;

/// Why framing or unframing failed.
#[derive(Debug)]
pub enum ProtocolError {
    /// A body of this size is larger than a frame may carry.
    FrameTooLarge(usize),
    /// The data ends before the frame does; this many bytes are missing.
    Incomplete(usize),
    /// A frame could not be serialized.
    Encode(String),
    /// A frame body could not be deserialized.
    Decode(String),
    /// The frame breaks a rule of the protocol.
    Invalid(String),
}

/// The mathematical value of a [`ProtocolError`].
pub ghost enum ProtocolErrorView {
    FrameTooLarge(usize),
    Incomplete(usize),
    Encode(Seq<char>),
    Decode(Seq<char>),
    Invalid(Seq<char>),
}

impl View for ProtocolError {
    type V = ProtocolErrorView;

    open spec fn view(&self) -> ProtocolErrorView {
        match *self {
            ProtocolError::FrameTooLarge(size) => ProtocolErrorView::FrameTooLarge(size),
            ProtocolError::Incomplete(missing) => ProtocolErrorView::Incomplete(missing),
            ProtocolError::Encode(what) => ProtocolErrorView::Encode(what@),
            ProtocolError::Decode(what) => ProtocolErrorView::Decode(what@),
            ProtocolError::Invalid(what) => ProtocolErrorView::Invalid(what@),
        }
    }
}

impl ProtocolErrorView {
    /// The message of an error.
    pub open spec fn text(self) -> Seq<char> {
        match self {
            ProtocolErrorView::FrameTooLarge(size) => "Frame size "@ + decimal_digits(size as nat)
                + " exceeds maximum 16777216"@,
            ProtocolErrorView::Incomplete(missing) => "Incomplete frame: need "@ + decimal_digits(
                missing as nat,
            ) + " more bytes"@,
            ProtocolErrorView::Encode(what) => "Encoding error: "@ + what,
            ProtocolErrorView::Decode(what) => "Decoding error: "@ + what,
            ProtocolErrorView::Invalid(what) => "Invalid frame: "@ + what,
        }
    }
}

impl ProtocolError {
    /// The message of the error.
    #[must_use]
    pub fn to_string(&self) -> (text: String)
        ensures
            text@ == self@.text(),
    {
        match self {
            ProtocolError::FrameTooLarge(size) => {
                let mut out = "Frame size ".to_owned();
                push_decimal(&mut out, *size as u64);
                out.concat(" exceeds maximum 16777216")
            },
            ProtocolError::Incomplete(missing) => {
                let mut out = "Incomplete frame: need ".to_owned();
                push_decimal(&mut out, *missing as u64);
                out.concat(" more bytes")
            },
            ProtocolError::Encode(what) => "Encoding error: ".to_owned().concat(what.as_str()),
            ProtocolError::Decode(what) => "Decoding error: ".to_owned().concat(what.as_str()),
            ProtocolError::Invalid(what) => "Invalid frame: ".to_owned().concat(what.as_str()),
        }
    }
}

/// What the message of an empty frame body says.
pub open spec fn empty_body_text() -> Seq<char> {
    "empty frame body"@
}

/// The number that the first four bytes of `data` spell, most significant
/// byte first.
pub open spec fn prefix_value(data: Seq<u8>) -> nat
    recommends
        data.len() >= 4,
{
    (data[0] as nat) * 0x100_0000 + (data[1] as nat) * 0x1_0000 + (data[2] as nat) * 0x100 + (
    data[3] as nat)
}

/// A body with its length prefix in front.
pub open spec fn framed(body: Seq<u8>) -> Seq<u8>
    recommends
        body.len() <= MAX_FRAME_SIZE,
{
    be_bytes(body.len() as u32) + body
}

/// What decoding one frame from `data` gives: the body, or the reason why
/// there is none. The checks come in this order: the prefix is there; it
/// declares at most 16 MiB; the body is there; the body is not empty.
pub open spec fn decode_outcome(data: Seq<u8>) -> Result<Seq<u8>, ProtocolErrorView> {
    if data.len() < LENGTH_PREFIX_SIZE {
        Err(ProtocolErrorView::Incomplete((LENGTH_PREFIX_SIZE - data.len()) as usize))
    } else if prefix_value(data) > MAX_FRAME_SIZE {
        Err(ProtocolErrorView::FrameTooLarge(prefix_value(data) as usize))
    } else if data.len() < LENGTH_PREFIX_SIZE + prefix_value(data) {
        Err(
            ProtocolErrorView::Incomplete(
                (LENGTH_PREFIX_SIZE + prefix_value(data) - data.len()) as usize,
            ),
        )
    } else if prefix_value(data) == 0 {
        Err(ProtocolErrorView::Invalid(empty_body_text()))
    } else {
        Ok(data.subrange(LENGTH_PREFIX_SIZE as int, LENGTH_PREFIX_SIZE + prefix_value(data)))
    }
}

/// The outcome of a decoding that found the body `body`.
pub open spec fn found(body: Seq<u8>) -> Result<Seq<u8>, ProtocolErrorView> {
    Ok(body)
}

/// The outcome of a decoding that failed with `error`.
pub open spec fn refused(error: ProtocolErrorView) -> Result<Seq<u8>, ProtocolErrorView> {
    Err(error)
}

/// What reading one frame from the front of a stream buffer gives.
pub ghost enum Reading {
    /// The buffer holds no complete frame yet.
    NeedMore,
    /// The buffer started with a complete frame that has this body.
    Body(Seq<u8>),
    /// The buffer starts with something that is no frame.
    Failed(ProtocolErrorView),
}

/// What reading one frame from the front of `buffer` gives, and what is left
/// in the buffer afterwards. The buffer changes only when a frame is read:
/// then the frame is gone from its front.
pub open spec fn read_frame(buffer: Seq<u8>) -> (Reading, Seq<u8>) {
    if buffer.len() < LENGTH_PREFIX_SIZE {
        (Reading::NeedMore, buffer)
    } else if prefix_value(buffer) > MAX_FRAME_SIZE {
        (Reading::Failed(ProtocolErrorView::FrameTooLarge(prefix_value(buffer) as usize)), buffer)
    } else if buffer.len() < LENGTH_PREFIX_SIZE + prefix_value(buffer) {
        (Reading::NeedMore, buffer)
    } else if prefix_value(buffer) == 0 {
        (Reading::Failed(ProtocolErrorView::Invalid(empty_body_text())), buffer)
    } else {
        (
            Reading::Body(
                buffer.subrange(LENGTH_PREFIX_SIZE as int, LENGTH_PREFIX_SIZE + prefix_value(buffer)),
            ),
            buffer.skip(LENGTH_PREFIX_SIZE + prefix_value(buffer)),
        )
    }
}

/// The value of the outcome of reading from a stream buffer.
pub open spec fn reading_of(outcome: Result<Option<BytesMut>, ProtocolError>) -> Reading {
    match outcome {
        Ok(None) => Reading::NeedMore,
        Ok(Some(body)) => Reading::Body(buffered(body)),
        Err(e) => Reading::Failed(e@),
    }
}

/// Reads the length that the first four bytes of `data` declare.
fn declared_length(data: &[u8]) -> (length: usize)
    requires
        data@.len() >= 4,
    ensures
        length == prefix_value(data@),
{
    let b0: u64 = data[0] as u64;
    let b1: u64 = data[1] as u64;
    let b2: u64 = data[2] as u64;
    let b3: u64 = data[3] as u64;
    let value: u64 = b0 * 0x100_0000 + b1 * 0x1_0000 + b2 * 0x100 + b3;
    value as usize
}

/// Frames a body: the result is the 4-byte big-endian length of the body
/// followed by the body. A body of more than 16 MiB is refused.
pub fn encode(body: &[u8]) -> (r: Result<Bytes, ProtocolError>)
    ensures
        match r {
            Ok(frame) => body@.len() <= MAX_FRAME_SIZE && contents(frame) == framed(body@),
            Err(e) => body@.len() > MAX_FRAME_SIZE && e@ == ProtocolErrorView::FrameTooLarge(
                body.len(),
            ),
        },
{
    if body.len() > MAX_FRAME_SIZE {
        return Err(ProtocolError::FrameTooLarge(body.len()));
    }
    let mut buf = BytesMut::with_capacity(LENGTH_PREFIX_SIZE + body.len());
    put_u32(&mut buf, body.len() as u32);
    buf.extend_from_slice(body);
    assert(buffered(buf) =~= framed(body@));
    Ok(buf.freeze())
}

/// Frames a body and appends the frame to `buf`. A body of more than 16 MiB
/// is refused, and `buf` stays as it is.
pub fn encode_into(body: &[u8], buf: &mut BytesMut) -> (r: Result<(), ProtocolError>)
    requires
        body@.len() <= MAX_FRAME_SIZE ==> buffered(*old(buf)).len() + LENGTH_PREFIX_SIZE
            + body@.len() <= isize::MAX,
    ensures
        match r {
            Ok(()) => body@.len() <= MAX_FRAME_SIZE && buffered(*final(buf)) == buffered(*old(buf))
                + framed(body@),
            Err(e) => body@.len() > MAX_FRAME_SIZE && e@ == ProtocolErrorView::FrameTooLarge(
                body.len(),
            ) && buffered(*final(buf)) == buffered(*old(buf)),
        },
{
    if body.len() > MAX_FRAME_SIZE {
        return Err(ProtocolError::FrameTooLarge(body.len()));
    }
    buf.reserve(LENGTH_PREFIX_SIZE + body.len());
    put_u32(buf, body.len() as u32);
    buf.extend_from_slice(body);
    assert(buffered(*buf) =~= buffered(*old(buf)) + framed(body@));
    Ok(())
}

/// Takes the body out of the frame at the front of `data`. Bytes after the
/// frame are ignored.
pub fn decode(data: &[u8]) -> (r: Result<&[u8], ProtocolError>)
    ensures
        match r {
            Ok(body) => decode_outcome(data@) == found(body@),
            Err(e) => decode_outcome(data@) == refused(e@),
        },
{
    if data.len() < LENGTH_PREFIX_SIZE {
        return Err(ProtocolError::Incomplete(LENGTH_PREFIX_SIZE - data.len()));
    }
    let length = declared_length(data);
    if length > MAX_FRAME_SIZE {
        return Err(ProtocolError::FrameTooLarge(length));
    }
    let total_size = LENGTH_PREFIX_SIZE + length;
    if data.len() < total_size {
        return Err(ProtocolError::Incomplete(total_size - data.len()));
    }
    if length == 0 {
        return Err(ProtocolError::Invalid("empty frame body".to_owned()));
    }
    Ok(slice_subrange(data, LENGTH_PREFIX_SIZE, total_size))
}

/// Reads one frame from the front of a stream buffer. When the buffer holds a
/// complete frame, the frame is taken off the buffer and its body returned.
/// When it does not, the answer is `None` and the buffer stays as it is, as
/// it does when the front of the buffer is no frame.
pub fn decode_from(buf: &mut BytesMut) -> (r: Result<Option<BytesMut>, ProtocolError>)
    ensures
        (reading_of(r), buffered(*final(buf))) == read_frame(buffered(*old(buf))),
{
    if buf.len() < LENGTH_PREFIX_SIZE {
        return Ok(None);
    }
    let length = declared_length(&*buf);
    if length > MAX_FRAME_SIZE {
        return Err(ProtocolError::FrameTooLarge(length));
    }
    let total_size = LENGTH_PREFIX_SIZE + length;
    if buf.len() < total_size {
        return Ok(None);
    }
    if length == 0 {
        return Err(ProtocolError::Invalid("empty frame body".to_owned()));
    }
    buf.advance(LENGTH_PREFIX_SIZE);
    let payload = buf.split_to(length);
    proof {
        let before = buffered(*old(buf));
        assert(buffered(payload) =~= before.subrange(
            LENGTH_PREFIX_SIZE as int,
            LENGTH_PREFIX_SIZE + prefix_value(before),
        ));
        assert(buffered(*buf) =~= before.skip(LENGTH_PREFIX_SIZE + prefix_value(before)));
    }
    Ok(Some(payload))
}

/// The byte contents of a list of buffers, in order.
pub open spec fn body_views(bodies: Seq<BytesMut>) -> Seq<Seq<u8>> {
    Seq::new(bodies.len(), |i: int| buffered(bodies[i]))
}

/// Reads frame after frame from the front of a stream buffer, until the
/// buffer holds no complete frame or starts with something that is no frame.
/// The bodies read come back in order; the second part of the result tells
/// how reading ended: with `Ok` when more data is needed, with the error
/// otherwise. The buffer keeps what was not read.
pub fn decode_all(buf: &mut BytesMut) -> (r: (Vec<BytesMut>, Result<(), ProtocolError>))
    ensures
        body_views(r.0@) == bodies_in(buffered(*old(buf))),
        buffered(*final(buf)) == left_over(buffered(*old(buf))),
        match r.1 {
            Ok(()) => read_frame(buffered(*final(buf))).0 == Reading::NeedMore,
            Err(e) => read_frame(buffered(*final(buf))).0 == Reading::Failed(e@),
        },
{
    let mut bodies: Vec<BytesMut> = Vec::new();
    let ghost start = buffered(*buf);
    assert(body_views(bodies@) + bodies_in(start) =~= bodies_in(start));
    loop
        invariant
            start == buffered(*old(buf)),
            body_views(bodies@) + bodies_in(buffered(*buf)) == bodies_in(start),
            left_over(buffered(*buf)) == left_over(start),
        decreases buffered(*buf).len(),
    {
        let ghost before = buffered(*buf);
        let ghost read = body_views(bodies@);
        let outcome = decode_from(buf);
        proof {
            assert(read_frame(before).0 == reading_of(outcome));
            assert(read_frame(before).1 == buffered(*buf));
        }
        match outcome {
            Ok(Some(body)) => {
                bodies.push(body);
                proof {
                    assert(bodies_in(before) == seq![buffered(body)] + bodies_in(buffered(*buf)));
                    assert(left_over(before) == left_over(buffered(*buf)));
                    assert(body_views(bodies@) =~= read + seq![buffered(body)]);
                    assert(body_views(bodies@) + bodies_in(buffered(*buf)) =~= read + bodies_in(
                        before,
                    ));
                }
            },
            Ok(None) => {
                proof {
                    assert(bodies_in(before) == Seq::<Seq<u8>>::empty());
                    assert(left_over(before) == before);
                    assert(read + bodies_in(before) =~= read);
                }
                return (bodies, Ok(()));
            },
            Err(e) => {
                proof {
                    assert(bodies_in(before) == Seq::<Seq<u8>>::empty());
                    assert(left_over(before) == before);
                    assert(read + bodies_in(before) =~= read);
                }
                return (bodies, Err(e));
            },
        }
    }
}

/// A frame codec without state of its own.
#[derive(Debug, Default)]
pub struct FrameCodec {}

impl FrameCodec {
    /// A new codec.
    #[must_use]
    pub fn new() -> (codec: Self) {
        FrameCodec {  }
    }

    /// Frames a body, as [`encode`] does.
    pub fn encode(&self, body: &[u8]) -> (r: Result<Bytes, ProtocolError>)
        ensures
            match r {
                Ok(frame) => body@.len() <= MAX_FRAME_SIZE && contents(frame) == framed(body@),
                Err(e) => body@.len() > MAX_FRAME_SIZE && e@ == ProtocolErrorView::FrameTooLarge(
                    body.len(),
                ),
            },
    {
        encode(body)
    }

    /// Takes the body out of a frame, as [`decode`] does.
    pub fn decode<'a>(&self, data: &'a [u8]) -> (r: Result<&'a [u8], ProtocolError>)
        ensures
            match r {
                Ok(body) => decode_outcome(data@) == found(body@),
                Err(e) => decode_outcome(data@) == refused(e@),
            },
    {
        decode(data)
    }

    /// Reads one frame from a stream buffer, as [`decode_from`] does.
    pub fn decode_from(&self, buf: &mut BytesMut) -> (r: Result<Option<BytesMut>, ProtocolError>)
        ensures
            (reading_of(r), buffered(*final(buf))) == read_frame(buffered(*old(buf))),
    {
        decode_from(buf)
    }
}

/// The prefix of a framed body spells the body's length.
pub proof fn lemma_prefix_of_framed(body: Seq<u8>, rest: Seq<u8>)
    requires
        body.len() <= MAX_FRAME_SIZE,
    ensures
        prefix_value(framed(body) + rest) == body.len(),
        (framed(body) + rest).len() == LENGTH_PREFIX_SIZE + body.len() + rest.len(),
        (framed(body) + rest).subrange(
            LENGTH_PREFIX_SIZE as int,
            LENGTH_PREFIX_SIZE + body.len(),
        ) == body,
        (framed(body) + rest).skip(LENGTH_PREFIX_SIZE + body.len()) == rest,
{
    let n = body.len() as u32;
    let prefix = be_bytes(n);
    let data = framed(body) + rest;
    assert(prefix.len() == 4);
    assert(data =~= prefix + (body + rest));
    lemma_be_bytes_spell(n);
    lemma_prefix_of_concat(prefix, body + rest);
    assert(data.subrange(4, 4 + body.len() as int) =~= body);
    assert(data.skip(4 + body.len() as int) =~= rest);
}

/// The number that the first four bytes spell does not depend on what
/// follows them.
proof fn lemma_prefix_of_concat(prefix: Seq<u8>, rest: Seq<u8>)
    requires
        prefix.len() == 4,
    ensures
        prefix_value(prefix + rest) == prefix_value(prefix),
{
    let data = prefix + rest;
    assert(data[0] == prefix[0]);
    assert(data[1] == prefix[1]);
    assert(data[2] == prefix[2]);
    assert(data[3] == prefix[3]);
}

/// The four big-endian bytes of a number spell that number.
pub proof fn lemma_be_bytes_spell(n: u32)
    ensures
        prefix_value(be_bytes(n)) == n,
{
    let b0 = (n / 0x100_0000) as int;
    let b1 = ((n / 0x1_0000) % 0x100) as int;
    let b2 = ((n / 0x100) % 0x100) as int;
    let b3 = (n % 0x100) as int;
    assert(0 <= b0 < 0x100 && 0 <= b1 < 0x100 && 0 <= b2 < 0x100 && 0 <= b3 < 0x100);
    assert(be_bytes(n)[0] == b0);
    assert(be_bytes(n)[1] == b1);
    assert(be_bytes(n)[2] == b2);
    assert(be_bytes(n)[3] == b3);
    assert(b0 * 0x100_0000 + b1 * 0x1_0000 + b2 * 0x100 + b3 == n) by {
        let q2 = (n / 0x100) as int;
        let q1 = (n / 0x1_0000) as int;
        assert(n == q2 * 0x100 + b3);
        assert(q2 == q1 * 0x100 + b2);
        assert(q1 == b0 * 0x100 + b1);
    }
}

/// Unframing undoes framing: decoding the frame of a body gives the body
/// back, for every body that a frame may carry.
pub proof fn lemma_framing_round_trip(body: Seq<u8>)
    requires
        0 < body.len() <= MAX_FRAME_SIZE,
    ensures
        decode_outcome(framed(body)) == found(body),
{
    lemma_prefix_of_framed(body, Seq::empty());
    assert(framed(body) + Seq::<u8>::empty() =~= framed(body));
}

/// A frame that was cut short is reported as incomplete, with the number of
/// bytes that are missing: the rest of the prefix while the prefix is cut,
/// the rest of the frame afterwards.
pub proof fn lemma_cut_frame_is_incomplete(body: Seq<u8>, kept: int)
    requires
        body.len() <= MAX_FRAME_SIZE,
        0 <= kept < LENGTH_PREFIX_SIZE + body.len(),
    ensures
        decode_outcome(framed(body).take(kept)) == refused(
            ProtocolErrorView::Incomplete(
                if kept < LENGTH_PREFIX_SIZE {
                    (LENGTH_PREFIX_SIZE - kept) as usize
                } else {
                    (LENGTH_PREFIX_SIZE + body.len() - kept) as usize
                },
            ),
        ),
{
    lemma_prefix_of_framed(body, Seq::empty());
    assert(framed(body) + Seq::<u8>::empty() =~= framed(body));
    let cut = framed(body).take(kept);
    if kept >= LENGTH_PREFIX_SIZE {
        assert(cut[0] == framed(body)[0]);
        assert(cut[1] == framed(body)[1]);
        assert(cut[2] == framed(body)[2]);
        assert(cut[3] == framed(body)[3]);
    }
}

/// The frames of `bodies`, one after the other.
pub open spec fn framed_all(bodies: Seq<Seq<u8>>) -> Seq<u8>
    decreases bodies.len(),
{
    if bodies.len() == 0 {
        Seq::empty()
    } else {
        framed(bodies[0]) + framed_all(bodies.drop_first())
    }
}

/// The bodies that reading frame after frame from `buffer` gives, until the
/// buffer holds no complete frame or starts with something that is no frame.
pub open spec fn bodies_in(buffer: Seq<u8>) -> Seq<Seq<u8>>
    decreases buffer.len(),
{
    match read_frame(buffer).0 {
        Reading::Body(body) => seq![body] + bodies_in(read_frame(buffer).1),
        _ => Seq::empty(),
    }
}

/// What is left of `buffer` after reading frame after frame from it.
pub open spec fn left_over(buffer: Seq<u8>) -> Seq<u8>
    decreases buffer.len(),
{
    match read_frame(buffer).0 {
        Reading::Body(_) => left_over(read_frame(buffer).1),
        _ => buffer,
    }
}

/// Whether every body is one that a frame may carry: not empty and at most
/// 16 MiB.
pub open spec fn all_framable(bodies: Seq<Seq<u8>>) -> bool {
    forall|i: int| 0 <= i < bodies.len() ==> 0 < (#[trigger] bodies[i]).len() <= MAX_FRAME_SIZE
}

/// Reading from a buffer that holds the frames of `bodies` one after the
/// other gives the first body and leaves the frames of the others.
pub proof fn lemma_read_first(bodies: Seq<Seq<u8>>)
    requires
        all_framable(bodies),
        bodies.len() > 0,
    ensures
        read_frame(framed_all(bodies)) == (
            Reading::Body(bodies[0]),
            framed_all(bodies.drop_first()),
        ),
{
    lemma_prefix_of_framed(bodies[0], framed_all(bodies.drop_first()));
}

/// A buffer that holds exactly the frames of some bodies gives exactly those
/// bodies, in order, when it is read frame after frame; then it is empty and
/// the next read asks for more data.
pub proof fn lemma_stream_round_trip(bodies: Seq<Seq<u8>>)
    requires
        all_framable(bodies),
    ensures
        bodies_in(framed_all(bodies)) == bodies,
        left_over(framed_all(bodies)) == Seq::<u8>::empty(),
        read_frame(left_over(framed_all(bodies))).0 == Reading::NeedMore,
    decreases bodies.len(),
{
    if bodies.len() > 0 {
        lemma_read_first(bodies);
        let rest = bodies.drop_first();
        assert(all_framable(rest)) by {
            assert forall|i: int| 0 <= i < rest.len() implies 0 < (#[trigger] rest[i]).len()
                <= MAX_FRAME_SIZE by {
                assert(rest[i] == bodies[i + 1]);
            }
        }
        lemma_stream_round_trip(rest);
        assert(seq![bodies[0]] + rest =~= bodies);
    }
}

} // verus!
