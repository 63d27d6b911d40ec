//! Frames on the wire: a big-endian 4-byte length, then that many bytes of
//! payload. Frames longer than 8 MiB are refused.

use tokio_util::bytes::BytesMut;
use tokio_util::codec::{Decoder, Encoder, LengthDelimitedCodec};
use vstd::prelude::*;

verus! {

/// Longest payload a frame may carry.
pub const MAX_FRAME_LEN: usize = 8388608;

/// The four big-endian bytes of a length.
pub open spec fn be_bytes(n: u32) -> Seq<u8> {
    seq![(n >> 24u32) as u8, (n >> 16u32) as u8, (n >> 8u32) as u8, n as u8]
}

/// The length held by the first four bytes, read big-endian.
pub open spec fn be_value(b: Seq<u8>) -> u32 {
    ((b[0] as u32) << 24u32) | ((b[1] as u32) << 16u32) | ((b[2] as u32) << 8u32) | (b[3] as u32)
}

/// The frame carrying a payload.
pub open spec fn frame_of(payload: Seq<u8>) -> Seq<u8> {
    be_bytes(payload.len() as u32) + payload
}

/// Why a frame could not be read or written.
#[derive(Debug, Clone, Copy, PartialEq, Eq, Structural)]
pub enum FrameError {
    /// The frame's length is over the limit.
    TooLong,
}

/// What reading the front of a buffer yields.
#[derive(Debug)]
pub enum Decoded {
    /// More bytes are needed.
    Incomplete,
    /// A whole frame's payload.
    Frame(Vec<u8>),
    /// The announced length is over the limit.
    TooLong,
}

/// Relies on tokio-util's `LengthDelimitedCodec::new()` and its `Encoder<&[u8]>`:
/// a 4-byte big-endian length, then the payload; an error for a payload over
/// 8 MiB.
#[verifier::external_body]
fn length_delimited_encode(payload: &Vec<u8>) -> (r: Option<Vec<u8>>)
    ensures
        r is None <==> payload@.len() > MAX_FRAME_LEN,
        r is Some ==> r->0@ == frame_of(payload@),
{
    let mut dst = BytesMut::new();
    match Encoder::<&[u8]>::encode(&mut LengthDelimitedCodec::new(), payload.as_slice(), &mut dst) {
        Ok(()) => Some(dst.to_vec()),
        Err(_) => None,
    }
}

/// Relies on tokio-util's `LengthDelimitedCodec::new()` and its `Decoder`, run
/// once on a copy of the buffer: fewer than four bytes, or fewer than the
/// announced length after them, are not yet a frame; an announced length over
/// 8 MiB is an error; otherwise the payload follows the four length bytes.
#[verifier::external_body]
fn length_delimited_decode(buf: &Vec<u8>) -> (r: Decoded)
    ensures
        buf@.len() < 4 ==> r is Incomplete,
        buf@.len() >= 4 && be_value(buf@) > MAX_FRAME_LEN ==> r is TooLong,
        buf@.len() >= 4 && be_value(buf@) <= MAX_FRAME_LEN && buf@.len() < 4 + be_value(buf@)
            ==> r is Incomplete,
        buf@.len() >= 4 && be_value(buf@) <= MAX_FRAME_LEN && buf@.len() >= 4 + be_value(buf@)
            ==> r is Frame && r->0@ == buf@.subrange(4, 4 + be_value(buf@)),
{
    let mut src = BytesMut::from(buf.as_slice());
    match LengthDelimitedCodec::new().decode(&mut src) {
        Ok(Some(frame)) => Decoded::Frame(frame.to_vec()),
        Ok(None) => Decoded::Incomplete,
        Err(_) => Decoded::TooLong,
    }
}

/// Frames a payload; payloads over the limit are refused.
pub fn encode_frame(payload: &Vec<u8>) -> (r: Result<Vec<u8>, FrameError>)
    ensures
        payload@.len() > MAX_FRAME_LEN ==> r == Err::<Vec<u8>, FrameError>(FrameError::TooLong),
        payload@.len() <= MAX_FRAME_LEN ==> (r matches Ok(v) && v@ == frame_of(payload@)),
{
    match length_delimited_encode(payload) {
        Some(v) => Ok(v),
        None => Err(FrameError::TooLong),
    }
}

/// Reads the frame at the front of a buffer: its payload and the number of
/// bytes it took, `None` while the frame is incomplete, or an error for a
/// length over the limit.
pub fn decode_frame(buf: &Vec<u8>) -> (r: Result<Option<(Vec<u8>, usize)>, FrameError>)
    ensures
        buf@.len() < 4 ==> r matches Ok(None),
        buf@.len() >= 4 && be_value(buf@) > MAX_FRAME_LEN ==> r == Err::<Option<(Vec<u8>, usize)>, FrameError>(
            FrameError::TooLong,
        ),
        buf@.len() >= 4 && be_value(buf@) <= MAX_FRAME_LEN && buf@.len() < 4 + be_value(buf@)
            ==> r matches Ok(None),
        buf@.len() >= 4 && be_value(buf@) <= MAX_FRAME_LEN && buf@.len() >= 4 + be_value(buf@)
            ==> (r matches Ok(Some((p, used))) && p@ == buf@.subrange(4, 4 + be_value(buf@)) && used
            == 4 + be_value(buf@)),
{
    match length_delimited_decode(buf) {
        Decoded::Incomplete => Ok(None),
        Decoded::TooLong => Err(FrameError::TooLong),
        Decoded::Frame(p) => {
            let used = 4 + p.len();
            Ok(Some((p, used)))
        },
    }
}

proof fn lemma_be_round_trip(n: u32)
    ensures
        be_value(be_bytes(n)) == n,
{
    assert(((((n >> 24u32) as u8) as u32) << 24u32) | ((((n >> 16u32) as u8) as u32) << 16u32) | ((((n
        >> 8u32) as u8) as u32) << 8u32) | ((n as u8) as u32) == n) by (bit_vector);
}

/// Reading back a frame gives the payload it was made from, and the frame's
/// whole length, whatever bytes follow it.
pub proof fn lemma_frame_round_trip(payload: Seq<u8>, rest: Seq<u8>)
    requires
        payload.len() <= MAX_FRAME_LEN,
    ensures
        ({
            let buf = frame_of(payload) + rest;
            &&& buf.len() >= 4
            &&& be_value(buf) == payload.len()
            &&& buf.len() >= 4 + be_value(buf) as int
            &&& buf.subrange(4, 4 + be_value(buf) as int) == payload
        }),
{
    let buf = frame_of(payload) + rest;
    lemma_be_round_trip(payload.len() as u32);
    assert(be_value(buf) == be_value(be_bytes(payload.len() as u32)));
    assert(buf.subrange(4, 4 + payload.len() as int) =~= payload);
}

} // verus!
