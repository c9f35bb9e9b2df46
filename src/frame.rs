//! Length-prefixed framing: a frame is a four-byte little-endian length `n`
//! followed by `n` payload bytes. Readers refuse lengths over a maximum before
//! allocating, and read failures are sorted into "the peer went away" and
//! other I/O errors.

use vstd::prelude::*;

use crate::message::{from_le32, le32};

verus! {

/// Largest payload a reader accepts by default: 16 MiB.
pub const MAX_FRAME_SIZE: usize = 16777216;

/// Bytes a writer puts on the stream for one frame.
pub open spec fn frame_bytes(payload: Seq<u8>) -> Seq<u8> {
    le32(payload.len() as u32) + payload
}

/// The length a frame header declares.
pub open spec fn declared_len(header: Seq<u8>) -> u32 {
    from_le32(header[0], header[1], header[2], header[3])
}

/// What a reader with limit `max` takes from the front of `stream`: the next
/// frame's payload and what follows it; `None` when the stream ends first or
/// the declared length exceeds `max`.
pub open spec fn next_frame(stream: Seq<u8>, max: nat) -> Option<(Seq<u8>, Seq<u8>)> {
    if stream.len() < 4 {
        None
    } else {
        let n = declared_len(stream) as int;
        if n > max || stream.len() < 4 + n {
            None
        } else {
            Some((stream.subrange(4, 4 + n), stream.subrange(4 + n, stream.len() as int)))
        }
    }
}

/// A frame written for a payload within the reader's limit is read back as
/// exactly that payload, whatever follows it on the stream.
pub proof fn lemma_frame_read_back(payload: Seq<u8>, rest: Seq<u8>, max: nat)
    requires
        payload.len() <= max,
        payload.len() <= u32::MAX,
    ensures
        next_frame(frame_bytes(payload) + rest, max) == Some((payload, rest)),
{
    let n = payload.len() as u32;
    let s = frame_bytes(payload) + rest;
    crate::message::lemma_le32_round_trip(n);
    assert(s[0] == le32(n)[0] && s[1] == le32(n)[1] && s[2] == le32(n)[2] && s[3] == le32(n)[3]);
    assert(declared_len(s) == n);
    assert(s.subrange(4, 4 + n) =~= payload);
    assert(s.subrange(4 + n, s.len() as int) =~= rest);
}

/// The header of a frame for a payload of `payload_len` bytes; `None` when the
/// length does not fit in 32 bits.
pub fn frame_header(payload_len: usize) -> (r: Option<[u8; 4]>)
    ensures
        r is Some <==> payload_len <= u32::MAX,
        r matches Some(h) ==> h@ == le32(payload_len as u32),
{
    if payload_len > u32::MAX as usize {
        return None;
    }
    let x = payload_len as u32;
    let h = [(x % 256) as u8, ((x / 256) % 256) as u8, ((x / 65536) % 256) as u8, (x / 16777216) as u8];
    assert(h@ =~= le32(x));
    Some(h)
}

/// Failure modes of reading a frame.
#[derive(Debug)]
pub enum TcpClientError {
    /// The server closed or reset the connection: not fatal to the caller.
    ServerDisconnected(std::io::Error),
    /// The declared length exceeds the reader's limit.
    FrameTooLarge { length: usize, max: usize },
    /// Any other I/O failure.
    Io(std::io::Error),
}

/// The payload length declared by `header`, or `FrameTooLarge` when it
/// exceeds `max`.
pub fn frame_length(header: [u8; 4], max: usize) -> (r: Result<usize, TcpClientError>)
    ensures
        r matches Ok(n) ==> n == declared_len(header@) && n <= max,
        r is Err <==> declared_len(header@) > max,
        r is Err ==> r == Err::<usize, TcpClientError>(
            TcpClientError::FrameTooLarge { length: declared_len(header@) as usize, max },
        ),
{
    let n = crate::message::read_le32(header[0], header[1], header[2], header[3]);
    if n as u64 > max as u64 {
        return Err(TcpClientError::FrameTooLarge { length: n as usize, max });
    }
    Ok(n as usize)
}

/// The kinds of I/O failure that the streaming protocol tells apart.
#[derive(Clone, Copy, Debug, PartialEq, Eq, Structural)]
pub enum StreamErrorKind {
    BrokenPipe,
    ConnectionReset,
    ConnectionAborted,
    UnexpectedEof,
    Other,
}

/// Whether a failure of this kind means that the peer is gone.
pub open spec fn peer_gone(kind: StreamErrorKind) -> bool {
    match kind {
        StreamErrorKind::Other => false,
        _ => true,
    }
}

/// Whether a failure of this kind means that the peer is gone: broken pipe,
/// connection reset or aborted, or an unexpected end of stream.
pub fn is_peer_gone(kind: StreamErrorKind) -> (r: bool)
    ensures
        r == peer_gone(kind),
{
    match kind {
        StreamErrorKind::Other => false,
        _ => true,
    }
}

#[verifier::external_type_specification]
#[verifier::external_body]
pub struct ExIoError(std::io::Error);

/// Relies on `std::io::Error::kind`: sorts the error's kind into the ones the
/// protocol distinguishes.
#[verifier::external_body]
fn error_kind(e: &std::io::Error) -> StreamErrorKind {
    match e.kind() {
        std::io::ErrorKind::BrokenPipe => StreamErrorKind::BrokenPipe,
        std::io::ErrorKind::ConnectionReset => StreamErrorKind::ConnectionReset,
        std::io::ErrorKind::ConnectionAborted => StreamErrorKind::ConnectionAborted,
        std::io::ErrorKind::UnexpectedEof => StreamErrorKind::UnexpectedEof,
        _ => StreamErrorKind::Other,
    }
}

/// The kind of an I/O error, as the protocol sorts it.
pub fn stream_error_kind(e: &std::io::Error) -> StreamErrorKind {
    error_kind(e)
}

/// A read failure of the given kind, as the reader reports it.
pub fn classify_read_error(e: std::io::Error, kind: StreamErrorKind) -> (r: TcpClientError)
    ensures
        peer_gone(kind) ==> r == TcpClientError::ServerDisconnected(e),
        !peer_gone(kind) ==> r == TcpClientError::Io(e),
{
    if is_peer_gone(kind) {
        TcpClientError::ServerDisconnected(e)
    } else {
        TcpClientError::Io(e)
    }
}

/// A read failure as the reader reports it: `ServerDisconnected` when the
/// peer is gone, `Io` otherwise; the error itself is kept either way.
pub fn map_read_error(e: std::io::Error) -> (r: TcpClientError)
    ensures
        r == TcpClientError::ServerDisconnected(e) || r == TcpClientError::Io(e),
{
    let kind = error_kind(&e);
    classify_read_error(e, kind)
}

} // verus!
