//! Unmasked WebSocket text frames, and the detection of a closing peer.

use vstd::prelude::*;
use vstd::string::StringSliceAdditionalSpecFns;

verus! {

/// First byte of a frame that is final and carries text.
pub const TEXT_FRAME: u8 = 0x81;

/// First byte of a frame that closes the connection.
pub const CLOSE_FRAME: u8 = 0x88;

/// The `width` lowest bytes of `n`, most significant first.
pub open spec fn big_endian(n: nat, width: nat) -> Seq<u8>
    decreases width,
{
    if width == 0 {
        Seq::empty()
    } else {
        big_endian(n / 256, (width - 1) as nat).push((n % 256) as u8)
    }
}

/// The bytes before the payload of a text frame whose payload has `len`
/// bytes: the first byte, then the length, in one byte up to 125, after the
/// marker 126 in two bytes up to 65535, after the marker 127 in eight bytes
/// beyond.
pub open spec fn frame_header(len: nat) -> Seq<u8> {
    if len <= 125 {
        seq![TEXT_FRAME, len as u8]
    } else if len <= 65535 {
        seq![TEXT_FRAME, 126u8] + big_endian(len, 2)
    } else {
        seq![TEXT_FRAME, 127u8] + big_endian(len, 8)
    }
}

/// The text frame that carries `payload`.
pub open spec fn text_frame(payload: Seq<u8>) -> Seq<u8> {
    frame_header(payload.len()) + payload
}

/// Appends the `width` lowest bytes of `n`, most significant first.
fn push_big_endian(out: &mut Vec<u8>, n: u64, width: u8)
    ensures
        final(out)@ == old(out)@ + big_endian(n as nat, width as nat),
    decreases width,
{
    if width > 0 {
        push_big_endian(out, n / 256, width - 1);
        out.push((n % 256) as u8);
    }
}

/// The bytes that precede a payload of `len` bytes in a text frame.
pub fn encode_frame_header(len: usize) -> (header: Vec<u8>)
    ensures
        header@ == frame_header(len as nat),
{
    let mut header: Vec<u8> = Vec::new();
    header.push(TEXT_FRAME);
    if len <= 125 {
        header.push(len as u8);
    } else if len <= 65535 {
        header.push(126);
        push_big_endian(&mut header, len as u64, 2);
    } else {
        header.push(127);
        push_big_endian(&mut header, len as u64, 8);
    }
    header
}

/// Encodes `payload` as one unmasked text frame.
pub fn encode_text_frame(payload: &str) -> (frame: Vec<u8>)
    ensures
        frame@ == text_frame(payload.spec_bytes()),
{
    let bytes = payload.as_bytes();
    let mut frame = encode_frame_header(bytes.len());
    frame.extend_from_slice(bytes);
    assert(frame@ == frame_header(bytes@.len()) + bytes@);
    frame
}

/// Whether a chunk read from the peer ends the session: an empty chunk, which
/// is the end of the stream, or one that holds the close byte anywhere.
pub open spec fn ends_session(chunk: Seq<u8>) -> bool {
    chunk.len() == 0 || chunk.contains(CLOSE_FRAME)
}

/// Tells whether a chunk read from the peer ends the session.
pub fn chunk_ends_session(chunk: &[u8]) -> (b: bool)
    ensures
        b == ends_session(chunk@),
{
    if chunk.len() == 0 {
        return true;
    }
    let mut i: usize = 0;
    while i < chunk.len()
        invariant
            i <= chunk.len(),
            forall|j: int| 0 <= j < i ==> chunk@[j] != CLOSE_FRAME,
        decreases chunk.len() - i,
    {
        if chunk[i] == CLOSE_FRAME {
            return true;
        }
        i += 1;
    }
    false
}

} // verus!
