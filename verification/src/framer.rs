//! Length-prefixed framing: every frame on the wire is preceded by its
//! length as a big-endian 32-bit integer, and a connection never accepts a
//! frame longer than its negotiated maximum.

use vstd::prelude::*;
use crate::frame::{Frame, FrameV, frame_dec, frame_enc};
use crate::status::Status;
use crate::wire;

verus! {

/// The default and largest frame size the agent offers.
pub const MAX_FRAME_SIZE: usize = 16384;

/// Turns frames into length-prefixed byte strings and back, enforcing the
/// negotiated maximum frame size.
#[derive(Clone, Copy, Debug, PartialEq, Eq, Structural)]
pub struct Framer {
    pub max_frame_size: usize,
}

impl Framer {
    /// A framer bound to the given maximum frame size.
    pub fn new(max_frame_size: usize) -> (r: Framer)
        ensures
            r.max_frame_size == max_frame_size,
    {
        Framer { max_frame_size }
    }

    /// Whether a declared frame length is acceptable; a longer frame is a
    /// fatal framing error.
    pub fn accept_length(&self, len: u32) -> (r: Result<(), Status>)
        ensures
            r is Ok <==> len <= self.max_frame_size,
            r is Err ==> r == Err::<(), Status>(Status::BadFrameSize),
    {
        if len as usize <= self.max_frame_size {
            Ok(())
        } else {
            Err(Status::BadFrameSize)
        }
    }

    /// Decodes a frame body that was read after an accepted length prefix.
    /// A body longer than the maximum is rejected, and any parse failure
    /// surfaces as `Invalid`.
    pub fn decode_body(&self, body: &Vec<u8>) -> (r: Result<Frame, Status>)
        ensures
            body@.len() > self.max_frame_size ==> r == Err::<Frame, Status>(Status::BadFrameSize),
            body@.len() <= self.max_frame_size ==> match r {
                Ok(f) => frame_dec(body@) == Ok::<FrameV, Status>(f@),
                Err(e) => e == Status::Invalid && frame_dec(body@) is Err,
            },
    {
        if body.len() > self.max_frame_size {
            return Err(Status::BadFrameSize);
        }
        match crate::decode::parse_frame(body) {
            Ok(f) => Ok(f),
            Err(_) => Err(Status::Invalid),
        }
    }

    /// Serializes a frame with its length prefix, ready to be written out.
    pub fn encode_frame(&self, f: &Frame) -> (r: Vec<u8>)
        requires
            frame_enc(f@).len() <= u32::MAX,
        ensures
            r@ == wire::u32_be_enc(frame_enc(f@).len() as u32) + frame_enc(f@),
    {
        let mut body: Vec<u8> = Vec::new();
        crate::encode::put_frame(&mut body, f);
        let mut out: Vec<u8> = Vec::new();
        wire::put_u32_be(&mut out, body.len() as u32);
        wire::append_bytes(&mut out, &body);
        assert(out@ =~= wire::u32_be_enc(frame_enc(f@).len() as u32) + frame_enc(f@));
        out
    }
}

/// A frame reader/writer over some byte stream: the stream itself is driven
/// by the caller, while the framer does the byte-exact work.
#[derive(Debug)]
pub struct Codec<T> {
    pub stream: T,
    pub framer: Framer,
}

impl<T> Codec<T> {
    /// Binds a stream to a framer.
    pub fn new(stream: T, framer: Framer) -> (r: Codec<T>)
        ensures
            r.framer == framer,
    {
        Codec { stream, framer }
    }
}

} // verus!
