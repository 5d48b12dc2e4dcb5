//! Accumulates the bytes read from the client and hands out complete frames.
//!
//! The owner of the input stream pushes each chunk it reads with
//! [`RPCMessageStream::extend_from_reader`] and then asks
//! [`RPCMessageStream::get_message_from_reader`] for a frame; a frame may be
//! cut anywhere, across any number of chunks.

use crate::rpc::error::DecodeError;
use crate::rpc::frame::{
    concat, decimal, frame_bytes, header_end, header_prefix, is_digit, lemma_chunked_frame,
    lemma_decimal, scan, scan_frame, utf8_text, FrameScan,
};
use vstd::prelude::*;
use vstd::utf8::{
    decode_utf8, is_leading_byte_width_1, partial_valid_utf8_extend_ascii_block, valid_utf8,
    valid_utf8_concat,
};

verus! {

/// A stream of frames carved out of the bytes received so far.
pub struct RPCMessageStream {
    read_buffer: Vec<u8>,
}

impl View for RPCMessageStream {
    /// The bytes received and not yet handed out as a frame.
    type V = Seq<u8>;

    closed spec fn view(&self) -> Seq<u8> {
        self.read_buffer@
    }
}

/// What taking the next frame out of `buffered` gives: the result, and the
/// bytes left behind.
pub open spec fn next_message(buffered: Seq<u8>) -> (
    Result<Option<Seq<char>>, DecodeError>,
    Seq<u8>,
) {
    match scan(buffered) {
        FrameScan::Partial => (Ok(None), buffered),
        FrameScan::Invalid(e) => (Err(e), buffered),
        FrameScan::Oversized => (Err(DecodeError::ContentLengthNotNumber), buffered),
        FrameScan::Complete { end, .. } => {
            let frame = buffered.take(end as int);
            (
                if valid_utf8(frame) {
                    Ok(Some(decode_utf8(frame)))
                } else {
                    Err(DecodeError::InvalidMessageEncoding)
                },
                buffered.skip(end as int),
            )
        },
    }
}

impl RPCMessageStream {
    /// A stream that has received nothing yet.
    pub fn new() -> (r: Self)
        ensures
            r@ == Seq::<u8>::empty(),
    {
        RPCMessageStream { read_buffer: Vec::with_capacity(1024) }
    }

    /// Appends a chunk that the reader delivered.
    pub fn extend_from_reader(&mut self, chunk: &[u8])
        ensures
            final(self)@ == old(self)@ + chunk@,
    {
        let mut i: usize = 0;
        while i < chunk.len()
            invariant
                i <= chunk@.len(),
                self@ == old(self)@ + chunk@.take(i as int),
            decreases chunk@.len() - i,
        {
            self.read_buffer.push(chunk[i]);
            proof {
                assert(chunk@.take(i + 1) =~= chunk@.take(i as int).push(chunk@[i as int]));
            }
            i = i + 1;
        }
        assert(chunk@.take(chunk@.len() as int) =~= chunk@);
    }

    /// Takes the next complete frame, header included, out of the bytes
    /// received so far.
    ///
    /// Gives `Ok(None)` while the frame is incomplete and an error when the
    /// bytes can never form a frame; both leave the bytes in place. A complete
    /// frame is removed, and given back as text when it is valid UTF-8.
    pub fn get_message_from_reader(&mut self) -> (r: Result<Option<String>, DecodeError>)
        ensures
            final(self)@ == next_message(old(self)@).1,
            match (r, next_message(old(self)@).0) {
                (Ok(Some(s)), Ok(Some(t))) => s@ == t,
                (Ok(None), Ok(None)) => true,
                (Err(e), Err(f)) => e == f,
                _ => false,
            },
    {
        match scan_frame(self.read_buffer.as_slice()) {
            FrameScan::Partial => Ok(None),
            FrameScan::Invalid(e) => Err(e),
            FrameScan::Oversized => Err(DecodeError::ContentLengthNotNumber),
            FrameScan::Complete { end, .. } => {
                let rest = self.read_buffer.split_off(end);
                let text = utf8_text(self.read_buffer.as_slice());
                self.read_buffer = rest;
                match text {
                    Some(s) => Ok(Some(s)),
                    None => Err(DecodeError::InvalidMessageEncoding),
                }
            },
        }
    }
}

/// The frame of a text is text: its header is ASCII.
proof fn lemma_frame_valid_utf8(body: Seq<u8>)
    requires
        valid_utf8(body),
    ensures
        valid_utf8(frame_bytes(body)),
{
    let h = header_prefix() + decimal(body.len()) + header_end();
    lemma_decimal(body.len());
    assert forall|i: int| 0 <= i < h.len() implies #[trigger] is_leading_byte_width_1(h[i]) by {
        if 16 <= i < 16 + decimal(body.len()).len() {
            assert(is_digit(decimal(body.len())[i - 16]));
        }
    }
    assert(valid_utf8(h.subrange(0, 0))) by {
        assert(h.subrange(0, 0).len() == 0);
    }
    partial_valid_utf8_extend_ascii_block(h, 0, h.len() as int);
    assert(h.subrange(0, h.len() as int) =~= h);
    valid_utf8_concat(h, body);
    assert(frame_bytes(body) =~= h + body);
}

/// However the bytes of a frame are cut into chunks, a stream that receives
/// them one chunk at a time, and is asked for a message after each, gives
/// nothing until the last byte has arrived, and then gives the whole frame
/// and keeps nothing back.
pub proof fn lemma_stream_chunking(chunks: Seq<Seq<u8>>, body: Seq<u8>)
    requires
        concat(chunks) == frame_bytes(body),
        frame_bytes(body).len() <= usize::MAX,
        valid_utf8(body),
    ensures
        forall|i: int|
            0 <= i <= chunks.len() && (#[trigger] concat(chunks.take(i))).len()
                < frame_bytes(body).len() ==> next_message(concat(chunks.take(i))) == (
                Ok::<Option<Seq<char>>, DecodeError>(None),
                concat(chunks.take(i)),
            ),
        next_message(concat(chunks)) == (
            Ok::<Option<Seq<char>>, DecodeError>(Some(decode_utf8(frame_bytes(body)))),
            Seq::<u8>::empty(),
        ),
{
    lemma_frame_valid_utf8(body);
    lemma_chunked_frame(chunks, body);
    let f = frame_bytes(body);
    assert(f.take(f.len() as int) =~= f);
    assert(f.skip(f.len() as int) =~= Seq::<u8>::empty());
}

} // verus!
