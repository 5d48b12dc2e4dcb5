//! Decoding the next message straight out of a buffer of received bytes.

use crate::rpc::error::DecodeError;
use crate::rpc::frame::{scan, scan_frame, FrameScan};
use crate::rpc::json::{json_ok, parse_json};
use vstd::prelude::*;

verus! {

/// Takes the next complete frame out of `read_buffer` and parses its body as
/// JSON.
///
/// While the frame is incomplete the result is `Ok(None)`; when the bytes can
/// never form a frame it is the framing error (`ContentLengthNotNumber` for a
/// header that declares more bytes than memory holds). Both leave the buffer
/// as it was. A complete frame is removed from the buffer whether or not its
/// body is JSON.
pub fn decode_from_buffer_rpc(read_buffer: &mut Vec<u8>) -> (r: Result<
    Option<serde_json::Value>,
    DecodeError,
>)
    ensures
        match scan(old(read_buffer)@) {
            FrameScan::Partial => r matches Ok(None) && final(read_buffer)@ == old(read_buffer)@,
            FrameScan::Invalid(e) => (r matches Err(f) && f == e) && final(read_buffer)@ == old(
                read_buffer,
            )@,
            FrameScan::Oversized => (r matches Err(DecodeError::ContentLengthNotNumber))
                && final(read_buffer)@ == old(read_buffer)@,
            FrameScan::Complete { body_start, end } => {
                &&& final(read_buffer)@ == old(read_buffer)@.skip(end as int)
                &&& (r is Ok <==> json_ok(old(read_buffer)@.subrange(body_start as int, end as int)))
                &&& (r matches Ok(Some(_)) || r matches Err(DecodeError::JsonError(_)))
            },
        },
{
    match scan_frame(read_buffer.as_slice()) {
        FrameScan::Partial => Ok(None),
        FrameScan::Invalid(e) => Err(e),
        FrameScan::Oversized => Err(DecodeError::ContentLengthNotNumber),
        FrameScan::Complete { body_start, end } => {
            let rest = read_buffer.split_off(end);
            let body = vstd::slice::slice_subrange(read_buffer.as_slice(), body_start, end);
            assert(body@ =~= old(read_buffer)@.subrange(body_start as int, end as int));
            let parsed = parse_json(body);
            *read_buffer = rest;
            match parsed {
                Ok(v) => Ok(Some(v)),
                Err(e) => Err(DecodeError::JsonError(e)),
            }
        },
    }
}

} // verus!
