//! Encoding and decoding of framed JSON messages.
//!
//! [`frame_message`] and [`split_frame`] hold the framing; the JSON text
//! inside a frame is printed and parsed by `serde_json`.

use crate::rpc::error::{DecodeError, EncodeError};
use crate::rpc::frame::{
    decimal, frame_bytes, header_end, header_prefix, lemma_scan_along_frame, scan, scan_frame,
    FrameScan, RPC_HEADER_LEN, RPC_HEADER_PREFIX,
};
use crate::rpc::json::{json_ok, parse_json, print_json};
use vstd::prelude::*;
use vstd::string::StrSliceExecFns;
use vstd::string::StringExecFns;
use vstd::utf8::{encode_utf8, is_ascii_chars, is_ascii_chars_encode_utf8};

verus! {

/// Bytes below 128 read as the characters they encode.
pub open spec fn ascii_text(b: Seq<u8>) -> Seq<char> {
    b.map_values(|x: u8| x as char)
}

/// The wire text of a frame whose body is the text `body`: the header
/// declares the body's length in UTF-8 bytes.
pub open spec fn frame_text(body: Seq<char>) -> Seq<char> {
    ascii_text(header_prefix()) + ascii_text(decimal(encode_utf8(body).len())) + ascii_text(
        header_end(),
    ) + body
}

/// The body of a complete wire message, or why there is none.
///
/// A message too short to hold [`RPC_HEADER_PREFIX`] lacks the header. A
/// well-formed header whose declared length differs from the number of bytes
/// after it, however large that length, gives `IncompleteData`.
pub open spec fn unframe(data: Seq<u8>) -> Result<Seq<u8>, DecodeError> {
    if data.len() < 16 {
        Err(DecodeError::MissingOrInvalidHeader)
    } else {
        match scan(data) {
            FrameScan::Complete { body_start, end } => if end == data.len() {
                Ok(data.skip(body_start as int))
            } else {
                Err(DecodeError::IncompleteData)
            },
            FrameScan::Partial => Err(DecodeError::IncompleteData),
            FrameScan::Oversized => Err(DecodeError::IncompleteData),
            FrameScan::Invalid(e) => Err(e),
        }
    }
}

/// The decimal writing of `n`.
fn decimal_text(n: usize) -> (r: String)
    ensures
        r@ == ascii_text(decimal(n as nat)),
    decreases n,
{
    let digits = "0123456789";
    proof {
        reveal_strlit("0123456789");
    }
    assert(vstd::string::is_ascii(digits));
    if n < 10 {
        let r = digits.substring_ascii(n, n + 1).to_owned();
        assert(r@ =~= ascii_text(decimal(n as nat)));
        r
    } else {
        let mut r = decimal_text(n / 10);
        let d = n % 10;
        r.append(digits.substring_ascii(d, d + 1));
        assert(r@ =~= ascii_text(decimal(n as nat)));
        r
    }
}

/// Prefixes the JSON text `json` with the header that declares its length.
pub fn frame_message(json: &str) -> (r: String)
    ensures
        r@ == frame_text(json@),
{
    let mut r = RPC_HEADER_PREFIX.to_owned();
    proof {
        reveal_strlit("Content-Length: ");
        assert(r@ =~= ascii_text(header_prefix()));
    }
    let n = json.as_bytes().len();
    r.append(decimal_text(n).as_str());
    let sep = "\r\n\r\n";
    proof {
        reveal_strlit("\r\n\r\n");
        assert(sep@ =~= ascii_text(header_end()));
    }
    r.append(sep);
    r.append(json);
    assert(r@ =~= frame_text(json@));
    r
}

/// The body of a complete wire message: the message must open with a valid
/// header, and hold exactly as many bytes after it as the header declares.
pub fn split_frame(data: &[u8]) -> (r: Result<&[u8], DecodeError>)
    ensures
        match (r, unframe(data@)) {
            (Ok(b), Ok(c)) => b@ == c,
            (Err(e), Err(f)) => e == f,
            _ => false,
        },
{
    if data.len() < RPC_HEADER_LEN {
        return Err(DecodeError::MissingOrInvalidHeader);
    }
    match scan_frame(data) {
        FrameScan::Complete { body_start, end } => {
            if end == data.len() {
                let body = vstd::slice::slice_subrange(data, body_start, end);
                assert(body@ =~= data@.skip(body_start as int));
                Ok(body)
            } else {
                Err(DecodeError::IncompleteData)
            }
        },
        FrameScan::Partial => Err(DecodeError::IncompleteData),
        FrameScan::Oversized => Err(DecodeError::IncompleteData),
        FrameScan::Invalid(e) => Err(e),
    }
}

/// Frames the compact JSON text of `data`; the framing is that of
/// [`frame_message`].
pub fn jsonrpc_encode(data: &serde_json::Value) -> (r: Result<String, EncodeError>)
    ensures
        r matches Ok(s) && exists|t: Seq<char>| s@ == frame_text(t),
{
    match print_json(data) {
        Ok(json) => Ok(frame_message(json.as_str())),
        Err(e) => Err(EncodeError(e)),
    }
}

/// Checks the frame of a wire message and parses its body as JSON.
///
/// Framing errors are those of [`split_frame`]; a body that is not JSON gives
/// [`DecodeError::JsonError`].
pub fn jsonrpc_decode(data: &str) -> (r: Result<serde_json::Value, DecodeError>)
    ensures
        match unframe(encode_utf8(data@)) {
            Err(e) => r matches Err(f) && f == e,
            Ok(b) => (r is Ok <==> json_ok(b)) && (r is Ok || r matches Err(
                DecodeError::JsonError(_),
            )),
        },
{
    match split_frame(data.as_bytes()) {
        Ok(body) => match parse_json(body) {
            Ok(v) => Ok(v),
            Err(e) => Err(DecodeError::JsonError(e)),
        },
        Err(e) => Err(e),
    }
}

proof fn lemma_encode_utf8_concat(a: Seq<char>, b: Seq<char>)
    ensures
        encode_utf8(a + b) == encode_utf8(a) + encode_utf8(b),
    decreases a.len(),
{
    if a.len() == 0 {
        assert(a + b =~= b);
        assert(encode_utf8(a) =~= Seq::<u8>::empty());
        assert(encode_utf8(a) + encode_utf8(b) =~= encode_utf8(b));
    } else {
        assert((a + b).drop_first() =~= a.drop_first() + b);
        assert((a + b)[0] == a[0]);
        lemma_encode_utf8_concat(a.drop_first(), b);
        assert(encode_utf8(a + b) =~= encode_utf8(a) + encode_utf8(b));
    }
}

proof fn lemma_encode_ascii(b: Seq<u8>)
    requires
        forall|i: int| 0 <= i < b.len() ==> b[i] < 128,
    ensures
        encode_utf8(ascii_text(b)) == b,
{
    let t = ascii_text(b);
    assert(is_ascii_chars(t)) by {
        assert forall|i: int| 0 <= i < t.len() implies '\0' <= #[trigger] t[i] <= '\u{7f}' by {
            assert(t[i] == b[i] as char);
        }
    }
    is_ascii_chars_encode_utf8(t);
    assert forall|i: int| 0 <= i < b.len() implies encode_utf8(t)[i] == b[i] by {
        assert(t[i] == b[i] as char);
        assert(t[i] as u8 == encode_utf8(t)[i]);
    }
    assert(encode_utf8(t) =~= b);
}

/// The bytes of a framed text are the frame of the text's bytes.
pub proof fn lemma_frame_text_bytes(body: Seq<char>)
    ensures
        encode_utf8(frame_text(body)) == frame_bytes(encode_utf8(body)),
{
    let p = header_prefix();
    let d = decimal(encode_utf8(body).len());
    let h = header_end();
    crate::rpc::frame::lemma_decimal(encode_utf8(body).len());
    assert forall|i: int| 0 <= i < d.len() implies d[i] < 128 by {
        assert(crate::rpc::frame::is_digit(d[i]));
    }
    lemma_encode_ascii(p);
    lemma_encode_ascii(d);
    lemma_encode_ascii(h);
    lemma_encode_utf8_concat(ascii_text(p) + ascii_text(d) + ascii_text(h), body);
    lemma_encode_utf8_concat(ascii_text(p) + ascii_text(d), ascii_text(h));
    lemma_encode_utf8_concat(ascii_text(p), ascii_text(d));
}

/// Decoding undoes encoding: the frame that [`frame_message`] builds around a
/// text gives back exactly that text's bytes as its body.
pub proof fn lemma_decode_inverts_encode(body: Seq<char>)
    requires
        encode_utf8(frame_text(body)).len() <= usize::MAX,
    ensures
        unframe(encode_utf8(frame_text(body))) == Ok::<Seq<u8>, DecodeError>(encode_utf8(body)),
{
    lemma_frame_text_bytes(body);
    let f = frame_bytes(encode_utf8(body));
    lemma_scan_along_frame(encode_utf8(body), f);
    assert(f.skip(f.len() - encode_utf8(body).len()) =~= encode_utf8(body));
}

} // verus!
