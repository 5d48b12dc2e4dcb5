//! The frame header: `Content-Length: <n>\r\n\r\n` followed by `n` bytes of body.
//!
//! [`scan_frame`] looks at the bytes received so far and says whether they
//! start with a complete frame, may still become one, or never can.

use crate::rpc::error::DecodeError;
use vstd::prelude::*;
use vstd::utf8::{decode_utf8, valid_utf8};

verus! {

/// The text that opens every frame.
pub const RPC_HEADER_PREFIX: &'static str = "Content-Length: ";

/// The length in bytes of [`RPC_HEADER_PREFIX`].
pub const RPC_HEADER_LEN: usize = 16;

/// The bytes of [`RPC_HEADER_PREFIX`].
pub open spec fn header_prefix() -> Seq<u8> {
    seq![67u8, 111u8, 110u8, 116u8, 101u8, 110u8, 116u8, 45u8,
         76u8, 101u8, 110u8, 103u8, 116u8, 104u8, 58u8, 32u8]
}

/// The bytes that close a header: `\r\n\r\n`.
pub open spec fn header_end() -> Seq<u8> {
    seq![13u8, 10u8, 13u8, 10u8]
}

pub open spec fn is_digit(b: u8) -> bool {
    48 <= b <= 57
}

pub open spec fn all_digits(s: Seq<u8>) -> bool {
    forall|i: int| 0 <= i < s.len() ==> is_digit(#[trigger] s[i])
}

/// The number that a run of decimal digits denotes.
pub open spec fn digits_value(s: Seq<u8>) -> nat
    decreases s.len(),
{
    if s.len() == 0 {
        0
    } else {
        digits_value(s.drop_last()) * 10 + (s.last() - 48) as nat
    }
}

/// The shortest decimal writing of `n`.
pub open spec fn decimal(n: nat) -> Seq<u8>
    decreases n,
{
    if n < 10 {
        seq![(48 + n) as u8]
    } else {
        decimal(n / 10).push((48 + n % 10) as u8)
    }
}

/// The frame that carries `body`.
pub open spec fn frame_bytes(body: Seq<u8>) -> Seq<u8> {
    header_prefix() + decimal(body.len()) + header_end() + body
}

/// The number of bytes before the first carriage return of `s` (all of
/// them when there is none).
pub open spec fn field_len(s: Seq<u8>) -> nat
    decreases s.len(),
{
    if s.len() == 0 || s[0] == 13 {
        0
    } else {
        1 + field_len(s.drop_first())
    }
}

/// What the bytes received so far hold.
pub enum FrameScan {
    /// No frame yet; more bytes may complete one.
    Partial,
    /// A complete frame spans `0..end`; its body spans `body_start..end`.
    Complete { body_start: usize, end: usize },
    /// No continuation of these bytes is a frame.
    Invalid(DecodeError),
    /// A well-formed header declares a length that fits in `usize`, but a
    /// frame longer than any buffer can hold.
    Oversized,
}

/// The verdict on the bytes `buf` received so far.
///
/// The header must open with [`RPC_HEADER_PREFIX`]; the content-length field
/// runs up to the first carriage return and must be one or more decimal
/// digits; `\r\n\r\n` closes the header; the body has exactly the declared
/// number of bytes. A length that does not fit in `usize` is refused as soon
/// as its field is complete; a header whose length fits but whose frame could
/// not fit in `usize` bytes is [`FrameScan::Oversized`].
pub open spec fn scan(buf: Seq<u8>) -> FrameScan {
    if buf.len() < 16 {
        if buf == header_prefix().take(buf.len() as int) {
            FrameScan::Partial
        } else {
            FrameScan::Invalid(DecodeError::MissingOrInvalidHeader)
        }
    } else if buf.take(16) != header_prefix() {
        FrameScan::Invalid(DecodeError::MissingOrInvalidHeader)
    } else {
        let rest = buf.skip(16);
        let k = field_len(rest);
        let field = rest.take(k as int);
        let tail = rest.skip(k as int);
        if k == rest.len() {
            FrameScan::Partial
        } else if !(k > 0 && all_digits(field)) {
            if valid_utf8(field) {
                FrameScan::Invalid(DecodeError::ContentLengthNotNumber)
            } else {
                FrameScan::Invalid(DecodeError::InvalidContentLengthEncoding)
            }
        } else if digits_value(field) > usize::MAX {
            FrameScan::Invalid(DecodeError::ContentLengthNotNumber)
        } else if tail.len() < 4 {
            if tail == header_end().take(tail.len() as int) {
                FrameScan::Partial
            } else {
                FrameScan::Invalid(DecodeError::MissingOrInvalidHeader)
            }
        } else if tail.take(4) != header_end() {
            FrameScan::Invalid(DecodeError::MissingOrInvalidHeader)
        } else if 20 + k + digits_value(field) > usize::MAX {
            FrameScan::Oversized
        } else if buf.len() < 20 + k + digits_value(field) {
            FrameScan::Partial
        } else {
            FrameScan::Complete {
                body_start: (20 + k) as usize,
                end: (20 + k + digits_value(field)) as usize,
            }
        }
    }
}

/// Relies on `std::str::from_utf8`: it accepts exactly the valid UTF-8 byte
/// sequences, and the text it returns is their decoding.
#[verifier::external_body]
pub(crate) fn utf8_text(b: &[u8]) -> (r: Option<String>)
    ensures
        r is Some <==> valid_utf8(b@),
        r matches Some(s) ==> s@ == decode_utf8(b@),
{
    match std::str::from_utf8(b) {
        Ok(s) => Some(s.to_owned()),
        Err(_) => None,
    }
}

proof fn lemma_field_len(s: Seq<u8>, k: int)
    requires
        0 <= k <= s.len(),
        forall|i: int| 0 <= i < k ==> s[i] != 13,
        k == s.len() || s[k] == 13,
    ensures
        field_len(s) == k,
    decreases k,
{
    if k > 0 {
        lemma_field_len(s.drop_first(), k - 1);
    }
}

proof fn lemma_digits_value_push(s: Seq<u8>, b: u8)
    ensures
        digits_value(s.push(b)) == digits_value(s) * 10 + (b - 48) as nat,
{
    assert(s.push(b).drop_last() =~= s);
}

proof fn lemma_digits_value_prefix(s: Seq<u8>, j: int)
    requires
        0 <= j <= s.len(),
        all_digits(s),
    ensures
        digits_value(s.take(j)) <= digits_value(s),
    decreases s.len(),
{
    if j < s.len() {
        let d = s.drop_last();
        assert(d.take(j) =~= s.take(j));
        assert(all_digits(d)) by {
            assert forall|i: int| 0 <= i < d.len() implies is_digit(#[trigger] d[i]) by {
                assert(d[i] == s[i]);
            }
        }
        lemma_digits_value_prefix(d, j);
    } else {
        assert(s.take(j) =~= s);
    }
}

/// The `i`-th byte of `\r\n\r\n`.
fn header_end_byte(i: usize) -> (b: u8)
    requires
        i < 4,
    ensures
        b == header_end()[i as int],
{
    if i % 2 == 0 {
        13
    } else {
        10
    }
}

/// Decides what the bytes received so far hold; see [`scan`].
pub fn scan_frame(buf: &[u8]) -> (r: FrameScan)
    ensures
        r == scan(buf@),
{
    let n = buf.len();
    let p = RPC_HEADER_PREFIX.as_bytes();
    proof {
        reveal_strlit("Content-Length: ");
        assert(vstd::string::is_ascii(RPC_HEADER_PREFIX));
        vstd::string::is_ascii_spec_bytes(RPC_HEADER_PREFIX);
        assert(p@ =~= header_prefix());
    }
    let m = if n < 16 { n } else { 16 };
    let mut i: usize = 0;
    while i < m
        invariant
            m <= 16,
            m <= n,
            n == buf@.len(),
            p@ == header_prefix(),
            i <= m,
            forall|j: int| 0 <= j < i ==> buf@[j] == header_prefix()[j],
        decreases m - i,
    {
        if buf[i] != p[i] {
            proof {
                if n < 16 {
                    assert(buf@[i as int] != header_prefix().take(n as int)[i as int]);
                } else {
                    assert(buf@.take(16)[i as int] != header_prefix()[i as int]);
                }
            }
            return FrameScan::Invalid(DecodeError::MissingOrInvalidHeader);
        }
        i = i + 1;
    }
    if n < 16 {
        assert(buf@ =~= header_prefix().take(n as int));
        return FrameScan::Partial;
    }
    assert(buf@.take(16) =~= header_prefix());
    let ghost rest = buf@.skip(16);
    // The content-length field runs up to the first carriage return.
    let mut e: usize = 16;
    while e < n && buf[e] != 13
        invariant
            16 <= e <= n,
            n == buf@.len(),
            forall|j: int| 16 <= j < e ==> buf@[j] != 13,
        decreases n - e,
    {
        e = e + 1;
    }
    proof {
        lemma_field_len(rest, e - 16);
    }
    if e == n {
        return FrameScan::Partial;
    }
    let ghost field = rest.take(e - 16);
    assert(forall|j: int| 0 <= j < field.len() ==> field[j] == buf@[16 + j]);
    let mut j: usize = 16;
    let mut digits = e > 16;
    while j < e
        invariant
            16 <= j <= e,
            e < n,
            n == buf@.len(),
            field == buf@.subrange(16, e as int),
            digits <==> (e > 16 && forall|t: int| 16 <= t < j ==> is_digit(#[trigger] buf@[t])),
        decreases e - j,
    {
        if !(48 <= buf[j] && buf[j] <= 57) {
            digits = false;
        }
        j = j + 1;
    }
    assert(field =~= buf@.subrange(16, e as int));
    if !digits {
        proof {
            if e > 16 && all_digits(field) {
                assert forall|t: int| 16 <= t < e implies is_digit(#[trigger] buf@[t]) by {
                    assert(buf@[t] == field[t - 16]);
                }
            }
        }
        let f = vstd::slice::slice_subrange(buf, 16, e);
        assert(f@ =~= field);
        return match utf8_text(f) {
            Some(_) => FrameScan::Invalid(DecodeError::ContentLengthNotNumber),
            None => FrameScan::Invalid(DecodeError::InvalidContentLengthEncoding),
        };
    }
    assert(all_digits(field)) by {
        assert forall|t: int| 0 <= t < field.len() implies is_digit(#[trigger] field[t]) by {
            assert(field[t] == buf@[16 + t]);
        }
    }
    // The declared length, unless the frame could not fit in memory.
    let mut value: usize = 0;
    let mut too_large = false;
    let mut d: usize = 16;
    while d < e && !too_large
        invariant
            16 <= d <= e,
            e < n,
            n == buf@.len(),
            field == buf@.subrange(16, e as int),
            all_digits(field),
            !too_large ==> value == digits_value(field.take(d - 16)),
            too_large ==> digits_value(field) > usize::MAX,
        decreases e - d + (if too_large { 0int } else { 1int }),
    {
        let b = buf[d];
        assert(field[d - 16] == b);
        let digit = (b - 48) as usize;
        proof {
            assert(field.take(d - 16 + 1) =~= field.take(d - 16).push(b));
            lemma_digits_value_push(field.take(d - 16), b);
        }
        if value > (usize::MAX - digit) / 10 {
            proof {
                assert(value * 10 + digit > usize::MAX) by (nonlinear_arith)
                    requires
                        value > (usize::MAX - digit) / 10,
                        digit <= 9,
                ;
                lemma_digits_value_prefix(field, d - 16 + 1);
            }
            too_large = true;
        } else {
            assert(value * 10 + digit <= usize::MAX) by (nonlinear_arith)
                requires
                    value <= (usize::MAX - digit) / 10,
                    digit <= 9,
            ;
            value = value * 10 + digit;
            d = d + 1;
        }
    }
    if too_large {
        return FrameScan::Invalid(DecodeError::ContentLengthNotNumber);
    }
    assert(field.take(e - 16) =~= field);
    let ghost tail = rest.skip(e - 16);
    assert(tail =~= buf@.skip(e as int));
    // The header must be closed by `\r\n\r\n`.
    let mut t: usize = 0;
    while t < 4 && t < n - e
        invariant
            t <= 4,
            e < n,
            t <= n - e,
            n == buf@.len(),
            tail == buf@.skip(e as int),
            tail == rest.skip(e - 16),
            rest == buf@.skip(16),
            buf@.take(16) == header_prefix(),
            field_len(rest) == e - 16,
            field == rest.take(e - 16),
            all_digits(field),
            e > 16,
            value == digits_value(field),
            forall|q: int| 0 <= q < t ==> buf@[e + q] == header_end()[q],
        decreases 4 - t,
    {
        if buf[e + t] != header_end_byte(t) {
            proof {
                if tail.len() < 4 {
                    assert(tail[t as int] != header_end().take(tail.len() as int)[t as int]);
                } else {
                    assert(tail.take(4)[t as int] != header_end()[t as int]);
                }
            }
            return FrameScan::Invalid(DecodeError::MissingOrInvalidHeader);
        }
        t = t + 1;
    }
    if t < 4 {
        assert(tail =~= header_end().take(tail.len() as int));
        return FrameScan::Partial;
    }
    assert(tail.take(4) =~= header_end()) by {
        assert forall|q: int| 0 <= q < 4 implies tail.take(4)[q] == header_end()[q] by {
            assert(tail.take(4)[q] == buf@[e + q]);
        }
    }
    if e > usize::MAX - 4 || value > usize::MAX - 4 - e {
        return FrameScan::Oversized;
    }
    let end = e + 4 + value;
    if n < end {
        FrameScan::Partial
    } else {
        FrameScan::Complete { body_start: e + 4, end }
    }
}

/// The bytes of `chunks`, one after another.
pub open spec fn concat(chunks: Seq<Seq<u8>>) -> Seq<u8>
    decreases chunks.len(),
{
    if chunks.len() == 0 {
        Seq::empty()
    } else {
        concat(chunks.drop_last()) + chunks.last()
    }
}

pub proof fn lemma_decimal(n: nat)
    ensures
        decimal(n).len() > 0,
        all_digits(decimal(n)),
        digits_value(decimal(n)) == n,
    decreases n,
{
    if n < 10 {
        assert(decimal(n).drop_last() =~= Seq::<u8>::empty());
        assert(digits_value(Seq::<u8>::empty()) == 0);
        assert(digits_value(decimal(n)) == n);
    } else {
        lemma_decimal(n / 10);
        let d = (48 + n % 10) as u8;
        assert((d - 48) as nat == n % 10);
        assert(n == (n / 10) * 10 + n % 10) by (nonlinear_arith);
        lemma_digits_value_push(decimal(n / 10), d);
        let s = decimal(n);
        assert forall|i: int| 0 <= i < s.len() implies is_digit(#[trigger] s[i]) by {
            if i < s.len() - 1 {
                assert(s[i] == decimal(n / 10)[i]);
            }
        }
    }
}

/// The scan of any bytes that agree with a frame as far as both go: no
/// frame while they are shorter than it, that frame once they reach its end.
pub proof fn lemma_scan_along_frame(body: Seq<u8>, buf: Seq<u8>)
    requires
        frame_bytes(body).len() <= usize::MAX,
        forall|j: int|
            0 <= j < buf.len() && j < frame_bytes(body).len() ==> buf[j] == frame_bytes(body)[j],
    ensures
        scan(buf) == if buf.len() < frame_bytes(body).len() {
            FrameScan::Partial
        } else {
            FrameScan::Complete {
                body_start: (frame_bytes(body).len() - body.len()) as usize,
                end: frame_bytes(body).len() as usize,
            }
        },
{
    let f = frame_bytes(body);
    let dec = decimal(body.len());
    let k = dec.len() as int;
    lemma_decimal(body.len());
    assert(f.len() == 20 + k + body.len());
    assert forall|j: int| 0 <= j < 16 implies f[j] == header_prefix()[j] by {}
    assert forall|j: int| 16 <= j < 16 + k implies f[j] == dec[j - 16] by {}
    assert forall|j: int| 16 + k <= j < 20 + k implies f[j] == header_end()[j - 16 - k] by {}
    if buf.len() < 16 {
        assert(buf =~= header_prefix().take(buf.len() as int));
    } else {
        assert(buf.take(16) =~= header_prefix());
        let rest = buf.skip(16);
        if rest.len() <= k {
            assert forall|i: int| 0 <= i < rest.len() implies rest[i] != 13 by {
                assert(rest[i] == dec[i]);
                assert(is_digit(dec[i]));
            }
            lemma_field_len(rest, rest.len() as int);
        } else {
            assert forall|i: int| 0 <= i < k implies rest[i] != 13 by {
                assert(rest[i] == dec[i]);
                assert(is_digit(dec[i]));
            }
            assert(rest[k] == 13);
            lemma_field_len(rest, k);
            assert(rest.take(k) =~= dec);
            let tail = rest.skip(k);
            if tail.len() < 4 {
                assert(tail =~= header_end().take(tail.len() as int));
            } else {
                assert(tail.take(4) =~= header_end());
            }
        }
    }
}

/// However the bytes of one frame are cut into chunks, a reader that
/// appends each chunk to its buffer and scans after each one finds no frame
/// while the frame is incomplete, and finds exactly that frame once its
/// last byte has arrived.
pub proof fn lemma_chunked_frame(chunks: Seq<Seq<u8>>, body: Seq<u8>)
    requires
        concat(chunks) == frame_bytes(body),
        frame_bytes(body).len() <= usize::MAX,
    ensures
        forall|i: int|
            0 <= i <= chunks.len() && (#[trigger] concat(chunks.take(i))).len()
                < frame_bytes(body).len() ==> scan(concat(chunks.take(i))) == FrameScan::Partial,
        scan(concat(chunks)) == (FrameScan::Complete {
            body_start: (frame_bytes(body).len() - body.len()) as usize,
            end: frame_bytes(body).len() as usize,
        }),
{
    assert forall|i: int|
        0 <= i <= chunks.len() && (#[trigger] concat(chunks.take(i))).len()
            < frame_bytes(body).len() implies scan(concat(chunks.take(i))) == FrameScan::Partial by {
        lemma_concat_prefix(chunks, i);
        lemma_scan_along_frame(body, concat(chunks.take(i)));
    }
    lemma_scan_along_frame(body, concat(chunks));
}

/// The bytes of the first `i` chunks begin the bytes of all of them.
proof fn lemma_concat_prefix(chunks: Seq<Seq<u8>>, i: int)
    requires
        0 <= i <= chunks.len(),
    ensures
        concat(chunks.take(i)).len() <= concat(chunks).len(),
        forall|j: int|
            0 <= j < concat(chunks.take(i)).len() ==> concat(chunks.take(i))[j] == concat(chunks)[j],
    decreases chunks.len(),
{
    if i == chunks.len() {
        assert(chunks.take(i) =~= chunks);
    } else {
        let d = chunks.drop_last();
        assert(d.take(i) =~= chunks.take(i));
        lemma_concat_prefix(d, i);
        assert forall|j: int| 0 <= j < concat(d).len() implies concat(d)[j] == concat(chunks)[j] by {}
    }
}

} // verus!
