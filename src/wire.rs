//! Decoding of the binary message envelope that carries one compressed video frame.
use vstd::prelude::*;
use vstd::slice::{slice_subrange, slice_to_vec};

verus! {

/// Length of the envelope header that precedes the fields.
pub const HEADER_LEN: usize = 4;

/// Time of a frame, as an offset from an epoch chosen by the publisher.
#[derive(Debug, Clone, Copy, PartialEq, Eq)]
pub struct Timestamp {
    /// Whole seconds.
    pub sec: u32,
    /// Additional nanoseconds.
    pub nsec: u32,
}

/// One frame of a compressed video stream, as carried by one message.
#[derive(Debug, Clone)]
pub struct CompressedVideo {
    pub timestamp: Timestamp,
    /// Frame of reference of the video.
    pub frame_id: String,
    /// Compressed bytes of the frame (start-code delimited for H.264/H.265).
    pub data: Vec<u8>,
    /// Name of the video format ("h264", "h265", ...).
    pub format: String,
}

/// Why a buffer is not a well-formed message.
#[derive(Debug, Clone, Copy, PartialEq, Eq)]
pub enum DecodeError {
    /// The buffer cannot hold the envelope header.
    TooShort,
    /// A field runs past the end of the buffer, or a text field declares length zero.
    Truncated,
}

/// The fields of a message as bytes; text fields without their terminator.
pub struct WireRecord {
    pub sec: u32,
    pub nsec: u32,
    pub frame_id: Seq<u8>,
    pub data: Seq<u8>,
    pub format: Seq<u8>,
}

/// What the text conversion makes of the bytes of a text field.
pub uninterp spec fn text_of(b: Seq<u8>) -> Seq<char>;

/// Every byte is below 0x80.
pub open spec fn is_ascii(b: Seq<u8>) -> bool {
    forall|i: int| 0 <= i < b.len() ==> b[i] < 0x80
}

/// Each byte read as the character of the same code.
pub open spec fn ascii_chars(b: Seq<u8>) -> Seq<char> {
    b.map_values(|x: u8| x as char)
}

/// Offset `p` rounded up to the next multiple of four.
pub open spec fn align4(p: int) -> int {
    if p % 4 == 0 {
        p
    } else {
        p + (4 - p % 4)
    }
}

/// The integer of four bytes, lowest first.
pub open spec fn u32_le(b0: u8, b1: u8, b2: u8, b3: u8) -> u32 {
    (b0 as u32) | ((b1 as u32) << 8u32) | ((b2 as u32) << 16u32) | ((b3 as u32) << 24u32)
}

/// The integer of the four bytes of `b` at `a`, in the byte order `le` selects.
pub open spec fn u32_at(b: Seq<u8>, a: int, le: bool) -> u32 {
    if le {
        u32_le(b[a], b[a + 1], b[a + 2], b[a + 3])
    } else {
        u32_le(b[a + 3], b[a + 2], b[a + 1], b[a])
    }
}

/// A four-byte integer at the first multiple of four at or after `p`,
/// with the offset that follows it.
pub open spec fn field_u32(b: Seq<u8>, p: int, le: bool) -> Option<(u32, int)> {
    let a = align4(p);
    if a + 4 <= b.len() {
        Some((u32_at(b, a, le), a + 4))
    } else {
        None
    }
}

/// A length-prefixed byte sequence at `p`, with the offset that follows it.
pub open spec fn field_bytes(b: Seq<u8>, p: int, le: bool) -> Option<(Seq<u8>, int)> {
    match field_u32(b, p, le) {
        None => None,
        Some((n, q)) => if q + n <= b.len() {
            Some((b.subrange(q, q + n), q + n))
        } else {
            None
        },
    }
}

/// A length-prefixed text field at `p`: its length counts a terminator,
/// which is dropped; length zero is refused.
pub open spec fn field_text(b: Seq<u8>, p: int, le: bool) -> Option<(Seq<u8>, int)> {
    match field_bytes(b, p, le) {
        None => None,
        Some((s, q)) => if s.len() > 0 {
            Some((s.drop_last(), q))
        } else {
            None
        },
    }
}

/// The message that the buffer `b` holds, or why it holds none.
pub open spec fn parse_record(b: Seq<u8>) -> Result<WireRecord, DecodeError> {
    if b.len() < HEADER_LEN {
        Err(DecodeError::TooShort)
    } else {
        let le = b[1] == 1;
        match field_u32(b, HEADER_LEN as int, le) {
            None => Err(DecodeError::Truncated),
            Some((sec, p1)) => match field_u32(b, p1, le) {
                None => Err(DecodeError::Truncated),
                Some((nsec, p2)) => match field_text(b, p2, le) {
                    None => Err(DecodeError::Truncated),
                    Some((frame_id, p3)) => match field_bytes(b, p3, le) {
                        None => Err(DecodeError::Truncated),
                        Some((data, p4)) => match field_text(b, p4, le) {
                            None => Err(DecodeError::Truncated),
                            Some((format, _p5)) => Ok(
                                WireRecord { sec, nsec, frame_id, data, format },
                            ),
                        },
                    },
                },
            },
        }
    }
}

impl CompressedVideo {
    /// This value holds the fields of `rec`, the text fields converted.
    pub open spec fn holds(&self, rec: WireRecord) -> bool {
        &&& self.timestamp.sec == rec.sec
        &&& self.timestamp.nsec == rec.nsec
        &&& self.frame_id@ == text_of(rec.frame_id)
        &&& self.data@ == rec.data
        &&& self.format@ == text_of(rec.format)
    }
}

/// Relies on String::from_utf8_lossy: the text depends on the bytes alone,
/// and bytes below 0x80 (valid UTF-8) come back as the characters of the same codes.
#[verifier::external_body]
fn text_from_bytes(b: &[u8]) -> (r: String)
    ensures
        r@ == text_of(b@),
        is_ascii(b@) ==> r@ == ascii_chars(b@),
{
    String::from_utf8_lossy(b).into_owned()
}

fn read_u32(buf: &[u8], pos: usize, le: bool) -> (r: Option<(u32, usize)>)
    requires
        pos <= buf@.len(),
    ensures
        match r {
            Some((v, q)) => field_u32(buf@, pos as int, le) == Some((v, q as int)) && q <= buf@.len(),
            None => field_u32(buf@, pos as int, le) is None,
        },
{
    let rem: usize = pos % 4;
    let pad: usize = if rem == 0 { 0 } else { 4 - rem };
    if buf.len() - pos < pad || buf.len() - pos - pad < 4 {
        return None;
    }
    let a: usize = pos + pad;
    let v: u32 = if le {
        (buf[a] as u32) | ((buf[a + 1] as u32) << 8u32) | ((buf[a + 2] as u32) << 16u32) | ((
        buf[a + 3] as u32) << 24u32)
    } else {
        (buf[a + 3] as u32) | ((buf[a + 2] as u32) << 8u32) | ((buf[a + 1] as u32) << 16u32) | ((
        buf[a] as u32) << 24u32)
    };
    Some((v, a + 4))
}

/// Start and end of the bytes of a length-prefixed field at `pos`.
fn read_span(buf: &[u8], pos: usize, le: bool) -> (r: Option<(usize, usize)>)
    requires
        pos <= buf@.len(),
    ensures
        match r {
            Some((s, e)) => s <= e <= buf@.len() && field_bytes(buf@, pos as int, le) == Some(
                (buf@.subrange(s as int, e as int), e as int),
            ),
            None => field_bytes(buf@, pos as int, le) is None,
        },
{
    match read_u32(buf, pos, le) {
        None => None,
        Some((n, q)) => {
            if buf.len() - q < n as usize {
                None
            } else {
                Some((q, q + n as usize))
            }
        },
    }
}

/// Decodes one message buffer into its fields.
pub fn decode(buf: &[u8]) -> (r: Result<CompressedVideo, DecodeError>)
    ensures
        match parse_record(buf@) {
            Ok(rec) => r matches Ok(v) && v.holds(rec),
            Err(e) => r == Err::<CompressedVideo, DecodeError>(e),
        },
{
    if buf.len() < HEADER_LEN {
        return Err(DecodeError::TooShort);
    }
    let le = buf[1] == 1;
    let (sec, p1) = match read_u32(buf, HEADER_LEN, le) {
        Some(x) => x,
        None => return Err(DecodeError::Truncated),
    };
    let (nsec, p2) = match read_u32(buf, p1, le) {
        Some(x) => x,
        None => return Err(DecodeError::Truncated),
    };
    let (f0, f1) = match read_span(buf, p2, le) {
        Some(x) => x,
        None => return Err(DecodeError::Truncated),
    };
    if f0 == f1 {
        return Err(DecodeError::Truncated);
    }
    let (d0, d1) = match read_span(buf, f1, le) {
        Some(x) => x,
        None => return Err(DecodeError::Truncated),
    };
    let (g0, g1) = match read_span(buf, d1, le) {
        Some(x) => x,
        None => return Err(DecodeError::Truncated),
    };
    if g0 == g1 {
        return Err(DecodeError::Truncated);
    }
    let frame_id = text_from_bytes(slice_subrange(buf, f0, f1 - 1));
    let data = slice_to_vec(slice_subrange(buf, d0, d1));
    let format = text_from_bytes(slice_subrange(buf, g0, g1 - 1));
    proof {
        assert(buf@.subrange(f0 as int, f1 - 1) =~= buf@.subrange(f0 as int, f1 as int).drop_last());
        assert(buf@.subrange(g0 as int, g1 - 1) =~= buf@.subrange(g0 as int, g1 as int).drop_last());
    }
    Ok(CompressedVideo { timestamp: Timestamp { sec, nsec }, frame_id, data, format })
}

/// Decodes one message and returns its `data` (the compressed frame) and its `format`.
pub fn decode_compressed_video(buf: &[u8]) -> (r: Option<(Vec<u8>, String)>)
    ensures
        match parse_record(buf@) {
            Ok(rec) => r matches Some((d, f)) && d@ == rec.data && f@ == text_of(rec.format),
            Err(_) => r is None,
        },
{
    match decode(buf) {
        Ok(v) => Some((v.data, v.format)),
        Err(_) => None,
    }
}

/// The elementary unit that a received message hands on: the `data` of a
/// well-formed message when it is not empty, and, as a best effort, the whole
/// payload of a malformed one. An empty payload or empty `data` hands on nothing.
pub fn elementary_unit(payload: &[u8]) -> (r: Option<Vec<u8>>)
    ensures
        payload@.len() == 0 ==> r is None,
        payload@.len() > 0 ==> match parse_record(payload@) {
            Ok(rec) => if rec.data.len() > 0 {
                r matches Some(u) && u@ == rec.data
            } else {
                r is None
            },
            Err(_) => r matches Some(u) && u@ == payload@,
        },
{
    if payload.len() == 0 {
        return None;
    }
    match decode(payload) {
        Ok(v) => if v.data.len() > 0 {
            Some(v.data)
        } else {
            None
        },
        Err(_) => Some(slice_to_vec(payload)),
    }
}

/// The four bytes of `v` in the byte order `le` selects.
pub open spec fn u32_bytes(v: u32, le: bool) -> Seq<u8> {
    let b0 = (v & 0xffu32) as u8;
    let b1 = ((v >> 8u32) & 0xffu32) as u8;
    let b2 = ((v >> 16u32) & 0xffu32) as u8;
    let b3 = ((v >> 24u32) & 0xffu32) as u8;
    if le {
        seq![b0, b1, b2, b3]
    } else {
        seq![b3, b2, b1, b0]
    }
}

/// Zero bytes from offset `p` up to the next multiple of four.
pub open spec fn zero_pad(p: int) -> Seq<u8> {
    Seq::new((align4(p) - p) as nat, |i: int| 0u8)
}

/// The envelope header for byte order `le`.
pub open spec fn header(le: bool) -> Seq<u8> {
    seq![0u8, if le { 1u8 } else { 0u8 }, 0u8, 0u8]
}

/// `b` followed by padding and the integer `v`.
#[verifier::opaque]
pub open spec fn put_u32(b: Seq<u8>, v: u32, le: bool) -> Seq<u8> {
    b + zero_pad(b.len() as int) + u32_bytes(v, le)
}

/// `b` followed by the length-prefixed byte sequence `d`.
#[verifier::opaque]
pub open spec fn put_bytes(b: Seq<u8>, d: Seq<u8>, le: bool) -> Seq<u8> {
    put_u32(b, d.len() as u32, le) + d
}

/// `b` followed by the text field `t` and its terminator.
#[verifier::opaque]
pub open spec fn put_text(b: Seq<u8>, t: Seq<u8>, le: bool) -> Seq<u8> {
    put_bytes(b, t.push(0u8), le)
}

/// Every field of `rec` fits the width of its length field.
pub open spec fn encodable(rec: WireRecord) -> bool {
    &&& rec.frame_id.len() + 1 <= u32::MAX
    &&& rec.data.len() <= u32::MAX
    &&& rec.format.len() + 1 <= u32::MAX
}

/// The buffer that carries `rec` in byte order `le`.
#[verifier::opaque]
pub open spec fn encode(rec: WireRecord, le: bool) -> Seq<u8> {
    put_text(
        put_bytes(
            put_text(put_u32(put_u32(header(le), rec.sec, le), rec.nsec, le), rec.frame_id, le),
            rec.data,
            le,
        ),
        rec.format,
        le,
    )
}

/// `x` is the beginning of `y`.
pub open spec fn prefix(x: Seq<u8>, y: Seq<u8>) -> bool {
    x.len() <= y.len() && y.subrange(0, x.len() as int) == x
}

proof fn lemma_prefix_append(x: Seq<u8>, s: Seq<u8>)
    ensures
        prefix(x, x + s),
{
    assert((x + s).subrange(0, x.len() as int) =~= x);
}

proof fn lemma_prefix_trans(x: Seq<u8>, y: Seq<u8>, z: Seq<u8>)
    requires
        prefix(x, y),
        prefix(y, z),
    ensures
        prefix(x, z),
{
    assert(z.subrange(0, x.len() as int) =~= y.subrange(0, x.len() as int));
}

proof fn lemma_u32_bytes(v: u32)
    ensures
        u32_le(
            (v & 0xffu32) as u8,
            ((v >> 8u32) & 0xffu32) as u8,
            ((v >> 16u32) & 0xffu32) as u8,
            ((v >> 24u32) & 0xffu32) as u8,
        ) == v,
{
    assert((((v & 0xffu32) as u8) as u32) | (((((v >> 8u32) & 0xffu32) as u8) as u32) << 8u32) | (((
    ((v >> 16u32) & 0xffu32) as u8) as u32) << 16u32) | (((((v >> 24u32) & 0xffu32) as u8) as u32)
        << 24u32) == v) by (bit_vector);
}

proof fn lemma_read_put_u32(full: Seq<u8>, b: Seq<u8>, v: u32, le: bool)
    requires
        prefix(put_u32(b, v, le), full),
    ensures
        field_u32(full, b.len() as int, le) == Some((v, put_u32(b, v, le).len() as int)),
{
    reveal(put_u32);
    let w = put_u32(b, v, le);
    let a = align4(b.len() as int);
    assert(w.len() == a + 4);
    assert forall|k: int| 0 <= k < 4 implies full[a + k] == u32_bytes(v, le)[k] by {
        assert(full[a + k] == full.subrange(0, w.len() as int)[a + k]);
    }
    lemma_u32_bytes(v);
}

proof fn lemma_read_put_bytes(full: Seq<u8>, b: Seq<u8>, d: Seq<u8>, le: bool)
    requires
        prefix(put_bytes(b, d, le), full),
        d.len() <= u32::MAX,
    ensures
        field_bytes(full, b.len() as int, le) == Some((d, put_bytes(b, d, le).len() as int)),
{
    reveal(put_bytes);
    let w = put_u32(b, d.len() as u32, le);
    lemma_prefix_append(w, d);
    lemma_prefix_trans(w, put_bytes(b, d, le), full);
    lemma_read_put_u32(full, b, d.len() as u32, le);
    assert(full.subrange(w.len() as int, (w.len() + d.len()) as int) =~= d) by {
        assert forall|k: int| 0 <= k < d.len() implies full[w.len() + k] == d[k] by {
            assert(full[w.len() + k] == full.subrange(0, put_bytes(b, d, le).len() as int)[w.len()
                + k]);
        }
    }
}

proof fn lemma_read_put_text(full: Seq<u8>, b: Seq<u8>, t: Seq<u8>, le: bool)
    requires
        prefix(put_text(b, t, le), full),
        t.len() + 1 <= u32::MAX,
    ensures
        field_text(full, b.len() as int, le) == Some((t, put_text(b, t, le).len() as int)),
{
    reveal(put_text);
    lemma_read_put_bytes(full, b, t.push(0u8), le);
    assert(t.push(0u8).drop_last() =~= t);
}

/// Round trip: the buffer that `encode` builds from a record whose fields fit
/// their length fields parses back to exactly that record, in either byte order.
pub proof fn lemma_round_trip(rec: WireRecord, le: bool)
    requires
        encodable(rec),
    ensures
        parse_record(encode(rec, le)) == Ok::<WireRecord, DecodeError>(rec),
{
    reveal(encode);
    let e = encode(rec, le);
    let s0 = header(le);
    let s1 = put_u32(s0, rec.sec, le);
    let s2 = put_u32(s1, rec.nsec, le);
    let s3 = put_text(s2, rec.frame_id, le);
    let s4 = put_bytes(s3, rec.data, le);
    lemma_prefix_put_u32(s0, rec.sec, le);
    lemma_prefix_put_u32(s1, rec.nsec, le);
    lemma_prefix_put_text(s2, rec.frame_id, le);
    lemma_prefix_put_bytes(s3, rec.data, le);
    lemma_prefix_put_text(s4, rec.format, le);
    lemma_prefix_refl(e);
    lemma_prefix_trans(s4, e, e);
    lemma_prefix_trans(s3, s4, e);
    lemma_prefix_trans(s2, s3, e);
    lemma_prefix_trans(s1, s2, e);
    lemma_prefix_trans(s0, s1, e);
    assert(e[1] == s0[1]) by {
        assert(e[1] == e.subrange(0, 4)[1]);
    }
    assert(align4(4) == 4);
    let le2 = e[1] == 1;
    assert(le2 == le);
    lemma_read_put_u32(e, s0, rec.sec, le);
    assert(field_u32(e, 4, le2) == Some((rec.sec, s1.len() as int)));
    lemma_read_put_u32(e, s1, rec.nsec, le);
    assert(field_u32(e, s1.len() as int, le2) == Some((rec.nsec, s2.len() as int)));
    lemma_read_put_text(e, s2, rec.frame_id, le);
    assert(field_text(e, s2.len() as int, le2) == Some((rec.frame_id, s3.len() as int)));
    lemma_read_put_bytes(e, s3, rec.data, le);
    assert(field_bytes(e, s3.len() as int, le2) == Some((rec.data, s4.len() as int)));
    lemma_read_put_text(e, s4, rec.format, le);
    assert(field_text(e, s4.len() as int, le2) == Some((rec.format, e.len() as int)));
}

proof fn lemma_prefix_refl(x: Seq<u8>)
    ensures
        prefix(x, x),
{
    assert(x.subrange(0, x.len() as int) =~= x);
}

proof fn lemma_prefix_put_u32(b: Seq<u8>, v: u32, le: bool)
    ensures
        prefix(b, put_u32(b, v, le)),
{
    reveal(put_u32);
    lemma_prefix_append(b, zero_pad(b.len() as int) + u32_bytes(v, le));
    assert(put_u32(b, v, le) =~= b + (zero_pad(b.len() as int) + u32_bytes(v, le)));
}

proof fn lemma_prefix_put_bytes(b: Seq<u8>, d: Seq<u8>, le: bool)
    ensures
        prefix(b, put_bytes(b, d, le)),
{
    reveal(put_bytes);
    let w = put_u32(b, d.len() as u32, le);
    lemma_prefix_put_u32(b, d.len() as u32, le);
    lemma_prefix_append(w, d);
    lemma_prefix_trans(b, w, put_bytes(b, d, le));
}

proof fn lemma_prefix_put_text(b: Seq<u8>, t: Seq<u8>, le: bool)
    ensures
        prefix(b, put_text(b, t, le)),
{
    reveal(put_text);
    lemma_prefix_put_bytes(b, t.push(0u8), le);
}

/// Short buffers: fewer than four bytes cannot hold the header and fail with `TooShort`.
pub proof fn lemma_short_buffer(b: Seq<u8>)
    requires
        b.len() < HEADER_LEN,
    ensures
        parse_record(b) == Err::<WireRecord, DecodeError>(DecodeError::TooShort),
{
}

/// Overruns: once the header is there, every failure is `Truncated`; in
/// particular a buffer that ends inside the fixed fields, or in which a
/// declared length runs past the end, fails so.
pub proof fn lemma_overrun_truncated(b: Seq<u8>)
    requires
        b.len() >= HEADER_LEN,
    ensures
        parse_record(b) is Err ==> parse_record(b) == Err::<WireRecord, DecodeError>(
            DecodeError::Truncated,
        ),
        b.len() < 16 ==> parse_record(b) == Err::<WireRecord, DecodeError>(DecodeError::Truncated),
        b.len() >= 16 && 16 + u32_at(b, 12, b[1] == 1) > b.len() ==> parse_record(b) == Err::<
            WireRecord,
            DecodeError,
        >(DecodeError::Truncated),
        field_text(b, 12, b[1] == 1) matches Some((_f, p3)) && field_u32(b, p3, b[1] == 1) matches Some(
            (n, q),
        ) && q + n > b.len() ==> parse_record(b) == Err::<WireRecord, DecodeError>(
            DecodeError::Truncated,
        ),
        field_text(b, 12, b[1] == 1) matches Some((_f, p3)) && field_bytes(b, p3, b[1] == 1) matches Some(
            (_d, p4),
        ) && field_u32(b, p4, b[1] == 1) matches Some((n, q)) && q + n > b.len() ==> parse_record(b)
            == Err::<WireRecord, DecodeError>(DecodeError::Truncated),
{
    assert(align4(4) == 4);
    assert(align4(8) == 8);
    assert(align4(12) == 12);
}

} // verus!
