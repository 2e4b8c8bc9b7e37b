use vstd::prelude::*;

use vstd::utf8::{decode_utf8, encode_utf8, valid_utf8};

verus! {

broadcast use vstd::utf8::encode_utf8_decode_utf8, vstd::utf8::encode_utf8_valid_utf8;

/// Why a frame could not be written or read.
#[derive(Clone, Copy, Debug, PartialEq, Eq)]
pub enum FrameError {
    /// The bytes end before the field does.
    Truncated,
    /// A string needs more than 255 bytes.
    StringTooLong,
    /// A string field is not UTF-8.
    InvalidUtf8,
    /// The first byte names no operation.
    UnknownOp(u8),
    /// The geocode scheme byte names no scheme.
    UnknownScheme(u8),
}

/// A string on the wire: one byte of length, then its UTF-8 bytes.
#[verifier::opaque]
pub open spec fn str_field(s: Seq<char>) -> Seq<u8> {
    seq![encode_utf8(s).len() as u8] + encode_utf8(s)
}

/// Whether `s` can be written as a string field.
pub open spec fn fits_field(s: Seq<char>) -> bool {
    encode_utf8(s).len() <= 255
}

/// A 64-bit value on the wire, most significant byte first.
#[verifier::opaque]
pub open spec fn u64_field(v: u64) -> Seq<u8> {
    seq![
        (v >> 56u64) as u8,
        (v >> 48u64) as u8,
        (v >> 40u64) as u8,
        (v >> 32u64) as u8,
        (v >> 24u64) as u8,
        (v >> 16u64) as u8,
        (v >> 8u64) as u8,
        v as u8,
    ]
}

/// The 64-bit value of eight bytes, most significant first.
pub open spec fn be_u64(b: Seq<u8>, p: int) -> u64 {
    ((b[p] as u64) << 56u64) | ((b[p + 1] as u64) << 48u64) | ((b[p + 2] as u64) << 40u64) | ((b[p
        + 3] as u64) << 32u64) | ((b[p + 4] as u64) << 24u64) | ((b[p + 5] as u64) << 16u64) | ((b[p
        + 6] as u64) << 8u64) | (b[p + 7] as u64)
}

/// One byte at `p`, and the position after it.
pub open spec fn parse_u8(b: Seq<u8>, p: int) -> Option<(u8, int)> {
    if 0 <= p < b.len() {
        Some((b[p], p + 1))
    } else {
        None
    }
}

/// A big-endian 64-bit value at `p`, and the position after it.
pub open spec fn parse_u64(b: Seq<u8>, p: int) -> Option<(u64, int)> {
    if 0 <= p && p + 8 <= b.len() {
        Some((be_u64(b, p), p + 8))
    } else {
        None
    }
}

/// `n` raw bytes at `p`, and the position after them.
pub open spec fn parse_bytes(b: Seq<u8>, p: int, n: int) -> Option<(Seq<u8>, int)> {
    if 0 <= p && 0 <= n && p + n <= b.len() {
        Some((b.subrange(p, p + n), p + n))
    } else {
        None
    }
}

/// Whether a string field starts at `p` and is whole.
pub open spec fn str_field_present(b: Seq<u8>, p: int) -> bool {
    0 <= p < b.len() && p + 1 + b[p] <= b.len()
}

/// A string field at `p`, and the position after it; `None` when the bytes
/// end early or do not hold UTF-8.
pub open spec fn parse_str(b: Seq<u8>, p: int) -> Option<(Seq<char>, int)> {
    if str_field_present(b, p) && valid_utf8(b.subrange(p + 1, p + 1 + b[p])) {
        Some((decode_utf8(b.subrange(p + 1, p + 1 + b[p])), p + 1 + b[p]))
    } else {
        None
    }
}

/// The error that reading a string field at `p` gives, when it fails.
pub open spec fn str_error(b: Seq<u8>, p: int) -> FrameError {
    if str_field_present(b, p) {
        FrameError::InvalidUtf8
    } else {
        FrameError::Truncated
    }
}

proof fn lemma_u64_round_trip(v: u64)
    ensures
        be_u64(u64_field(v), 0) == v,
{
    reveal(u64_field);
    let b = u64_field(v);
    let b0 = b[0];
    let b1 = b[1];
    let b2 = b[2];
    let b3 = b[3];
    let b4 = b[4];
    let b5 = b[5];
    let b6 = b[6];
    let b7 = b[7];
    assert(b0 == (v >> 56u64) as u8);
    assert(b7 == v as u8);
    assert(((((v >> 56u64) as u8) as u64) << 56u64) | ((((v >> 48u64) as u8) as u64) << 48u64) | ((((v
        >> 40u64) as u8) as u64) << 40u64) | ((((v >> 32u64) as u8) as u64) << 32u64) | ((((v
        >> 24u64) as u8) as u64) << 24u64) | ((((v >> 16u64) as u8) as u64) << 16u64) | ((((v
        >> 8u64) as u8) as u64) << 8u64) | ((v as u8) as u64) == v) by (bit_vector);
}

/// Reading a field back where it was written gives the value written.
pub(crate) proof fn lemma_parse_u64_at(b: Seq<u8>, p: int, v: u64)
    requires
        0 <= p,
        p + 8 <= b.len(),
        b.subrange(p, p + 8) == u64_field(v),
    ensures
        u64_field(v).len() == 8,
        parse_u64(b, p) == Some((v, p + 8)),
{
    reveal(u64_field);
    lemma_u64_round_trip(v);
    let f = u64_field(v);
    assert forall|i: int| 0 <= i < 8 implies b[p + i] == f[i] by {
        assert(b.subrange(p, p + 8)[i] == b[p + i]);
    }
    assert(be_u64(b, p) == be_u64(f, 0)) by {
        assert(b[p] == f[0]);
        assert(b[p + 1] == f[1]);
        assert(b[p + 2] == f[2]);
        assert(b[p + 3] == f[3]);
        assert(b[p + 4] == f[4]);
        assert(b[p + 5] == f[5]);
        assert(b[p + 6] == f[6]);
        assert(b[p + 7] == f[7]);
    }
}

/// Reading a string field back where it was written gives the string written.
pub(crate) proof fn lemma_parse_str_at(b: Seq<u8>, p: int, s: Seq<char>)
    requires
        fits_field(s),
        0 <= p,
        p + str_field(s).len() <= b.len(),
        b.subrange(p, p + str_field(s).len()) == str_field(s),
    ensures
        str_field(s).len() == 1 + encode_utf8(s).len(),
        parse_str(b, p) == Some((s, p + str_field(s).len())),
{
    reveal(str_field);
    let e = encode_utf8(s);
    let f = str_field(s);
    assert(b[p] == b.subrange(p, p + f.len())[0]);
    assert(f[0] == e.len() as u8);
    assert(b[p] == e.len());
    assert(b.subrange(p + 1, p + 1 + b[p]) =~= e) by {
        assert forall|i: int| 0 <= i < e.len() implies b.subrange(p + 1, p + 1 + b[p])[i] == e[i] by {
            assert(b.subrange(p, p + f.len())[i + 1] == f[i + 1]);
        }
    }
}

/// The lengths of the fixed and the string fields.
pub(crate) proof fn lemma_field_lens(v: u64, s: Seq<char>)
    ensures
        u64_field(v).len() == 8,
        str_field(s).len() == 1 + encode_utf8(s).len(),
{
    reveal(u64_field);
    reveal(str_field);
}

/// Reading raw bytes back where they were written gives the bytes written.
pub(crate) proof fn lemma_parse_bytes_at(b: Seq<u8>, p: int, x: Seq<u8>)
    requires
        0 <= p,
        p + x.len() <= b.len(),
        b.subrange(p, p + x.len()) == x,
    ensures
        parse_bytes(b, p, x.len() as int) == Some((x, p + x.len())),
{
}

/// Relies on `String::from_utf8`: the bytes are accepted exactly when they
/// are valid UTF-8, and then the string holds the characters they encode.
#[verifier::external_body]
fn utf8_string(b: Vec<u8>) -> (r: Option<String>)
    ensures
        r is Some <==> valid_utf8(b@),
        r is Some ==> r->0@ == decode_utf8(b@),
{
    String::from_utf8(b).ok()
}

/// Reads one byte at `pos`; returns it with the position after it.
pub fn read_u8(buf: &[u8], pos: usize) -> (r: Result<(u8, usize), FrameError>)
    ensures
        match parse_u8(buf@, pos as int) {
            Some((v, n)) => r is Ok && r->Ok_0.0 == v && r->Ok_0.1 == n,
            None => r == Err::<(u8, usize), FrameError>(FrameError::Truncated),
        },
{
    if pos < buf.len() {
        Ok((buf[pos], pos + 1))
    } else {
        Err(FrameError::Truncated)
    }
}

/// Reads a big-endian 64-bit value at `pos`; returns it with the position
/// after it.
pub fn read_u64(buf: &[u8], pos: usize) -> (r: Result<(u64, usize), FrameError>)
    ensures
        match parse_u64(buf@, pos as int) {
            Some((v, n)) => r is Ok && r->Ok_0.0 == v && r->Ok_0.1 == n,
            None => r == Err::<(u64, usize), FrameError>(FrameError::Truncated),
        },
{
    if pos <= buf.len() && buf.len() - pos >= 8 {
        let v = ((buf[pos] as u64) << 56u64) | ((buf[pos + 1] as u64) << 48u64) | ((buf[pos
            + 2] as u64) << 40u64) | ((buf[pos + 3] as u64) << 32u64) | ((buf[pos + 4] as u64)
            << 24u64) | ((buf[pos + 5] as u64) << 16u64) | ((buf[pos + 6] as u64) << 8u64) | (buf[pos
            + 7] as u64);
        Ok((v, pos + 8))
    } else {
        Err(FrameError::Truncated)
    }
}

/// Reads `n` raw bytes at `pos`; returns them with the position after them.
pub fn read_bytes(buf: &[u8], pos: usize, n: usize) -> (r: Result<(Vec<u8>, usize), FrameError>)
    ensures
        match parse_bytes(buf@, pos as int, n as int) {
            Some((v, next)) => r is Ok && r->Ok_0.0@ == v && r->Ok_0.1 == next,
            None => r == Err::<(Vec<u8>, usize), FrameError>(FrameError::Truncated),
        },
{
    if pos <= buf.len() && buf.len() - pos >= n {
        let end = pos + n;
        let mut out: Vec<u8> = Vec::new();
        let mut i: usize = pos;
        while i < end
            invariant
                end == pos + n,
                pos <= i <= end <= buf@.len(),
                out@ == buf@.subrange(pos as int, i as int),
            decreases end - i,
        {
            out.push(buf[i]);
            proof {
                assert(out@ =~= buf@.subrange(pos as int, i + 1));
            }
            i = i + 1;
        }
        Ok((out, pos + n))
    } else {
        Err(FrameError::Truncated)
    }
}

/// Reads a string field at `pos`: a length byte, then that many bytes of
/// UTF-8. Returns the string with the position after it.
pub fn read_string(buf: &[u8], pos: usize) -> (r: Result<(String, usize), FrameError>)
    ensures
        match parse_str(buf@, pos as int) {
            Some((s, n)) => r is Ok && r->Ok_0.0@ == s && r->Ok_0.1 == n,
            None => r == Err::<(String, usize), FrameError>(str_error(buf@, pos as int)),
        },
{
    if pos >= buf.len() {
        return Err(FrameError::Truncated);
    }
    let len = buf[pos];
    let start = pos + 1;
    let (bytes, next) = match read_bytes(buf, start, len as usize) {
        Ok(x) => x,
        Err(e) => return Err(e),
    };
    assert(bytes@ == buf@.subrange(start as int, start + len));
    match utf8_string(bytes) {
        Some(s) => Ok((s, next)),
        None => Err(FrameError::InvalidUtf8),
    }
}

/// Appends `value` as a string field; refuses a string of more than 255
/// bytes and leaves `out` as it was.
pub fn write_string(value: &str, out: &mut Vec<u8>) -> (r: Result<(), FrameError>)
    ensures
        fits_field(value@) ==> r is Ok && final(out)@ == old(out)@ + str_field(value@),
        !fits_field(value@) ==> r == Err::<(), FrameError>(FrameError::StringTooLong)
            && final(out)@ == old(out)@,
{
    let bytes = value.as_bytes();
    if bytes.len() > 255 {
        return Err(FrameError::StringTooLong);
    }
    let ghost start = out@;
    out.push(bytes.len() as u8);
    let mut i: usize = 0;
    while i < bytes.len()
        invariant
            i <= bytes@.len(),
            bytes@ == encode_utf8(value@),
            bytes@.len() <= 255,
            out@ == start + seq![bytes@.len() as u8] + bytes@.subrange(0, i as int),
        decreases bytes@.len() - i,
    {
        out.push(bytes[i]);
        proof {
            assert(bytes@.subrange(0, i + 1) =~= bytes@.subrange(0, i as int).push(bytes@[i as int]));
        }
        i = i + 1;
    }
    proof {
        reveal(str_field);
        assert(bytes@.subrange(0, i as int) =~= bytes@);
        assert(start + seq![bytes@.len() as u8] + bytes@ =~= start + str_field(value@));
    }
    Ok(())
}

/// Appends `v` as eight bytes, most significant first.
pub fn write_u64(v: u64, out: &mut Vec<u8>)
    ensures
        final(out)@ == old(out)@ + u64_field(v),
{
    let ghost start = out@;
    out.push((v >> 56u64) as u8);
    out.push((v >> 48u64) as u8);
    out.push((v >> 40u64) as u8);
    out.push((v >> 32u64) as u8);
    out.push((v >> 24u64) as u8);
    out.push((v >> 16u64) as u8);
    out.push((v >> 8u64) as u8);
    out.push(v as u8);
    proof {
        reveal(u64_field);
        assert(out@ =~= start + u64_field(v));
    }
}

/// Appends raw bytes.
pub fn write_bytes(b: &[u8], out: &mut Vec<u8>)
    ensures
        final(out)@ == old(out)@ + b@,
{
    let ghost start = out@;
    let mut i: usize = 0;
    while i < b.len()
        invariant
            i <= b@.len(),
            out@ == start + b@.subrange(0, i as int),
        decreases b@.len() - i,
    {
        out.push(b[i]);
        proof {
            assert(b@.subrange(0, i + 1) =~= b@.subrange(0, i as int).push(b@[i as int]));
        }
        i = i + 1;
    }
    proof {
        assert(b@.subrange(0, i as int) =~= b@);
    }
}

} // verus!
