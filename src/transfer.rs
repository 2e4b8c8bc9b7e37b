use vstd::prelude::*;

use crate::wire::{
    fits_field, parse_bytes, parse_str, parse_u64, parse_u8, read_bytes, read_string, read_u64,
    read_u8, str_error, str_field, u64_field, write_bytes, write_string, write_u64, FrameError,
};
use crate::wire::{lemma_field_lens, lemma_parse_bytes_at, lemma_parse_str_at, lemma_parse_u64_at};

verus! {

/// The operation that a transfer connection asks for, named by its first
/// byte.
#[derive(Clone, Copy, Debug, PartialEq, Eq)]
pub enum TransferOp {
    ReadImage,
    WriteImage,
}

pub open spec fn op_of(b: u8) -> Option<TransferOp> {
    if b == 0 {
        Some(TransferOp::ReadImage)
    } else if b == 1 {
        Some(TransferOp::WriteImage)
    } else {
        None
    }
}

/// Decodes the operation byte; any byte but `0` and `1` is a protocol error.
pub fn decode_op(b: u8) -> (r: Result<TransferOp, FrameError>)
    ensures
        match op_of(b) {
            Some(op) => r == Ok::<TransferOp, FrameError>(op),
            None => r == Err::<TransferOp, FrameError>(FrameError::UnknownOp(b)),
        },
{
    if b == 0 {
        Ok(TransferOp::ReadImage)
    } else if b == 1 {
        Ok(TransferOp::WriteImage)
    } else {
        Err(FrameError::UnknownOp(b))
    }
}

/// The byte that names an operation on the wire.
pub fn op_byte(op: TransferOp) -> (r: u8)
    ensures
        op_of(r) == Some(op),
{
    match op {
        TransferOp::ReadImage => 0,
        TransferOp::WriteImage => 1,
    }
}

/// A tile pushed to a node, with its metadata. The pixel coverage travels as
/// the bits of its 64-bit float; the payload is the raster in its own
/// self-delimiting encoding.
pub struct WriteImage {
    pub album: String,
    pub payload: Vec<u8>,
    pub geocode: String,
    pub coverage_bits: u64,
    pub platform: String,
    pub source: String,
    pub subdataset: u8,
    pub tile: String,
    pub timestamp: i64,
}

pub struct WriteImageView {
    pub album: Seq<char>,
    pub payload: Seq<u8>,
    pub geocode: Seq<char>,
    pub coverage_bits: u64,
    pub platform: Seq<char>,
    pub source: Seq<char>,
    pub subdataset: u8,
    pub tile: Seq<char>,
    pub timestamp: i64,
}

impl View for WriteImage {
    type V = WriteImageView;

    open spec fn view(&self) -> WriteImageView {
        WriteImageView {
            album: self.album@,
            payload: self.payload@,
            geocode: self.geocode@,
            coverage_bits: self.coverage_bits,
            platform: self.platform@,
            source: self.source@,
            subdataset: self.subdataset,
            tile: self.tile@,
            timestamp: self.timestamp,
        }
    }
}

/// The bits of a signed timestamp as they travel in a 64-bit field.
pub open spec fn ts_bits(t: i64) -> u64 {
    #[verifier::truncate]
    (t as u64)
}

/// The signed timestamp held by the bits of a 64-bit field.
pub open spec fn ts_of(v: u64) -> i64 {
    #[verifier::truncate]
    (v as i64)
}

proof fn lemma_ts_round_trip(t: i64)
    ensures
        ts_of(ts_bits(t)) == t,
{
    assert((#[verifier::truncate] ((#[verifier::truncate] (t as u64)) as i64)) == t) by (bit_vector);
}

/// Every string of the request fits in a string field.
pub open spec fn write_image_fits(w: WriteImageView) -> bool {
    fits_field(w.album) && fits_field(w.geocode) && fits_field(w.platform) && fits_field(w.source)
        && fits_field(w.tile)
}

/// The fields of a WriteImage request after its operation byte, in wire
/// order.
pub open spec fn write_image_body(w: WriteImageView) -> Seq<u8> {
    str_field(w.album) + (w.payload + (str_field(w.geocode) + (u64_field(w.coverage_bits) + (
    str_field(w.platform) + (str_field(w.source) + (seq![w.subdataset] + (str_field(w.tile)
        + u64_field(ts_bits(w.timestamp)))))))))
}

/// The whole WriteImage frame: operation byte `1`, then the fields.
pub open spec fn write_image_frame(w: WriteImageView) -> Seq<u8> {
    seq![1u8] + write_image_body(w)
}

/// The WriteImage fields read from position `p`, the payload taking
/// `payload_len` bytes; `Err` with the first fault met.
pub open spec fn parse_write_image(b: Seq<u8>, p: int, payload_len: int) -> Result<
    WriteImageView,
    FrameError,
> {
    match parse_str(b, p) {
        None => Err(str_error(b, p)),
        Some((album, at1)) => match parse_bytes(b, at1, payload_len) {
            None => Err(FrameError::Truncated),
            Some((payload, at2)) => match parse_str(b, at2) {
                None => Err(str_error(b, at2)),
                Some((geocode, at3)) => match parse_u64(b, at3) {
                    None => Err(FrameError::Truncated),
                    Some((coverage_bits, at4)) => match parse_str(b, at4) {
                        None => Err(str_error(b, at4)),
                        Some((platform, at5)) => match parse_str(b, at5) {
                            None => Err(str_error(b, at5)),
                            Some((source, at6)) => match parse_u8(b, at6) {
                                None => Err(FrameError::Truncated),
                                Some((subdataset, at7)) => match parse_str(b, at7) {
                                    None => Err(str_error(b, at7)),
                                    Some((tile, at8)) => match parse_u64(b, at8) {
                                        None => Err(FrameError::Truncated),
                                        Some((ts, _)) => Ok(
                                            WriteImageView {
                                                album,
                                                payload,
                                                geocode,
                                                coverage_bits,
                                                platform,
                                                source,
                                                subdataset,
                                                tile,
                                                timestamp: ts_of(ts),
                                            },
                                        ),
                                    },
                                },
                            },
                        },
                    },
                },
            },
        },
    }
}

/// Encodes a WriteImage request; refuses one with a string of more than 255
/// bytes.
#[verifier::rlimit(100)]
#[verifier::spinoff_prover]
pub fn encode_write_image(w: &WriteImage) -> (r: Result<Vec<u8>, FrameError>)
    ensures
        write_image_fits(w@) ==> r is Ok && r->Ok_0@ == write_image_frame(w@),
        !write_image_fits(w@) ==> r == Err::<Vec<u8>, FrameError>(FrameError::StringTooLong),
{
    let mut out: Vec<u8> = Vec::new();
    out.push(1u8);
    if write_string(w.album.as_str(), &mut out).is_err() {
        return Err(FrameError::StringTooLong);
    }
    write_bytes(w.payload.as_slice(), &mut out);
    if write_string(w.geocode.as_str(), &mut out).is_err() {
        return Err(FrameError::StringTooLong);
    }
    write_u64(w.coverage_bits, &mut out);
    if write_string(w.platform.as_str(), &mut out).is_err() {
        return Err(FrameError::StringTooLong);
    }
    if write_string(w.source.as_str(), &mut out).is_err() {
        return Err(FrameError::StringTooLong);
    }
    out.push(w.subdataset);
    if write_string(w.tile.as_str(), &mut out).is_err() {
        return Err(FrameError::StringTooLong);
    }
    write_u64(#[verifier::truncate] (w.timestamp as u64), &mut out);
    proof {
        assert(out@ =~= write_image_frame(w@));
    }
    Ok(out)
}

/// Decodes the fields of a WriteImage request that start at `pos`, the
/// payload taking `payload_len` bytes (as the raster encoding reports it).
#[verifier::rlimit(100)]
#[verifier::spinoff_prover]
pub fn decode_write_image(buf: &[u8], pos: usize, payload_len: usize) -> (r: Result<
    WriteImage,
    FrameError,
>)
    ensures
        match parse_write_image(buf@, pos as int, payload_len as int) {
            Ok(v) => r is Ok && r->Ok_0@ == v,
            Err(e) => r == Err::<WriteImage, FrameError>(e),
        },
{
    let (album, at1) = match read_string(buf, pos) {
        Ok(x) => x,
        Err(e) => return Err(e),
    };
    let (payload, at2) = match read_bytes(buf, at1, payload_len) {
        Ok(x) => x,
        Err(e) => return Err(e),
    };
    let (geocode, at3) = match read_string(buf, at2) {
        Ok(x) => x,
        Err(e) => return Err(e),
    };
    let (coverage_bits, at4) = match read_u64(buf, at3) {
        Ok(x) => x,
        Err(e) => return Err(e),
    };
    let (platform, at5) = match read_string(buf, at4) {
        Ok(x) => x,
        Err(e) => return Err(e),
    };
    let (source, at6) = match read_string(buf, at5) {
        Ok(x) => x,
        Err(e) => return Err(e),
    };
    let (subdataset, at7) = match read_u8(buf, at6) {
        Ok(x) => x,
        Err(e) => return Err(e),
    };
    let (tile, at8) = match read_string(buf, at7) {
        Ok(x) => x,
        Err(e) => return Err(e),
    };
    let (ts, _) = match read_u64(buf, at8) {
        Ok(x) => x,
        Err(e) => return Err(e),
    };
    Ok(
        WriteImage {
            album,
            payload,
            geocode,
            coverage_bits,
            platform,
            source,
            subdataset,
            tile,
            timestamp: #[verifier::truncate] (ts as i64),
        },
    )
}

proof fn lemma_split_suffix(b: Seq<u8>, p: int, y: Seq<u8>, z: Seq<u8>)
    requires
        0 <= p <= b.len(),
        b.subrange(p, b.len() as int) == y + z,
    ensures
        p + y.len() <= b.len(),
        b.subrange(p, p + y.len()) == y,
        b.subrange(p + y.len(), b.len() as int) == z,
{
    assert((y + z).len() == b.len() - p);
    assert(b.subrange(p, p + y.len()) =~= (y + z).subrange(0, y.len() as int));
    assert(b.subrange(p + y.len(), b.len() as int) =~= (y + z).subrange(
        y.len() as int,
        (y + z).len() as int,
    ));
    assert((y + z).subrange(0, y.len() as int) =~= y);
    assert((y + z).subrange(y.len() as int, (y + z).len() as int) =~= z);
}

#[verifier::rlimit(100)]
#[verifier::spinoff_prover]
proof fn lemma_parse_body(b: Seq<u8>, w: WriteImageView)
    requires
        write_image_fits(w),
        1 <= b.len(),
        b.subrange(1, b.len() as int) == write_image_body(w),
    ensures
        parse_write_image(b, 1, w.payload.len() as int) == Ok::<WriteImageView, FrameError>(w),
{
    let n = b.len() as int;
    lemma_field_lens(w.coverage_bits, w.album);
    lemma_field_lens(ts_bits(w.timestamp), w.tile);
    let tail_ts = u64_field(ts_bits(w.timestamp));
    let tail_tile = str_field(w.tile) + tail_ts;
    let tail_sub = seq![w.subdataset] + tail_tile;
    let tail_source = str_field(w.source) + tail_sub;
    let tail_platform = str_field(w.platform) + tail_source;
    let tail_cov = u64_field(w.coverage_bits) + tail_platform;
    let tail_geocode = str_field(w.geocode) + tail_cov;
    let tail_payload = w.payload + tail_geocode;

    let at0 = 1int;
    lemma_split_suffix(b, at0, str_field(w.album), tail_payload);
    lemma_parse_str_at(b, at0, w.album);
    let at1 = at0 + str_field(w.album).len();
    lemma_split_suffix(b, at1, w.payload, tail_geocode);
    lemma_parse_bytes_at(b, at1, w.payload);
    let at2 = at1 + w.payload.len();
    lemma_split_suffix(b, at2, str_field(w.geocode), tail_cov);
    lemma_parse_str_at(b, at2, w.geocode);
    let at3 = at2 + str_field(w.geocode).len();
    lemma_split_suffix(b, at3, u64_field(w.coverage_bits), tail_platform);
    lemma_parse_u64_at(b, at3, w.coverage_bits);
    let at4 = at3 + 8;
    lemma_split_suffix(b, at4, str_field(w.platform), tail_source);
    lemma_parse_str_at(b, at4, w.platform);
    let at5 = at4 + str_field(w.platform).len();
    lemma_split_suffix(b, at5, str_field(w.source), tail_sub);
    lemma_parse_str_at(b, at5, w.source);
    let at6 = at5 + str_field(w.source).len();
    lemma_split_suffix(b, at6, seq![w.subdataset], tail_tile);
    assert(b[at6] == b.subrange(at6, at6 + 1)[0]);
    assert(parse_u8(b, at6) == Some((w.subdataset, at6 + 1)));
    let at7 = at6 + 1;
    lemma_split_suffix(b, at7, str_field(w.tile), tail_ts);
    lemma_parse_str_at(b, at7, w.tile);
    let at8 = at7 + str_field(w.tile).len();
    assert(b.subrange(at8, b.len() as int) =~= b.subrange(at8, at8 + 8));
    lemma_parse_u64_at(b, at8, ts_bits(w.timestamp));
    lemma_ts_round_trip(w.timestamp);
}

/// Decoding an encoded WriteImage frame after its operation byte gives back
/// the request: the same strings, numbers and payload bytes.
pub proof fn lemma_write_image_round_trip(w: WriteImageView)
    requires
        write_image_fits(w),
    ensures
        write_image_frame(w)[0] == 1,
        op_of(write_image_frame(w)[0]) == Some(TransferOp::WriteImage),
        parse_write_image(write_image_frame(w), 1, w.payload.len() as int) == Ok::<
            WriteImageView,
            FrameError,
        >(w),
{
    let b = write_image_frame(w);
    assert(b.subrange(1, b.len() as int) =~= write_image_body(w));
    lemma_parse_body(b, w);
}

} // verus!
