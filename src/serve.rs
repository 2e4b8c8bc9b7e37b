use vstd::prelude::*;

use vstd::string::StringExecFns;

use crate::transfer::{decode_op, decode_write_image, op_of, parse_write_image, TransferOp, WriteImage};
use crate::wire::{
    fits_field, parse_str, parse_u8, read_string, read_u8, str_error, str_field, write_bytes,
    write_string, FrameError,
};

verus! {

/// The geocode scheme of a requested sub-geocode, named by one byte.
#[derive(Clone, Copy, Debug, PartialEq, Eq)]
pub enum GeocodeScheme {
    Geohash,
    QuadTile,
}

pub open spec fn scheme_of(b: u8) -> Option<GeocodeScheme> {
    if b == 0 {
        Some(GeocodeScheme::Geohash)
    } else if b == 1 {
        Some(GeocodeScheme::QuadTile)
    } else {
        None
    }
}

pub open spec fn scheme_byte_spec(s: GeocodeScheme) -> u8 {
    match s {
        GeocodeScheme::Geohash => 0,
        GeocodeScheme::QuadTile => 1,
    }
}

/// Decodes the geocode scheme byte; any byte but `0` and `1` is a protocol
/// error.
pub fn decode_scheme(b: u8) -> (r: Result<GeocodeScheme, FrameError>)
    ensures
        match scheme_of(b) {
            Some(s) => r == Ok::<GeocodeScheme, FrameError>(s),
            None => r == Err::<GeocodeScheme, FrameError>(FrameError::UnknownScheme(b)),
        },
{
    if b == 0 {
        Ok(GeocodeScheme::Geohash)
    } else if b == 1 {
        Ok(GeocodeScheme::QuadTile)
    } else {
        Err(FrameError::UnknownScheme(b))
    }
}

/// A ReadImage request: the path of a dataset on the serving node and,
/// optionally, the sub-geocode to cut out of it.
pub struct ReadImageRequest {
    pub path: String,
    pub subgeocode: Option<(GeocodeScheme, String)>,
}

pub open spec fn sub_view(s: Option<(GeocodeScheme, String)>) -> Option<(GeocodeScheme, Seq<char>)> {
    match s {
        None => None,
        Some((scheme, code)) => Some((scheme, code@)),
    }
}

/// The fields of a ReadImage request after its operation byte: the path, a
/// sub-geocode indicator, and for a nonzero indicator the scheme byte and
/// the sub-geocode.
pub open spec fn read_request_body(path: Seq<char>, sub: Option<(GeocodeScheme, Seq<char>)>) -> Seq<u8> {
    match sub {
        None => str_field(path) + seq![0u8],
        Some((scheme, code)) => str_field(path) + seq![1u8, scheme_byte_spec(scheme)] + str_field(
            code,
        ),
    }
}

/// The ReadImage request read from position `p`: `Ok` with the path and the
/// optional sub-geocode, `Err` with the first fault met.
pub open spec fn parse_read_request(b: Seq<u8>, p: int) -> Result<
    (Seq<char>, Option<(GeocodeScheme, Seq<char>)>),
    FrameError,
> {
    match parse_str(b, p) {
        None => Err(str_error(b, p)),
        Some((path, at1)) => match parse_u8(b, at1) {
            None => Err(FrameError::Truncated),
            Some((indicator, at2)) => if indicator == 0 {
                Ok((path, None))
            } else {
                match parse_u8(b, at2) {
                    None => Err(FrameError::Truncated),
                    Some((sb, at3)) => match scheme_of(sb) {
                        None => Err(FrameError::UnknownScheme(sb)),
                        Some(scheme) => match parse_str(b, at3) {
                            None => Err(str_error(b, at3)),
                            Some((code, _)) => Ok((path, Some((scheme, code)))),
                        },
                    },
                }
            },
        },
    }
}

/// Encodes a ReadImage request: operation byte `0`, then its fields.
pub fn encode_read_request(req: &ReadImageRequest) -> (r: Result<Vec<u8>, FrameError>)
    ensures
        (fits_field(req.path@) && match req.subgeocode {
            None => true,
            Some((_, code)) => fits_field(code@),
        }) ==> r is Ok && r->Ok_0@ == seq![0u8] + read_request_body(
            req.path@,
            sub_view(req.subgeocode),
        ),
        !(fits_field(req.path@) && match req.subgeocode {
            None => true,
            Some((_, code)) => fits_field(code@),
        }) ==> r == Err::<Vec<u8>, FrameError>(FrameError::StringTooLong),
{
    let mut out: Vec<u8> = Vec::new();
    out.push(0u8);
    if write_string(req.path.as_str(), &mut out).is_err() {
        return Err(FrameError::StringTooLong);
    }
    match &req.subgeocode {
        None => {
            out.push(0u8);
        },
        Some((scheme, code)) => {
            out.push(1u8);
            let sb: u8 = match scheme {
                GeocodeScheme::Geohash => 0,
                GeocodeScheme::QuadTile => 1,
            };
            out.push(sb);
            if write_string(code.as_str(), &mut out).is_err() {
                return Err(FrameError::StringTooLong);
            }
        },
    }
    proof {
        assert(out@ =~= seq![0u8] + read_request_body(req.path@, sub_view(req.subgeocode)));
    }
    Ok(out)
}

/// Decodes the fields of a ReadImage request that start at `pos`. An
/// unknown scheme byte is a protocol error.
pub fn decode_read_request(buf: &[u8], pos: usize) -> (r: Result<ReadImageRequest, FrameError>)
    ensures
        match parse_read_request(buf@, pos as int) {
            Ok((path, sub)) => r is Ok && r->Ok_0.path@ == path && sub_view(r->Ok_0.subgeocode)
                == sub,
            Err(e) => r == Err::<ReadImageRequest, FrameError>(e),
        },
{
    let (path, at1) = match read_string(buf, pos) {
        Ok(x) => x,
        Err(e) => return Err(e),
    };
    let (indicator, at2) = match read_u8(buf, at1) {
        Ok(x) => x,
        Err(e) => return Err(e),
    };
    if indicator == 0 {
        return Ok(ReadImageRequest { path, subgeocode: None });
    }
    let (sb, at3) = match read_u8(buf, at2) {
        Ok(x) => x,
        Err(e) => return Err(e),
    };
    let scheme = match decode_scheme(sb) {
        Ok(s) => s,
        Err(e) => return Err(e),
    };
    let (code, _) = match read_string(buf, at3) {
        Ok(x) => x,
        Err(e) => return Err(e),
    };
    Ok(ReadImageRequest { path, subgeocode: Some((scheme, code)) })
}

/// A ReadImage request whose sub-geocode indicator is `0` asks for the
/// whole image: whatever follows the indicator, it decodes with no
/// sub-geocode, and its reply is then the success flag and the full payload.
pub proof fn lemma_indicator_zero_whole_image(b: Seq<u8>, p: int, path: Seq<char>, at1: int)
    requires
        parse_str(b, p) == Some((path, at1)),
        parse_u8(b, at1) == Some((0u8, at1 + 1)),
    ensures
        parse_read_request(b, p) == Ok::<(Seq<char>, Option<(GeocodeScheme, Seq<char>)>), FrameError>(
            (path, None),
        ),
{
}

/// The reply that carries an image: success flag `0`, then the payload.
pub fn image_reply(payload: &[u8]) -> (r: Vec<u8>)
    ensures
        r@ == seq![0u8] + payload@,
{
    let mut out: Vec<u8> = Vec::new();
    out.push(0u8);
    write_bytes(payload, &mut out);
    out
}

/// The reply that reports a failure: flag `1`, then the message as a string
/// field; refused when the message needs more than 255 bytes.
pub fn failure_reply(msg: &str) -> (r: Result<Vec<u8>, FrameError>)
    ensures
        fits_field(msg@) ==> r is Ok && r->Ok_0@ == seq![1u8] + str_field(msg@),
        !fits_field(msg@) ==> r == Err::<Vec<u8>, FrameError>(FrameError::StringTooLong),
{
    let mut out: Vec<u8> = Vec::new();
    out.push(1u8);
    match write_string(msg, &mut out) {
        Ok(()) => Ok(out),
        Err(e) => Err(e),
    }
}

pub open spec fn missing_path_message(path: Seq<char>) -> Seq<char> {
    "path '"@ + path + "' does not exist"@
}

/// The message for a path that does not exist on the serving node.
pub fn missing_path_text(path: &str) -> (r: String)
    ensures
        r@ == missing_path_message(path@),
{
    let mut msg = "path '".to_owned();
    msg.append(path);
    msg.append("' does not exist");
    msg
}

pub open spec fn no_window_message(subgeocode: Seq<char>) -> Seq<char> {
    "failed to split image into geocode '"@ + subgeocode + "'"@
}

/// The message for a sub-geocode that no window of the image matches.
pub fn no_window_text(subgeocode: &str) -> (r: String)
    ensures
        r@ == no_window_message(subgeocode@),
{
    let mut msg = "failed to split image into geocode '".to_owned();
    msg.append(subgeocode);
    msg.append("'");
    msg
}

/// One window of an image cut along the geocode grid: the geocode of its
/// center and the encoded raster of the cut.
pub struct Window {
    pub geocode: String,
    pub payload: Vec<u8>,
}

/// Whether window `i` is the first whose code equals `target`; `None` marks
/// a window that could not be cut.
pub open spec fn is_first_match(codes: Seq<Option<Seq<char>>>, target: Seq<char>, i: int) -> bool {
    0 <= i < codes.len() && codes[i] == Some(target) && forall|j: int|
        0 <= j < i ==> codes[j] != Some(target)
}

pub open spec fn has_match(codes: Seq<Option<Seq<char>>>, target: Seq<char>) -> bool {
    exists|j: int| 0 <= j < codes.len() && codes[j] == Some(target)
}

pub open spec fn opt_view(s: Seq<Option<String>>) -> Seq<Option<Seq<char>>> {
    s.map_values(|o: Option<String>| match o {
        Some(c) => Some(c@),
        None => None,
    })
}

/// The first window whose code equals `target`, codes compared as given.
pub fn pick_window(target: &String, codes: &Vec<Option<String>>) -> (r: Option<usize>)
    ensures
        r is Some ==> is_first_match(opt_view(codes@), target@, r->0 as int),
        r is None ==> !has_match(opt_view(codes@), target@),
{
    let mut i: usize = 0;
    while i < codes.len()
        invariant
            i <= codes@.len(),
            forall|j: int| 0 <= j < i ==> opt_view(codes@)[j] != Some(target@),
        decreases codes@.len() - i,
    {
        match &codes[i] {
            Some(c) => {
                if *c == *target {
                    return Some(i);
                }
            },
            None => {},
        }
        i = i + 1;
    }
    None
}

/// What the characters of a string are once lower-cased.
pub uninterp spec fn lower_of(s: Seq<char>) -> Seq<char>;

/// Relies on `str::to_lowercase`: the result depends on the characters alone.
#[verifier::external_body]
fn lowercase(s: &str) -> (r: String)
    ensures
        r@ == lower_of(s@),
{
    s.to_lowercase()
}

pub open spec fn lowered_codes(windows: Seq<Option<Window>>) -> Seq<Option<Seq<char>>> {
    windows.map_values(|w: Option<Window>| match w {
        Some(x) => Some(lower_of(x.geocode@)),
        None => None,
    })
}

/// The ReadImage reply for a requested sub-geocode, given the windows of
/// the image in scan order: the payload of the first window whose geocode
/// matches the request without regard to case, else a failure naming the
/// sub-geocode.
pub fn subgeocode_reply(subgeocode: &str, windows: &Vec<Option<Window>>) -> (r: Result<
    Vec<u8>,
    FrameError,
>)
    ensures
        forall|i: int|
            is_first_match(lowered_codes(windows@), lower_of(subgeocode@), i) ==> r is Ok
                && r->Ok_0@ == seq![0u8] + windows@[i]->0.payload@,
        !has_match(lowered_codes(windows@), lower_of(subgeocode@)) ==> (fits_field(
            no_window_message(subgeocode@),
        ) ==> r is Ok && r->Ok_0@ == seq![1u8] + str_field(no_window_message(subgeocode@)))
            && (!fits_field(no_window_message(subgeocode@)) ==> r == Err::<Vec<u8>, FrameError>(
            FrameError::StringTooLong,
        )),
{
    let target = lowercase(subgeocode);
    let mut codes: Vec<Option<String>> = Vec::new();
    let mut i: usize = 0;
    while i < windows.len()
        invariant
            i <= windows@.len(),
            codes@.len() == i,
            opt_view(codes@) =~= lowered_codes(windows@).subrange(0, i as int),
        decreases windows@.len() - i,
    {
        let e: Option<String> = match &windows[i] {
            Some(w) => Some(lowercase(w.geocode.as_str())),
            None => None,
        };
        let ghost before = codes@;
        codes.push(e);
        proof {
            assert(codes@ == before.push(e));
            assert forall|j: int| 0 <= j <= i implies opt_view(codes@)[j]
                == lowered_codes(windows@)[j] by {
                if j < i {
                    assert(codes@[j] == before[j]);
                    assert(opt_view(before)[j] == lowered_codes(windows@).subrange(0, i as int)[j]);
                }
            }
            assert(opt_view(codes@) =~= lowered_codes(windows@).subrange(0, i + 1));
        }
        i = i + 1;
    }
    assert(opt_view(codes@) =~= lowered_codes(windows@));
    match pick_window(&target, &codes) {
        Some(k) => {
            proof {
                assert forall|i: int|
                    is_first_match(lowered_codes(windows@), lower_of(subgeocode@), i) implies i
                    == k by {
                    if i < k {
                        assert(opt_view(codes@)[i] != Some(target@));
                    }
                    if k < i {
                        assert(lowered_codes(windows@)[k as int] == Some(target@));
                    }
                }
                assert(windows@[k as int] is Some);
            }
            match &windows[k] {
                Some(w) => Ok(image_reply(w.payload.as_slice())),
                None => Err(FrameError::Truncated),
            }
        },
        None => {
            proof {
                assert forall|i: int|
                    !is_first_match(lowered_codes(windows@), lower_of(subgeocode@), i) by {
                    if is_first_match(lowered_codes(windows@), lower_of(subgeocode@), i) {
                        assert(opt_view(codes@)[i] == Some(target@));
                    }
                }
            }
            let msg = no_window_text(subgeocode);
            failure_reply(msg.as_str())
        },
    }
}

/// The characters of a requested sub-geocode.
pub open spec fn requested_code(s: Option<(GeocodeScheme, String)>) -> Seq<char> {
    match s {
        Some((_, code)) => code@,
        None => Seq::empty(),
    }
}

/// The ReadImage reply once the dataset is open: the whole payload when no
/// sub-geocode is asked for, else the reply for the sub-geocode.
pub fn read_image_reply(
    subgeocode: &Option<(GeocodeScheme, String)>,
    full_payload: &Vec<u8>,
    windows: &Vec<Option<Window>>,
) -> (r: Result<Vec<u8>, FrameError>)
    ensures
        subgeocode is None ==> r is Ok && r->Ok_0@ == seq![0u8] + full_payload@,
        subgeocode is Some ==> forall|i: int|
            is_first_match(lowered_codes(windows@), lower_of(requested_code(*subgeocode)), i) ==> r is Ok
                && r->Ok_0@ == seq![0u8] + windows@[i]->0.payload@,
        subgeocode is Some && !has_match(lowered_codes(windows@), lower_of(requested_code(*subgeocode)))
            && fits_field(no_window_message(requested_code(*subgeocode))) ==> r is Ok && r->Ok_0@ == seq![1u8]
            + str_field(no_window_message(requested_code(*subgeocode))),
        subgeocode is Some && !has_match(lowered_codes(windows@), lower_of(requested_code(*subgeocode)))
            && !fits_field(no_window_message(requested_code(*subgeocode))) ==> r == Err::<
            Vec<u8>,
            FrameError,
        >(FrameError::StringTooLong),
{
    match subgeocode {
        None => Ok(image_reply(full_payload.as_slice())),
        Some((_, code)) => subgeocode_reply(code.as_str(), windows),
    }
}

/// A failure reply always starts with flag `1` and carries a message of at
/// least one character; the message for an unmatched sub-geocode is never
/// empty.
pub proof fn lemma_no_window_reply_flagged(subgeocode: Seq<char>)
    ensures
        (seq![1u8] + str_field(no_window_message(subgeocode)))[0] == 1,
        no_window_message(subgeocode).len() > 0,
{
    reveal_strlit("'");
}

/// The outcome of a WriteImage request on the receiving node: which album,
/// by its place in the registry, takes the tile (none when the name is
/// unknown, and then nothing is written), and the reply byte.
pub fn write_image_outcome(albums: &Vec<String>, album: &String) -> (r: (Option<usize>, u8))
    ensures
        r.1 == 1,
        r.0 is Some ==> r.0->0 < albums@.len() && albums@[r.0->0 as int]@ == album@,
        r.0 is None ==> forall|i: int| 0 <= i < albums@.len() ==> albums@[i]@ != album@,
{
    let mut i: usize = 0;
    while i < albums.len()
        invariant
            i <= albums@.len(),
            forall|j: int| 0 <= j < i ==> albums@[j]@ != album@,
        decreases albums@.len() - i,
    {
        if albums[i] == *album {
            return (Some(i), 1u8);
        }
        i = i + 1;
    }
    (None, 1u8)
}

/// The receiving side of the transfer protocol on one node: it knows the
/// names of the node's albums, in registry order.
pub struct TransferStreamHandler {
    albums: Vec<String>,
}

impl TransferStreamHandler {
    pub closed spec fn album_names(&self) -> Seq<Seq<char>> {
        self.albums@.map_values(|a: String| a@)
    }

    pub fn new(albums: Vec<String>) -> (r: TransferStreamHandler)
        ensures
            r.album_names() == albums@.map_values(|a: String| a@),
    {
        TransferStreamHandler { albums }
    }

    /// Reads the operation byte that opens a request.
    pub fn operation(&self, buf: &[u8]) -> (r: Result<TransferOp, FrameError>)
        ensures
            buf@.len() == 0 ==> r == Err::<TransferOp, FrameError>(FrameError::Truncated),
            buf@.len() > 0 ==> match op_of(buf@[0]) {
                Some(op) => r == Ok::<TransferOp, FrameError>(op),
                None => r == Err::<TransferOp, FrameError>(FrameError::UnknownOp(buf@[0])),
            },
    {
        if buf.len() == 0 {
            return Err(FrameError::Truncated);
        }
        decode_op(buf[0])
    }

    /// Handles a whole WriteImage frame, its payload taking `payload_len`
    /// bytes: the decoded request, the album that takes the tile (none for
    /// an unknown name: the write is dropped), and the reply byte, which is
    /// `1` either way.
    pub fn handle_write(&self, buf: &[u8], payload_len: usize) -> (r: Result<
        (WriteImage, Option<usize>, u8),
        FrameError,
    >)
        ensures
            (buf@.len() > 0 && buf@[0] == 1 && parse_write_image(buf@, 1, payload_len as int) is Ok)
                <==> r is Ok,
            r is Ok ==> ({
                let (w, target, reply) = r->Ok_0;
                &&& w@ == parse_write_image(buf@, 1, payload_len as int)->Ok_0
                &&& reply == 1
                &&& target is Some ==> target->0 < self.album_names().len()
                    && self.album_names()[target->0 as int] == w.album@
                &&& target is None ==> !self.album_names().contains(w.album@)
            }),
    {
        match self.operation(buf) {
            Ok(TransferOp::WriteImage) => {},
            Ok(TransferOp::ReadImage) => return Err(FrameError::UnknownOp(0)),
            Err(e) => return Err(e),
        }
        let w = match decode_write_image(buf, 1, payload_len) {
            Ok(w) => w,
            Err(e) => return Err(e),
        };
        let (target, reply) = write_image_outcome(&self.albums, &w.album);
        proof {
            if target is None {
                if self.album_names().contains(w.album@) {
                    let k = choose|k: int|
                        0 <= k < self.album_names().len() && self.album_names()[k] == w.album@;
                    assert(self.albums@[k]@ == w.album@);
                }
            }
        }
        Ok((w, target, reply))
    }
}

} // verus!
