use stip::serve::{
    decode_read_request, encode_read_request, failure_reply, image_reply, missing_path_text,
    read_image_reply, subgeocode_reply, write_image_outcome, GeocodeScheme, ReadImageRequest,
    TransferStreamHandler, Window,
};
use stip::transfer::{decode_op, decode_write_image, encode_write_image, op_byte, TransferOp, WriteImage};
use stip::wire::{read_string, read_u64, write_string, write_u64, FrameError};

fn sample() -> WriteImage {
    WriteImage {
        album: "naip".to_string(),
        payload: vec![7, 0, 255, 3, 9],
        geocode: "9q8yy".to_string(),
        coverage_bits: 0.75f64.to_bits(),
        platform: "NAIP".to_string(),
        source: "raw".to_string(),
        subdataset: 2,
        tile: "m_3712213_ne".to_string(),
        timestamp: -1_234_567,
    }
}

#[test]
fn string_field_round_trip() {
    let mut out = Vec::new();
    write_string("héllo", &mut out).unwrap();
    assert_eq!(out[0], 6);
    assert_eq!(out.len(), 7);
    let (s, next) = read_string(&out, 0).unwrap();
    assert_eq!(s, "héllo");
    assert_eq!(next, 7);
}

#[test]
fn long_string_refused() {
    let mut out = vec![9u8];
    let long = "a".repeat(256);
    assert_eq!(write_string(&long, &mut out), Err(FrameError::StringTooLong));
    assert_eq!(out, vec![9u8]);
    assert!(write_string(&"a".repeat(255), &mut out).is_ok());
}

#[test]
fn string_read_faults() {
    assert_eq!(read_string(&[3, b'a'], 0).err(), Some(FrameError::Truncated));
    assert_eq!(read_string(&[], 0).err(), Some(FrameError::Truncated));
    assert_eq!(read_string(&[2, 0xff, 0xfe], 0).err(), Some(FrameError::InvalidUtf8));
}

#[test]
fn u64_is_big_endian() {
    let mut out = Vec::new();
    write_u64(0x0102030405060708, &mut out);
    assert_eq!(out, vec![1, 2, 3, 4, 5, 6, 7, 8]);
    assert_eq!(read_u64(&out, 0).unwrap(), (0x0102030405060708, 8));
    assert_eq!(read_u64(&out, 1).err(), Some(FrameError::Truncated));
}

#[test]
fn write_image_round_trip() {
    let w = sample();
    let frame = encode_write_image(&w).unwrap();
    assert_eq!(frame[0], 1);
    assert_eq!(decode_op(frame[0]), Ok(TransferOp::WriteImage));
    let back = decode_write_image(&frame, 1, w.payload.len()).unwrap();
    assert_eq!(back.album, w.album);
    assert_eq!(back.payload, w.payload);
    assert_eq!(back.geocode, w.geocode);
    assert_eq!(f64::from_bits(back.coverage_bits), 0.75);
    assert_eq!(back.platform, w.platform);
    assert_eq!(back.source, w.source);
    assert_eq!(back.subdataset, 2);
    assert_eq!(back.tile, w.tile);
    assert_eq!(back.timestamp, -1_234_567);
}

#[test]
fn write_image_layout() {
    let w = sample();
    let frame = encode_write_image(&w).unwrap();
    assert_eq!(&frame[0..6], &[1, 4, b'n', b'a', b'i', b'p']);
    assert_eq!(&frame[6..11], &[7, 0, 255, 3, 9]);
    let expected_len = 1 + 5 + 5 + 6 + 8 + 5 + 4 + 1 + 13 + 8;
    assert_eq!(frame.len(), expected_len);
}

#[test]
fn truncated_write_image_fails() {
    let frame = encode_write_image(&sample()).unwrap();
    assert!(decode_write_image(&frame[..frame.len() - 1], 1, 5).is_err());
}

#[test]
fn unknown_op_is_error() {
    assert_eq!(decode_op(0), Ok(TransferOp::ReadImage));
    assert_eq!(decode_op(2), Err(FrameError::UnknownOp(2)));
    assert_eq!(op_byte(TransferOp::ReadImage), 0);
}

#[test]
fn read_request_round_trip() {
    let req = ReadImageRequest {
        path: "/data/img.tif".to_string(),
        subgeocode: Some((GeocodeScheme::QuadTile, "0231".to_string())),
    };
    let frame = encode_read_request(&req).unwrap();
    assert_eq!(frame[0], 0);
    let back = decode_read_request(&frame, 1).unwrap();
    assert_eq!(back.path, "/data/img.tif");
    assert_eq!(back.subgeocode, Some((GeocodeScheme::QuadTile, "0231".to_string())));
    let plain = ReadImageRequest { path: "/p".to_string(), subgeocode: None };
    let frame = encode_read_request(&plain).unwrap();
    assert_eq!(frame, vec![0, 2, b'/', b'p', 0]);
    assert!(decode_read_request(&frame, 1).unwrap().subgeocode.is_none());
}

#[test]
fn unknown_scheme_is_error() {
    let frame = vec![1u8, b'p', 1, 7, 2, b'a', b'b'];
    assert_eq!(decode_read_request(&frame, 0).err(), Some(FrameError::UnknownScheme(7)));
}

#[test]
fn full_image_without_subgeocode() {
    let payload = vec![5u8, 4, 3];
    let reply = read_image_reply(&None, &payload, &Vec::new()).unwrap();
    assert_eq!(reply, vec![0, 5, 4, 3]);
    assert_eq!(image_reply(&[]), vec![0]);
}

#[test]
fn subgeocode_matches_without_case() {
    let windows = vec![
        None,
        Some(Window { geocode: "9Q8YX".to_string(), payload: vec![1] }),
        Some(Window { geocode: "9Q8YY".to_string(), payload: vec![2, 2] }),
        Some(Window { geocode: "9q8yy".to_string(), payload: vec![3] }),
    ];
    assert_eq!(subgeocode_reply("9q8yy", &windows).unwrap(), vec![0, 2, 2]);
}

#[test]
fn uncovered_subgeocode_reports_failure() {
    let windows = vec![Some(Window { geocode: "9q8yx".to_string(), payload: vec![1] }), None];
    let reply = subgeocode_reply("9q8zz", &windows).unwrap();
    assert_eq!(reply[0], 1);
    let msg = "failed to split image into geocode '9q8zz'";
    assert_eq!(reply[1] as usize, msg.len());
    assert_eq!(&reply[2..], msg.as_bytes());
    let sub = Some((GeocodeScheme::Geohash, "9q8zz".to_string()));
    assert_eq!(read_image_reply(&sub, &vec![9], &windows).unwrap(), reply);
}

#[test]
fn failure_reply_layout() {
    assert_eq!(failure_reply("no").unwrap(), vec![1, 2, b'n', b'o']);
    assert_eq!(missing_path_text("/x"), "path '/x' does not exist");
}

#[test]
fn write_to_missing_album_still_acknowledged() {
    let albums = vec!["naip".to_string(), "sentinel".to_string()];
    assert_eq!(write_image_outcome(&albums, &"sentinel".to_string()), (Some(1), 1));
    assert_eq!(write_image_outcome(&albums, &"landsat".to_string()), (None, 1));
    let handler = TransferStreamHandler::new(albums);
    let mut w = sample();
    w.album = "landsat".to_string();
    let frame = encode_write_image(&w).unwrap();
    let (req, target, reply) = handler.handle_write(&frame, 5).unwrap();
    assert_eq!(reply, 1);
    assert!(target.is_none());
    assert_eq!(req.album, "landsat");
    let (_, target, reply) = handler.handle_write(&encode_write_image(&sample()).unwrap(), 5).unwrap();
    assert_eq!((target, reply), (Some(0), 1));
}
