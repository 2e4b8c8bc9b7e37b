use stip::number::{i64_opt, string_opt, u64_opt};
use stip::route::{dht_key, route_hash, transfer_addr, DhtNode, RouteError};

#[test]
fn key_length_zero_keeps_geocode() {
    assert_eq!(dht_key("9q8yy", 0).unwrap(), b"9q8yy".to_vec());
}

#[test]
fn positive_key_length_drops_prefix() {
    assert_eq!(dht_key("9q8yy", 2).unwrap(), b"8yy".to_vec());
}

#[test]
fn negative_key_length_drops_suffix() {
    assert_eq!(dht_key("9q8yy", -2).unwrap(), b"9q8".to_vec());
}

#[test]
fn key_length_equal_to_length_is_invalid() {
    assert_eq!(dht_key("9q8yy", 5), Err(RouteError::InvalidKeyLength));
    assert_eq!(dht_key("9q8yy", -5), Err(RouteError::InvalidKeyLength));
}

#[test]
fn extreme_key_lengths_are_invalid() {
    assert_eq!(dht_key("9q8yy", i8::MAX), Err(RouteError::InvalidKeyLength));
    assert_eq!(dht_key("9q8yy", i8::MIN), Err(RouteError::InvalidKeyLength));
    assert_eq!(route_hash("9q8yy", i8::MIN), Err(RouteError::InvalidKeyLength));
}

#[test]
fn routing_twice_gives_same_hash() {
    let a = route_hash("9q8yyk", 1).unwrap();
    let b = route_hash("9q8yyk", 1).unwrap();
    assert_eq!(a, b);
}

#[test]
fn same_key_same_hash_other_key_other_hash() {
    assert_eq!(route_hash("xq8yy", 1).unwrap(), route_hash("9q8yy", 1).unwrap());
    assert_ne!(route_hash("9q8yy", 0).unwrap(), route_hash("9q8yz", 0).unwrap());
}

#[test]
fn transfer_addr_outcomes() {
    assert_eq!(transfer_addr(&None).err(), Some(RouteError::NoNode));
    let no_port = DhtNode { ip_address: "10.0.0.1".to_string(), xfer_port: None };
    assert_eq!(transfer_addr(&Some(no_port)).err(), Some(RouteError::MissingTransferPort));
    let bad = DhtNode { ip_address: "10.0.0.1".to_string(), xfer_port: Some("70000".to_string()) };
    assert_eq!(transfer_addr(&Some(bad)).err(), Some(RouteError::BadTransferPort));
    let word = DhtNode { ip_address: "10.0.0.1".to_string(), xfer_port: Some("port".to_string()) };
    assert_eq!(transfer_addr(&Some(word)).err(), Some(RouteError::BadTransferPort));
    let good = DhtNode { ip_address: "10.0.0.1".to_string(), xfer_port: Some("15606".to_string()) };
    let addr = transfer_addr(&Some(good)).unwrap();
    assert_eq!(addr.ip_address, "10.0.0.1");
    assert_eq!(addr.port, 15606);
}

#[test]
fn optional_numbers() {
    assert_eq!(i64_opt(None), Ok(None));
    assert_eq!(i64_opt(Some("-42")), Ok(Some(-42)));
    assert!(i64_opt(Some("4x")).is_err());
    assert_eq!(u64_opt(Some("+7")), Ok(Some(7)));
    assert!(u64_opt(Some("-7")).is_err());
    assert!(u64_opt(Some("")).is_err());
    assert_eq!(string_opt(Some("landsat")), Some("landsat".to_string()));
    assert_eq!(string_opt(None), None);
}
