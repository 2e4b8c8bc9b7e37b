use stip::load::{metadata_value, subdataset_pairs, naip_capture_date, naip_timestamp, tile_action, LoadError, TileAction};
use stip::route::{RouteError, TransferAddr};

#[test]
fn naip_date_from_file_name() {
    assert_eq!(naip_capture_date("m_3712213_ne_10_060_20180624.tif"), Ok((2018, 6, 24)));
}

#[test]
fn naip_timestamp_is_midnight_utc() {
    assert_eq!(naip_timestamp("m_3712213_ne_10_060_20180624.tif"), Ok(1529798400));
    assert_eq!(naip_timestamp("m_3712213_ne_10_060_20000229.tif"), Ok(951782400));
    assert_eq!(naip_timestamp("x_19700101.tif"), Ok(0));
}

#[test]
fn naip_name_faults() {
    assert_eq!(naip_capture_date("short.tif"), Err(LoadError::BadFileName));
    assert_eq!(naip_capture_date("m_3712213_ne_10_060_2018x624.tif"), Err(LoadError::BadDateField));
    assert_eq!(naip_capture_date("m_ü_ne_10_060_20180624.tif"), Err(LoadError::BadFileName));
    assert_eq!(naip_timestamp("m_3712213_ne_10_060_20180231.tif"), Err(LoadError::InvalidDate));
    assert_eq!(naip_timestamp("m_3712213_ne_10_060_20181301.tif"), Err(LoadError::InvalidDate));
}

#[test]
fn zero_coverage_tiles_are_skipped() {
    let addr = TransferAddr { ip_address: "10.0.0.2".to_string(), port: 15606 };
    assert!(matches!(tile_action(0.0f64.to_bits(), Ok(addr.clone())), TileAction::Skip));
    assert!(matches!(tile_action((-0.0f64).to_bits(), Ok(addr.clone())), TileAction::Skip));
    match tile_action(0.5f64.to_bits(), Ok(addr)) {
        TileAction::Send(a) => assert_eq!(a.port, 15606),
        _ => panic!("tile with data not sent"),
    }
    assert!(matches!(
        tile_action(0.5f64.to_bits(), Err(RouteError::NoNode)),
        TileAction::Unroutable(RouteError::NoNode)
    ));
}

#[test]
fn metadata_values() {
    assert_eq!(metadata_value("SUBDATASET_1_NAME=SENTINEL2_L1C:a.xml:10m"), Some("SENTINEL2_L1C:a.xml:10m".to_string()));
    assert_eq!(metadata_value("K=a=b"), Some("a".to_string()));
    assert_eq!(metadata_value("K="), Some(String::new()));
    assert_eq!(metadata_value("no value"), None);
}

#[test]
fn subdatasets_pair_name_and_description() {
    let lines = vec![
        "SUBDATASET_1_NAME=n1".to_string(),
        "SUBDATASET_1_DESC=d1".to_string(),
        "SUBDATASET_2_NAME=n2".to_string(),
        "SUBDATASET_2_DESC=d2".to_string(),
        "SUBDATASET_3_NAME=n3".to_string(),
    ];
    let pairs = subdataset_pairs(&lines).unwrap();
    assert_eq!(pairs, vec![("n1".to_string(), "d1".to_string()), ("n2".to_string(), "d2".to_string())]);
    let bad = vec!["SUBDATASET_1_NAME=n1".to_string(), "broken".to_string()];
    assert_eq!(subdataset_pairs(&bad), Err(LoadError::BadMetadata));
    assert_eq!(subdataset_pairs(&Vec::new()), Ok(Vec::new()));
}
