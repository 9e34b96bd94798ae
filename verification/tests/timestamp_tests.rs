use rplace_fun::errors::IngestError;
use rplace_fun::timestamp::decode_timestamp;

#[test]
fn timestamp_with_fraction() {
    let t = decode_timestamp("2022-04-01 12:34:56.789 UTC", 0).unwrap();
    let expected =
        chrono::NaiveDateTime::parse_from_str("2022-04-01 12:34:56.789", "%Y-%m-%d %H:%M:%S%.f")
            .unwrap();
    assert_eq!(t, expected);
}

#[test]
fn timestamp_without_fraction() {
    let t = decode_timestamp("2017-04-03 00:00:01 UTC", 0).unwrap();
    let expected =
        chrono::NaiveDateTime::parse_from_str("2017-04-03 00:00:01", "%Y-%m-%d %H:%M:%S").unwrap();
    assert_eq!(t, expected);
}

#[test]
fn timestamp_wrong_shape_is_fatal() {
    match decode_timestamp("2022-04-01T12:34:56Z", 13) {
        Err(IngestError::MalformedTimestamp { position, raw }) => {
            assert_eq!(position, 13);
            assert_eq!(raw, "2022-04-01T12:34:56Z");
        }
        other => panic!("expected MalformedTimestamp, got {:?}", other.is_ok()),
    }
}

#[test]
fn timestamp_garbage_is_fatal() {
    assert!(decode_timestamp("not a date", 0).is_err());
    assert!(decode_timestamp("", 0).is_err());
    assert!(decode_timestamp("2022-13-01 00:00:00 UTC", 0).is_err());
    assert!(decode_timestamp("2022-02-30 00:00:00 UTC", 0).is_err());
}
