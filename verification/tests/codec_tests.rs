use web_bluetooth::codec::{
    decode_characteristic_value, encode_characteristic_value, prepare_write_value, WriteMode,
};
use web_bluetooth::error::Error;
use web_bluetooth::models::WriteValueRequest;

#[test]
fn encode_known_vectors() {
    assert_eq!(encode_characteristic_value(&vec![]).value, "");
    assert_eq!(encode_characteristic_value(&vec![77, 97, 110]).value, "TWFu");
    assert_eq!(encode_characteristic_value(&vec![77, 97]).value, "TWE=");
    assert_eq!(encode_characteristic_value(&vec![77]).value, "TQ==");
    assert_eq!(encode_characteristic_value(&vec![0, 0, 0]).value, "AAAA");
    assert_eq!(
        encode_characteristic_value(&vec![72, 101, 108, 108, 111]).value,
        "SGVsbG8="
    );
}

#[test]
fn decode_known_vectors() {
    assert_eq!(decode_characteristic_value("TWFu").unwrap(), vec![77, 97, 110]);
    assert_eq!(decode_characteristic_value("TWE=").unwrap(), vec![77, 97]);
    assert_eq!(decode_characteristic_value("").unwrap(), Vec::<u8>::new());
}

#[test]
fn decode_rejects_non_base64() {
    for bad in ["not base64!!", "TWF", "====", "TW Fu"] {
        match decode_characteristic_value(bad) {
            Err(Error::InvalidBase64(_)) => {}
            other => panic!("expected InvalidBase64 for {:?}, got {:?}", bad, other),
        }
    }
}

#[test]
fn decode_rejects_non_canonical_padding_bits() {
    // "TWF=" carries set bits beyond the two encoded bytes; only the
    // canonical "TWE=" spells [77, 97].
    assert!(decode_characteristic_value("TWF=").is_err());
    assert_eq!(decode_characteristic_value("TWE=").unwrap(), vec![77, 97]);
}

#[test]
fn write_then_read_round_trips_the_payload() {
    // A loopback characteristic hands back the bytes a write stored;
    // reading re-encodes them into the original payload.
    for payload in ["SGVsbG8=", "TWFu", "", "AAAA", "TQ=="] {
        let stored = decode_characteristic_value(payload).unwrap();
        let reread = encode_characteristic_value(&stored);
        assert_eq!(reread.value, payload);
    }
}

#[test]
fn prepare_write_picks_the_requested_mode() {
    let request = WriteValueRequest {
        device_id: "AA:01".to_string(),
        service_uuid: "180d".to_string(),
        characteristic_uuid: "2a37".to_string(),
        value: "TWFu".to_string(),
        with_response: true,
    };
    let (bytes, mode) = prepare_write_value(&request).unwrap();
    assert_eq!(bytes, vec![77, 97, 110]);
    assert_eq!(mode, WriteMode::WithResponse);

    let request = WriteValueRequest { with_response: false, ..request };
    let (_, mode) = prepare_write_value(&request).unwrap();
    assert_eq!(mode, WriteMode::WithoutResponse);
}

#[test]
fn prepare_write_rejects_bad_payloads() {
    let request = WriteValueRequest {
        device_id: "AA:01".to_string(),
        service_uuid: "180d".to_string(),
        characteristic_uuid: "2a37".to_string(),
        value: "***".to_string(),
        with_response: true,
    };
    match prepare_write_value(&request) {
        Err(Error::InvalidBase64(_)) => {}
        other => panic!("expected InvalidBase64, got {:?}", other.map(|_| ())),
    }
}
