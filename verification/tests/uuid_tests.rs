use web_bluetooth::error::Error;
use web_bluetooth::uuid_norm::{canonicalize_uuid, normalize_uuid};

#[test]
fn normalize_16_bit_short_form() {
    assert_eq!(
        normalize_uuid("180d").unwrap(),
        "0000180d-0000-1000-8000-00805f9b34fb"
    );
}

#[test]
fn normalize_16_bit_equals_full_form() {
    assert_eq!(
        normalize_uuid("180d").unwrap(),
        normalize_uuid("0000180d-0000-1000-8000-00805f9b34fb").unwrap()
    );
}

#[test]
fn normalize_32_bit_short_form() {
    assert_eq!(
        normalize_uuid("0000180D").unwrap(),
        "0000180d-0000-1000-8000-00805f9b34fb"
    );
}

#[test]
fn normalize_trims_whitespace_padding() {
    assert_eq!(
        normalize_uuid(" 180d ").unwrap(),
        "0000180d-0000-1000-8000-00805f9b34fb"
    );
    assert_eq!(
        normalize_uuid("\t0x2a37\n").unwrap(),
        "00002a37-0000-1000-8000-00805f9b34fb"
    );
    // Whitespace between prefix and digits is not padding.
    assert!(normalize_uuid("0x 180d").is_err());
    // A token of nothing but whitespace is not a UUID.
    assert!(normalize_uuid("   ").is_err());
}

#[test]
fn normalize_plain_full_form_gains_hyphens() {
    assert_eq!(
        normalize_uuid("0000180D00001000800000805F9B34FB").unwrap(),
        "0000180d-0000-1000-8000-00805f9b34fb"
    );
    assert_eq!(
        normalize_uuid("0000180d00001000800000805f9b34fb").unwrap(),
        normalize_uuid("0000180d-0000-1000-8000-00805f9b34fb").unwrap()
    );
}

#[test]
fn normalize_hex_prefix() {
    assert_eq!(
        normalize_uuid("0x180D").unwrap(),
        "0000180d-0000-1000-8000-00805f9b34fb"
    );
    assert_eq!(
        normalize_uuid("0x0000180d").unwrap(),
        "0000180d-0000-1000-8000-00805f9b34fb"
    );
}

#[test]
fn normalize_full_form_lowers_case() {
    assert_eq!(
        normalize_uuid("6E400001-B5A3-F393-E0A9-E50E24DCCA9E").unwrap(),
        "6e400001-b5a3-f393-e0a9-e50e24dcca9e"
    );
}

#[test]
fn normalize_is_idempotent() {
    for token in [
        "180d",
        "2A37",
        "0x2a37",
        "0000180d",
        " 180d ",
        "6E400001B5A3F393E0A9E50E24DCCA9E",
        "6E400001-B5A3-F393-E0A9-E50E24DCCA9E",
        "0000180d-0000-1000-8000-00805f9b34fb",
    ] {
        let once = normalize_uuid(token).unwrap();
        let twice = normalize_uuid(&once).unwrap();
        assert_eq!(once, twice);
    }
}

#[test]
fn normalize_rejects_malformed_tokens() {
    for token in ["", "18", "180", "xyzw", "180d2", "0x", "1234-5678", "g80d",
        "0000180d-0000-1000-8000-00805f9b34f", "0000180d_0000_1000_8000_00805f9b34fb"]
    {
        match normalize_uuid(token) {
            Err(Error::InvalidUuid(t)) => assert_eq!(t, token),
            other => panic!("expected InvalidUuid for {:?}, got {:?}", token, other),
        }
    }
}

#[test]
fn canonicalize_keeps_unparseable_tokens() {
    assert_eq!(canonicalize_uuid("not-a-uuid"), "not-a-uuid");
    assert_eq!(canonicalize_uuid("180d"), "0000180d-0000-1000-8000-00805f9b34fb");
}
