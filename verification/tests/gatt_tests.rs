use web_bluetooth::error::Error;
use web_bluetooth::gatt::{
    characteristic_to_model, describe_gatt_server, get_characteristics, get_primary_services,
    notification_event, resolve_characteristic, GattCharacteristic, GattService, PROP_INDICATE,
    PROP_NOTIFY, PROP_READ, PROP_WRITE,
};

fn characteristic(uuid: &str, properties: u8, descriptors: &[&str]) -> GattCharacteristic {
    GattCharacteristic {
        uuid: uuid.to_string(),
        properties,
        descriptors: descriptors.iter().map(|d| d.to_string()).collect(),
    }
}

fn heart_rate_services() -> Vec<GattService> {
    vec![
        GattService {
            uuid: "0000180d-0000-1000-8000-00805f9b34fb".to_string(),
            primary: true,
            characteristics: vec![
                characteristic(
                    "00002a37-0000-1000-8000-00805f9b34fb",
                    PROP_NOTIFY,
                    &["00002902-0000-1000-8000-00805f9b34fb"],
                ),
                characteristic("00002a38-0000-1000-8000-00805f9b34fb", PROP_READ, &[]),
            ],
        },
        GattService {
            uuid: "0000180a-0000-1000-8000-00805f9b34fb".to_string(),
            primary: true,
            characteristics: vec![characteristic(
                "00002a29-0000-1000-8000-00805f9b34fb",
                PROP_READ,
                &[],
            )],
        },
    ]
}

#[test]
fn property_flags_decode_from_the_bitmask() {
    let model = characteristic_to_model(&characteristic(
        "2a37",
        PROP_READ | PROP_WRITE | PROP_NOTIFY | PROP_INDICATE,
        &[],
    ));
    assert_eq!(model.uuid, "00002a37-0000-1000-8000-00805f9b34fb");
    assert!(model.properties.read);
    assert!(model.properties.write);
    assert!(model.properties.notify);
    assert!(model.properties.indicate);
    assert!(!model.properties.broadcast);
    assert!(!model.properties.write_without_response);
    assert!(!model.properties.authenticated_signed_writes);
    assert!(!model.properties.reliable_write);
    assert!(!model.properties.writable_auxiliaries);
}

#[test]
fn descriptors_are_reported_canonically() {
    let model = characteristic_to_model(&characteristic("2a37", 0, &["2902"]));
    assert_eq!(model.descriptors.len(), 1);
    assert_eq!(model.descriptors[0].uuid, "00002902-0000-1000-8000-00805f9b34fb");
}

#[test]
fn primary_services_without_filter_lists_everything() {
    let all = get_primary_services(&heart_rate_services(), &None);
    assert_eq!(all.len(), 2);
    assert_eq!(all[0].uuid, "0000180d-0000-1000-8000-00805f9b34fb");
    assert!(all[0].is_primary);
    assert_eq!(all[0].characteristics.len(), 2);
    assert_eq!(all[1].uuid, "0000180a-0000-1000-8000-00805f9b34fb");
}

#[test]
fn primary_services_filter_accepts_short_forms() {
    let filtered = get_primary_services(&heart_rate_services(), &Some("180d".to_string()));
    assert_eq!(filtered.len(), 1);
    assert_eq!(filtered[0].uuid, "0000180d-0000-1000-8000-00805f9b34fb");

    let none = get_primary_services(&heart_rate_services(), &Some("1234".to_string()));
    assert!(none.is_empty());

    let unparseable = get_primary_services(&heart_rate_services(), &Some("what".to_string()));
    assert!(unparseable.is_empty());
}

#[test]
fn characteristics_of_a_service() {
    let services = heart_rate_services();
    let chars = get_characteristics(&services, &"AA:01".to_string(), &"180d".to_string(), &None)
        .unwrap();
    assert_eq!(chars.len(), 2);
    assert_eq!(chars[0].uuid, "00002a37-0000-1000-8000-00805f9b34fb");
    assert_eq!(chars[1].uuid, "00002a38-0000-1000-8000-00805f9b34fb");
}

#[test]
fn characteristics_filter_ignores_ascii_case() {
    let services = heart_rate_services();
    let chars = get_characteristics(
        &services,
        &"AA:01".to_string(),
        &"180d".to_string(),
        &Some("00002A37-0000-1000-8000-00805F9B34FB".to_string()),
    )
    .unwrap();
    assert_eq!(chars.len(), 1);
    assert_eq!(chars[0].uuid, "00002a37-0000-1000-8000-00805f9b34fb");

    // A short-form filter token is compared verbatim and misses.
    let chars = get_characteristics(
        &services,
        &"AA:01".to_string(),
        &"180d".to_string(),
        &Some("2a37".to_string()),
    )
    .unwrap();
    assert!(chars.is_empty());
}

#[test]
fn characteristics_lookup_misses_carry_the_identifiers() {
    let services = heart_rate_services();
    match get_characteristics(&services, &"AA:01".to_string(), &"1234".to_string(), &None) {
        Err(Error::ServiceNotFound { device_id, service_uuid }) => {
            assert_eq!(device_id, "AA:01");
            assert_eq!(service_uuid, "1234");
        }
        other => panic!("expected ServiceNotFound, got {:?}", other),
    }
    match get_characteristics(&services, &"AA:01".to_string(), &"nope".to_string(), &None) {
        Err(Error::InvalidUuid(t)) => assert_eq!(t, "nope"),
        other => panic!("expected InvalidUuid, got {:?}", other),
    }
}

#[test]
fn resolve_characteristic_finds_positions() {
    let services = heart_rate_services();
    let (i, j) = resolve_characteristic(
        &services,
        &"AA:01".to_string(),
        &"180d".to_string(),
        &"2a38".to_string(),
    )
    .unwrap();
    assert_eq!((i, j), (0, 1));
}

#[test]
fn resolve_characteristic_misses_carry_the_identifiers() {
    let services = heart_rate_services();
    match resolve_characteristic(
        &services,
        &"AA:01".to_string(),
        &"180d".to_string(),
        &"2aff".to_string(),
    ) {
        Err(Error::CharacteristicNotFound { device_id, characteristic_uuid }) => {
            assert_eq!(device_id, "AA:01");
            assert_eq!(characteristic_uuid, "2aff");
        }
        other => panic!("expected CharacteristicNotFound, got {:?}", other),
    }
    match resolve_characteristic(
        &services,
        &"AA:01".to_string(),
        &"180f".to_string(),
        &"2a37".to_string(),
    ) {
        Err(Error::ServiceNotFound { service_uuid, .. }) => assert_eq!(service_uuid, "180f"),
        other => panic!("expected ServiceNotFound, got {:?}", other),
    }
    match resolve_characteristic(
        &services,
        &"AA:01".to_string(),
        &"180d".to_string(),
        &"bogus".to_string(),
    ) {
        Err(Error::InvalidUuid(t)) => assert_eq!(t, "bogus"),
        other => panic!("expected InvalidUuid, got {:?}", other),
    }
}

#[test]
fn gatt_server_snapshot() {
    let info = describe_gatt_server(&"AA:01".to_string(), true, &heart_rate_services());
    assert_eq!(info.device_id, "AA:01");
    assert!(info.connected);
    assert_eq!(info.services.len(), 2);
}

#[test]
fn notification_events_filter_by_characteristic() {
    let value = vec![77, 97, 110];
    // The notification names the subscribed characteristic: an event
    // is emitted, with the payload base64-encoded.
    let event = notification_event(
        &"AA:01".to_string(),
        &"180d".to_string(),
        &"2a37".to_string(),
        &"00002a37-0000-1000-8000-00805f9b34fb".to_string(),
        &"2a37".to_string(),
        &value,
    )
    .unwrap();
    assert_eq!(event.device_id, "AA:01");
    assert_eq!(event.service_uuid, "180d");
    assert_eq!(event.characteristic_uuid, "2a37");
    assert_eq!(event.value, "TWFu");

    // A notification for another characteristic is dropped.
    assert!(notification_event(
        &"AA:01".to_string(),
        &"180d".to_string(),
        &"2a37".to_string(),
        &"00002a38-0000-1000-8000-00805f9b34fb".to_string(),
        &"2a37".to_string(),
        &value,
    )
    .is_none());
}
