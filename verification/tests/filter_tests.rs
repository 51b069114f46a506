use web_bluetooth::error::Error;
use web_bluetooth::filter::validate_request_device_options;
use web_bluetooth::models::{BluetoothDevice, DeviceFilter, RequestDeviceOptions};

fn device(id: &str, name: Option<&str>, uuids: &[&str]) -> BluetoothDevice {
    BluetoothDevice {
        id: id.to_string(),
        name: name.map(|n| n.to_string()),
        uuids: uuids.iter().map(|u| u.to_string()).collect(),
        watching_advertisements: false,
        connected: false,
    }
}

fn options(accept_all: bool, filters: Vec<DeviceFilter>) -> RequestDeviceOptions {
    RequestDeviceOptions {
        accept_all_devices: accept_all,
        filters,
        optional_services: Vec::new(),
        scan_timeout_ms: 10000,
    }
}

fn filter(services: &[&str], name: Option<&str>, prefix: Option<&str>) -> DeviceFilter {
    DeviceFilter {
        services: services.iter().map(|u| u.to_string()).collect(),
        name: name.map(|n| n.to_string()),
        name_prefix: prefix.map(|p| p.to_string()),
    }
}

#[test]
fn exact_name_constraint_is_case_sensitive() {
    let o = validate_request_device_options(&options(
        false,
        vec![filter(&[], Some("Thermometer"), None)],
    ))
    .unwrap();
    assert!(o.matches(&device("d1", Some("Thermometer"), &[])));
    assert!(!o.matches(&device("d1", Some("thermometer"), &[])));
    assert!(!o.matches(&device("d1", None, &[])));
}

#[test]
fn prefix_constraint_requires_a_name() {
    let o = validate_request_device_options(&options(
        false,
        vec![filter(&[], None, Some("Ther"))],
    ))
    .unwrap();
    assert!(o.matches(&device("d1", Some("Thermometer"), &[])));
    assert!(!o.matches(&device("d1", Some("Meter"), &[])));
    assert!(!o.matches(&device("d1", None, &[])));
}

#[test]
fn service_constraint_is_a_subset_test() {
    let o = validate_request_device_options(&options(
        false,
        vec![filter(&["180d", "180f"], None, None)],
    ))
    .unwrap();
    // Both required services advertised, among others: match.
    assert!(o.matches(&device(
        "d1",
        None,
        &[
            "0000180d-0000-1000-8000-00805f9b34fb",
            "0000180f-0000-1000-8000-00805f9b34fb",
            "0000180a-0000-1000-8000-00805f9b34fb",
        ],
    )));
    // Short-form advertisements are compared in canonical form too.
    assert!(o.matches(&device("d1", None, &["180d", "180f"])));
    // One required service missing: no match.
    assert!(!o.matches(&device("d1", None, &["0000180d-0000-1000-8000-00805f9b34fb"])));
}

#[test]
fn constraints_combine_as_a_conjunction() {
    let o = validate_request_device_options(&options(
        false,
        vec![filter(&["180d"], Some("HRM"), Some("HR"))],
    ))
    .unwrap();
    assert!(o.matches(&device("d1", Some("HRM"), &["180d"])));
    // Name matches but the service is missing.
    assert!(!o.matches(&device("d1", Some("HRM"), &[])));
    // Service matches but the name differs.
    assert!(!o.matches(&device("d1", Some("HRX"), &["180d"])));
}

#[test]
fn filters_combine_as_a_disjunction() {
    let o = validate_request_device_options(&options(
        false,
        vec![
            filter(&[], Some("Alpha"), None),
            filter(&[], Some("Beta"), None),
        ],
    ))
    .unwrap();
    assert!(o.matches(&device("d1", Some("Alpha"), &[])));
    assert!(o.matches(&device("d1", Some("Beta"), &[])));
    assert!(!o.matches(&device("d1", Some("Gamma"), &[])));
}

#[test]
fn accept_all_matches_everything() {
    let o = validate_request_device_options(&options(
        true,
        vec![filter(&[], Some("Never"), None)],
    ))
    .unwrap();
    assert!(o.matches(&device("d1", None, &[])));
    assert!(o.matches(&device("d2", Some("Anything"), &["180d"])));
}

#[test]
fn empty_filters_without_accept_all_is_invalid() {
    match validate_request_device_options(&options(false, Vec::new())) {
        Err(Error::InvalidRequest(m)) => {
            assert_eq!(m, "Either acceptAllDevices must be true or filters must be provided");
        }
        other => panic!("expected InvalidRequest, got {:?}", other),
    }
}

#[test]
fn malformed_filter_service_uuid_is_invalid() {
    match validate_request_device_options(&options(
        false,
        vec![filter(&["180d", "not-a-uuid"], None, None)],
    )) {
        Err(Error::InvalidUuid(t)) => assert_eq!(t, "not-a-uuid"),
        other => panic!("expected InvalidUuid, got {:?}", other),
    }
}

#[test]
fn zero_timeout_is_clamped_to_one() {
    let mut o = options(true, Vec::new());
    o.scan_timeout_ms = 0;
    let n = validate_request_device_options(&o).unwrap();
    assert_eq!(n.scan_timeout_ms, 1);
}
