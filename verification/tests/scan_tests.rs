use web_bluetooth::error::Error;
use web_bluetooth::models::{BluetoothDevice, DeviceFilter, RequestDeviceOptions};
use web_bluetooth::scan::{describe_device, no_devices_matched_error, ScanEntry, ScanSession};
use web_bluetooth::selection::first_match_select;

fn device(id: &str, name: Option<&str>, uuids: &[&str]) -> BluetoothDevice {
    BluetoothDevice {
        id: id.to_string(),
        name: name.map(|n| n.to_string()),
        uuids: uuids.iter().map(|u| u.to_string()).collect(),
        watching_advertisements: false,
        connected: false,
    }
}

fn entry(id: &str, name: Option<&str>, uuids: &[&str]) -> ScanEntry<u32> {
    ScanEntry { device: device(id, name, uuids), handle: 7 }
}

fn service_filter_options(service: &str, timeout_ms: u64) -> RequestDeviceOptions {
    RequestDeviceOptions {
        accept_all_devices: false,
        filters: vec![DeviceFilter {
            services: vec![service.to_string()],
            name: None,
            name_prefix: None,
        }],
        optional_services: Vec::new(),
        scan_timeout_ms: timeout_ms,
    }
}

#[test]
fn invalid_request_fails_before_any_scan() {
    let options = RequestDeviceOptions {
        accept_all_devices: false,
        filters: Vec::new(),
        optional_services: Vec::new(),
        scan_timeout_ms: 200,
    };
    match ScanSession::<u32>::new(&options, 1000, true) {
        Err(Error::InvalidRequest(_)) => {}
        other => panic!("expected InvalidRequest, got {:?}", other.map(|_| ())),
    }
}

#[test]
fn exhaustive_scan_returns_a_matching_device_never_the_third() {
    // Three peripherals are reported; two advertise the filtered
    // service. A one-match arbiter must settle on one of the two.
    let options = service_filter_options("180d", 10000);
    let mut session = ScanSession::<u32>::new(&options, 0, true).unwrap();
    let polled = vec![
        entry("AA:01", Some("HRM One"), &["0000180d-0000-1000-8000-00805f9b34fb"]),
        entry("AA:02", Some("Lamp"), &["0000180a-0000-1000-8000-00805f9b34fb"]),
        entry("AA:03", Some("HRM Two"), &["180d"]),
    ];
    let updated = session.ingest(polled);
    assert!(updated);
    let devices = session.devices();
    assert_eq!(devices.len(), 2);
    let ids: Vec<&str> = devices.iter().map(|d| d.id.as_str()).collect();
    assert!(ids.contains(&"AA:01"));
    assert!(ids.contains(&"AA:03"));
    assert!(!ids.contains(&"AA:02"));

    let selected = first_match_select(&devices);
    let (chosen, handle) = session.resolve_selection(selected).unwrap();
    assert_eq!(chosen.id, "AA:01");
    assert_eq!(handle, 7);
    assert_ne!(chosen.id, "AA:02");
}

#[test]
fn duplicate_ids_keep_the_first_seen_properties() {
    let options = service_filter_options("180d", 10000);
    let mut session = ScanSession::<u32>::new(&options, 0, true).unwrap();
    session.ingest(vec![entry("AA:01", Some("First"), &["180d"])]);
    let updated = session.ingest(vec![entry("AA:01", Some("Second"), &["180d"])]);
    assert!(!updated);
    let devices = session.devices();
    assert_eq!(devices.len(), 1);
    assert_eq!(devices[0].name.as_deref(), Some("First"));
}

#[test]
fn scan_deadline_is_now_plus_timeout() {
    let options = service_filter_options("180d", 200);
    let session = ScanSession::<u32>::new(&options, 1000, true).unwrap();
    assert!(!session.expired(1000));
    assert!(!session.expired(1199));
    assert!(session.expired(1200));
    assert!(session.expired(5000));
}

#[test]
fn empty_scan_ends_in_device_not_found() {
    let options = service_filter_options("180d", 200);
    let mut session = ScanSession::<u32>::new(&options, 0, true).unwrap();
    session.ingest(vec![entry("AA:02", Some("Lamp"), &["180a"])]);
    assert!(!session.has_matches());
    match no_devices_matched_error() {
        Error::DeviceNotFound(m) => {
            assert_eq!(m, "No devices matched the provided filters");
        }
        other => panic!("expected DeviceNotFound, got {:?}", other),
    }
}

#[test]
fn cancelled_selection_is_not_a_lookup_miss() {
    let options = service_filter_options("180d", 200);
    let mut session = ScanSession::<u32>::new(&options, 0, true).unwrap();
    session.ingest(vec![entry("AA:01", None, &["180d"])]);
    match session.resolve_selection(None) {
        Err(Error::SelectionCancelled) => {}
        other => panic!("expected SelectionCancelled, got {:?}", other.map(|_| ())),
    }
    match session.resolve_selection(Some("BB:99".to_string())) {
        Err(Error::DeviceNotFound(id)) => assert_eq!(id, "BB:99"),
        other => panic!("expected DeviceNotFound, got {:?}", other.map(|_| ())),
    }
}

#[test]
fn streaming_updates_are_debounced() {
    let options = service_filter_options("180d", 10000);
    let mut session = ScanSession::<u32>::new(&options, 0, false).unwrap();
    // Nothing matched yet and nothing new: no update.
    assert!(!session.should_emit_update(100, false));
    let updated = session.ingest(vec![entry("AA:01", None, &["180d"])]);
    // A new candidate always reports.
    assert!(session.should_emit_update(300, updated));
    // Unchanged list, refresh interval not yet elapsed: quiet.
    assert!(!session.should_emit_update(600, false));
    // Unchanged but non-empty list after the refresh interval: report.
    assert!(session.should_emit_update(1100, false));
}

#[test]
fn describe_device_reports_canonical_uuids() {
    let d = describe_device(
        &"AA:01".to_string(),
        &Some("HRM".to_string()),
        &vec!["0x180D".to_string(), "0000180a-0000-1000-8000-00805f9b34fb".to_string()],
        true,
    );
    assert_eq!(d.id, "AA:01");
    assert_eq!(d.name.as_deref(), Some("HRM"));
    assert_eq!(d.uuids, vec![
        "0000180d-0000-1000-8000-00805f9b34fb".to_string(),
        "0000180a-0000-1000-8000-00805f9b34fb".to_string(),
    ]);
    assert!(!d.watching_advertisements);
    assert!(d.connected);
}
