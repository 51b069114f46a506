use web_bluetooth::cache::CacheEntry;
use web_bluetooth::error::Error;
use web_bluetooth::models::{DeviceRequest, PingRequest};
use web_bluetooth::selection::{
    first_match_select, gatt_disconnected_event_name, notification_event_name,
    selection_event_name, selection_window_label, update_event_name,
    NativeDialogSelectionHandler, SelectionStrategy,
};
use web_bluetooth::session::{adapter_available, adapter_index_for, locate_peripheral, WebBluetooth};

#[test]
fn ping_echoes_the_payload() {
    let session: WebBluetooth<u32, u32> = WebBluetooth::new(SelectionStrategy::FirstMatch);
    let response = session.ping(PingRequest { value: Some("hello".to_string()) });
    assert_eq!(response.value.as_deref(), Some("hello"));
    let response = session.ping(PingRequest { value: None });
    assert!(response.value.is_none());
}

#[test]
fn no_adapter_is_fatal_to_construction() {
    match adapter_index_for(0) {
        Err(Error::NoAdapter) => {}
        other => panic!("expected NoAdapter, got {:?}", other),
    }
    assert_eq!(adapter_index_for(3).unwrap(), 0);
}

#[test]
fn availability_checks_the_adapter_index() {
    assert!(adapter_available(1, 0));
    assert!(adapter_available(3, 2));
    assert!(!adapter_available(0, 0));
    assert!(!adapter_available(2, 2));
}

#[test]
fn cache_inserts_replace_and_forget_removes() {
    let mut session: WebBluetooth<u32, u32> = WebBluetooth::new(SelectionStrategy::FirstMatch);
    session.admit_peripheral("AA:01".to_string(), 1);
    session.admit_peripheral("AA:02".to_string(), 2);
    // Last writer wins for the same id.
    session.admit_peripheral("AA:01".to_string(), 3);
    assert_eq!(session.peripherals.len(), 2);
    assert_eq!(session.peripherals.get(&"AA:01".to_string()), Some(&3));
    assert_eq!(session.peripherals.get(&"AA:02".to_string()), Some(&2));

    let dropped = session.forget_device(&DeviceRequest { device_id: "AA:01".to_string() });
    assert_eq!(dropped, Some(3));
    assert!(session.peripherals.get(&"AA:01".to_string()).is_none());
    // Forgetting an unknown device is a no-op.
    let dropped = session.forget_device(&DeviceRequest { device_id: "AA:01".to_string() });
    assert!(dropped.is_none());
    assert_eq!(session.peripherals.len(), 1);
}

#[test]
fn cached_ids_keep_insertion_order() {
    let mut session: WebBluetooth<u32, u32> = WebBluetooth::new(SelectionStrategy::FirstMatch);
    session.admit_peripheral("AA:01".to_string(), 1);
    session.admit_peripheral("AA:02".to_string(), 2);
    assert_eq!(session.peripherals.ids(), vec!["AA:01".to_string(), "AA:02".to_string()]);
}

#[test]
fn locate_peripheral_picks_by_id() {
    let candidates = vec![
        CacheEntry { id: "AA:01".to_string(), handle: 1u32 },
        CacheEntry { id: "AA:02".to_string(), handle: 2u32 },
    ];
    assert_eq!(locate_peripheral(candidates, &"AA:02".to_string()).unwrap(), 2);

    let candidates = vec![CacheEntry { id: "AA:01".to_string(), handle: 1u32 }];
    match locate_peripheral(candidates, &"BB:09".to_string()) {
        Err(Error::DeviceNotFound(id)) => assert_eq!(id, "BB:09"),
        other => panic!("expected DeviceNotFound, got {:?}", other.map(|_| ())),
    }
}

#[test]
fn first_match_takes_the_first_candidate() {
    assert!(first_match_select(&Vec::new()).is_none());
}

#[test]
fn dialog_handler_configuration() {
    let handler = NativeDialogSelectionHandler::new();
    assert_eq!(handler.response_timeout_ms, 30000);
    assert!(!handler.full_scan_before_dialog);
    assert!(!handler.wants_full_scan());

    let handler = handler.with_response_timeout(5000).require_full_scan_before_dialog(true);
    assert_eq!(handler.response_timeout_ms, 5000);
    assert!(handler.wants_full_scan());

    assert_eq!(NativeDialogSelectionHandler::default(), NativeDialogSelectionHandler::new());
}

#[test]
fn strategy_decides_the_scan_policy() {
    assert!(!SelectionStrategy::FirstMatch.wants_full_scan());
    let dialog = SelectionStrategy::NativeDialog(NativeDialogSelectionHandler::new());
    assert!(!dialog.wants_full_scan());
    let dialog = SelectionStrategy::NativeDialog(
        NativeDialogSelectionHandler::new().require_full_scan_before_dialog(true),
    );
    assert!(dialog.wants_full_scan());
}

#[test]
fn event_names_are_derived_per_request() {
    let selection = selection_event_name("req-1");
    assert_eq!(selection, "web-bluetooth://select-bluetooth-device/req-1");
    assert_eq!(update_event_name(&selection), "web-bluetooth://select-bluetooth-device/req-1devices");
    assert_eq!(selection_window_label("req-1"), "web-bluetooth-selector-req-1");
    assert_eq!(notification_event_name(), "web-bluetooth://characteristic-value-changed");
    assert_eq!(gatt_disconnected_event_name(), "web-bluetooth://gattserver-disconnected");
}
