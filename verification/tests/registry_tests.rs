use web_bluetooth::error::Error;
use web_bluetooth::registry::{notification_key, NotificationKey, NotificationRegistry};
use web_bluetooth::selection::SelectionStrategy;
use web_bluetooth::session::WebBluetooth;

fn key(device: &str, characteristic: &str) -> NotificationKey {
    NotificationKey {
        device_id: device.to_string(),
        characteristic_uuid: characteristic.to_string(),
    }
}

#[test]
fn second_start_for_the_same_key_conflicts() {
    let mut registry: NotificationRegistry<u32> = NotificationRegistry::new();
    registry.start(key("D", "2a37"), 1).unwrap();
    match registry.start(key("D", "2a37"), 2) {
        Err(Error::NotificationsAlreadyActive { device_id, characteristic_uuid }) => {
            assert_eq!(device_id, "D");
            assert_eq!(characteristic_uuid, "2a37");
        }
        other => panic!("expected NotificationsAlreadyActive, got {:?}", other),
    }
    // The first task still owns the key.
    assert!(registry.contains(&"D".to_string(), &"2a37".to_string()));
}

#[test]
fn start_stop_start_succeeds() {
    let mut registry: NotificationRegistry<u32> = NotificationRegistry::new();
    registry.start(key("D", "2a37"), 1).unwrap();
    let task = registry.stop(&"D".to_string(), &"2a37".to_string()).unwrap();
    assert_eq!(task, 1);
    registry.start(key("D", "2a37"), 2).unwrap();
}

#[test]
fn stop_without_start_fails() {
    let mut registry: NotificationRegistry<u32> = NotificationRegistry::new();
    match registry.stop(&"D".to_string(), &"2a37".to_string()) {
        Err(Error::NotificationsNotActive { device_id, characteristic_uuid }) => {
            assert_eq!(device_id, "D");
            assert_eq!(characteristic_uuid, "2a37");
        }
        other => panic!("expected NotificationsNotActive, got {:?}", other.map(|_| ())),
    }
}

#[test]
fn same_characteristic_on_two_devices_is_two_keys() {
    let mut registry: NotificationRegistry<u32> = NotificationRegistry::new();
    registry.start(key("D", "2a37"), 1).unwrap();
    registry.start(key("E", "2a37"), 2).unwrap();
    assert!(registry.contains(&"D".to_string(), &"2a37".to_string()));
    assert!(registry.contains(&"E".to_string(), &"2a37".to_string()));
}

#[test]
fn disconnect_prunes_exactly_the_device() {
    // Two tasks for device D, one for device E. The disconnect for D
    // must abort both D tasks, keep the E task, and notice D once.
    let mut session: WebBluetooth<u32, u32> = WebBluetooth::new(SelectionStrategy::FirstMatch);
    session.notification_tasks.start(key("D", "2a37"), 1).unwrap();
    session.notification_tasks.start(key("D", "2a38"), 2).unwrap();
    session.notification_tasks.start(key("E", "2a37"), 3).unwrap();

    let (tasks, notice) = session.handle_disconnect(&"D".to_string());
    let mut aborted = tasks.clone();
    aborted.sort();
    assert_eq!(aborted, vec![1, 2]);
    assert_eq!(notice.device_id, "D");

    assert!(!session.notification_tasks.contains(&"D".to_string(), &"2a37".to_string()));
    assert!(!session.notification_tasks.contains(&"D".to_string(), &"2a38".to_string()));
    assert!(session.notification_tasks.contains(&"E".to_string(), &"2a37".to_string()));

    // The disconnect path is idempotent against explicit stops: a
    // second disconnect finds nothing and is a no-op, not an error.
    let (tasks, notice) = session.handle_disconnect(&"D".to_string());
    assert!(tasks.is_empty());
    assert_eq!(notice.device_id, "D");
    assert!(session.notification_tasks.contains(&"E".to_string(), &"2a37".to_string()));
}

#[test]
fn disconnect_then_stop_reports_not_active() {
    let mut session: WebBluetooth<u32, u32> = WebBluetooth::new(SelectionStrategy::FirstMatch);
    session.notification_tasks.start(key("D", "2a37"), 1).unwrap();
    let (tasks, _) = session.handle_disconnect(&"D".to_string());
    assert_eq!(tasks, vec![1]);
    match session.notification_tasks.stop(&"D".to_string(), &"2a37".to_string()) {
        Err(Error::NotificationsNotActive { .. }) => {}
        other => panic!("expected NotificationsNotActive, got {:?}", other.map(|_| ())),
    }
}

#[test]
fn stop_returns_the_keys_own_task_and_keeps_the_rest() {
    let mut registry: NotificationRegistry<u32> = NotificationRegistry::new();
    registry.start(key("D", "2a37"), 1).unwrap();
    registry.start(key("D", "2a38"), 2).unwrap();
    registry.start(key("E", "2a37"), 3).unwrap();
    let task = registry.stop(&"D".to_string(), &"2a38".to_string()).unwrap();
    assert_eq!(task, 2);
    assert!(registry.contains(&"D".to_string(), &"2a37".to_string()));
    assert!(registry.contains(&"E".to_string(), &"2a37".to_string()));
    assert!(!registry.contains(&"D".to_string(), &"2a38".to_string()));
}

#[test]
fn disconnect_returns_the_devices_tasks_in_order() {
    let mut registry: NotificationRegistry<u32> = NotificationRegistry::new();
    registry.start(key("D", "2a37"), 1).unwrap();
    registry.start(key("E", "2a37"), 2).unwrap();
    registry.start(key("D", "2a38"), 3).unwrap();
    let tasks = registry.clear_for_device(&"D".to_string());
    assert_eq!(tasks, vec![1, 3]);
    assert!(registry.contains(&"E".to_string(), &"2a37".to_string()));
}

#[test]
fn notification_key_joins_with_a_colon() {
    assert_eq!(notification_key("AA:01", "2a37"), "AA:01:2a37");
    assert_eq!(notification_key("", ""), ":");
}
