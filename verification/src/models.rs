//! Request and response shapes of the session API.
//!
//! All of them are plain values: identifiers and UUIDs are strings,
//! characteristic payloads cross the boundary as base64 text. Each
//! compound type has a mathematical view over sequences of characters,
//! and the contracts of the crate speak in those views.

use vstd::prelude::*;

verus! {

/// Echo request.
#[derive(Debug)]
pub struct PingRequest {
    pub value: Option<String>,
}

/// Echo response.
#[derive(Debug)]
pub struct PingResponse {
    pub value: Option<String>,
}

/// The view of an optional string.
pub open spec fn opt_str_view(v: Option<String>) -> Option<Seq<char>> {
    match v {
        Some(s) => Some(s@),
        None => None,
    }
}

/// Options of a device-discovery request.
///
/// Invariant checked at validation time: if `accept_all_devices` is
/// false, `filters` must be non-empty.
#[derive(Debug)]
pub struct RequestDeviceOptions {
    pub accept_all_devices: bool,
    pub filters: Vec<DeviceFilter>,
    pub optional_services: Vec<String>,
    pub scan_timeout_ms: u64,
}

/// Mathematical view of [`RequestDeviceOptions`].
pub ghost struct OptionsView {
    pub accept_all_devices: bool,
    pub filters: Seq<FilterView>,
    pub optional_services: Seq<Seq<char>>,
    pub scan_timeout_ms: u64,
}

impl View for RequestDeviceOptions {
    type V = OptionsView;

    open spec fn view(&self) -> OptionsView {
        OptionsView {
            accept_all_devices: self.accept_all_devices,
            filters: self.filters@.map_values(|f: DeviceFilter| f@),
            optional_services: self.optional_services@.map_values(|s: String| s@),
            scan_timeout_ms: self.scan_timeout_ms,
        }
    }
}

/// One device filter: a device matches when every present constraint
/// holds (conjunction).
#[derive(Debug)]
pub struct DeviceFilter {
    pub services: Vec<String>,
    pub name: Option<String>,
    pub name_prefix: Option<String>,
}

/// Mathematical view of [`DeviceFilter`].
pub ghost struct FilterView {
    pub services: Seq<Seq<char>>,
    pub name: Option<Seq<char>>,
    pub name_prefix: Option<Seq<char>>,
}

impl View for DeviceFilter {
    type V = FilterView;

    open spec fn view(&self) -> FilterView {
        FilterView {
            services: self.services@.map_values(|s: String| s@),
            name: opt_str_view(self.name),
            name_prefix: opt_str_view(self.name_prefix),
        }
    }
}

/// A discovered device, derived on demand from a peripheral's
/// advertised properties.
#[derive(Debug)]
pub struct BluetoothDevice {
    pub id: String,
    pub name: Option<String>,
    pub uuids: Vec<String>,
    pub watching_advertisements: bool,
    pub connected: bool,
}

/// Mathematical view of [`BluetoothDevice`].
pub ghost struct DeviceView {
    pub id: Seq<char>,
    pub name: Option<Seq<char>>,
    pub uuids: Seq<Seq<char>>,
    pub watching_advertisements: bool,
    pub connected: bool,
}

impl View for BluetoothDevice {
    type V = DeviceView;

    open spec fn view(&self) -> DeviceView {
        DeviceView {
            id: self.id@,
            name: opt_str_view(self.name),
            uuids: self.uuids@.map_values(|s: String| s@),
            watching_advertisements: self.watching_advertisements,
            connected: self.connected,
        }
    }
}

/// Snapshot of a device's GATT server after service discovery.
#[derive(Debug)]
pub struct GattServerInfo {
    pub device_id: String,
    pub connected: bool,
    pub services: Vec<BluetoothService>,
}

/// Mathematical view of [`GattServerInfo`].
pub ghost struct ServerInfoView {
    pub device_id: Seq<char>,
    pub connected: bool,
    pub services: Seq<ServiceModelView>,
}

impl View for GattServerInfo {
    type V = ServerInfoView;

    open spec fn view(&self) -> ServerInfoView {
        ServerInfoView {
            device_id: self.device_id@,
            connected: self.connected,
            services: self.services@.map_values(|s: BluetoothService| s@),
        }
    }
}

/// A GATT service as reported to the caller.
#[derive(Debug)]
pub struct BluetoothService {
    pub uuid: String,
    pub is_primary: bool,
    pub characteristics: Vec<BluetoothCharacteristic>,
}

/// Mathematical view of [`BluetoothService`].
pub ghost struct ServiceModelView {
    pub uuid: Seq<char>,
    pub is_primary: bool,
    pub characteristics: Seq<CharacteristicModelView>,
}

impl View for BluetoothService {
    type V = ServiceModelView;

    open spec fn view(&self) -> ServiceModelView {
        ServiceModelView {
            uuid: self.uuid@,
            is_primary: self.is_primary,
            characteristics: self.characteristics@.map_values(
                |c: BluetoothCharacteristic| c@,
            ),
        }
    }
}

/// A GATT characteristic as reported to the caller.
#[derive(Debug)]
pub struct BluetoothCharacteristic {
    pub uuid: String,
    pub properties: CharacteristicProperties,
    pub descriptors: Vec<BluetoothDescriptor>,
}

/// Mathematical view of [`BluetoothCharacteristic`].
pub ghost struct CharacteristicModelView {
    pub uuid: Seq<char>,
    pub properties: CharacteristicProperties,
    pub descriptors: Seq<Seq<char>>,
}

impl View for BluetoothCharacteristic {
    type V = CharacteristicModelView;

    open spec fn view(&self) -> CharacteristicModelView {
        CharacteristicModelView {
            uuid: self.uuid@,
            properties: self.properties,
            descriptors: self.descriptors@.map_values(|d: BluetoothDescriptor| d.uuid@),
        }
    }
}

/// Property flags of a characteristic.
#[derive(Debug, Clone, Copy, PartialEq, Eq, Structural)]
pub struct CharacteristicProperties {
    pub broadcast: bool,
    pub read: bool,
    pub write_without_response: bool,
    pub write: bool,
    pub notify: bool,
    pub indicate: bool,
    pub authenticated_signed_writes: bool,
    pub reliable_write: bool,
    pub writable_auxiliaries: bool,
}

/// A GATT descriptor as reported to the caller.
#[derive(Debug)]
pub struct BluetoothDescriptor {
    pub uuid: String,
}

/// Names one cached or discoverable device.
#[derive(Debug)]
pub struct DeviceRequest {
    pub device_id: String,
}

/// Names a device and optionally narrows to one service.
#[derive(Debug)]
pub struct ServiceRequest {
    pub device_id: String,
    pub service_uuid: Option<String>,
}

/// Names a service and optionally narrows to one characteristic.
#[derive(Debug)]
pub struct CharacteristicsRequest {
    pub device_id: String,
    pub service_uuid: String,
    pub characteristic_uuid: Option<String>,
}

/// Names one descriptor of a characteristic.
#[derive(Debug)]
pub struct DescriptorRequest {
    pub device_id: String,
    pub service_uuid: String,
    pub characteristic_uuid: String,
    pub descriptor_uuid: String,
}

/// Names the characteristic to read.
#[derive(Debug)]
pub struct ReadValueRequest {
    pub device_id: String,
    pub service_uuid: String,
    pub characteristic_uuid: String,
}

/// Names the characteristic to write and carries the payload.
#[derive(Debug)]
pub struct WriteValueRequest {
    pub device_id: String,
    pub service_uuid: String,
    pub characteristic_uuid: String,
    /// base64 encoded payload
    pub value: String,
    pub with_response: bool,
}

/// Names the characteristic whose notifications to start or stop.
#[derive(Debug)]
pub struct NotificationRequest {
    pub device_id: String,
    pub service_uuid: String,
    pub characteristic_uuid: String,
}

/// A characteristic value.
#[derive(Debug)]
pub struct BluetoothValue {
    /// base64 encoded value
    pub value: String,
}

/// Payload of a characteristic value-changed event.
#[derive(Debug)]
pub struct NotificationEventPayload {
    pub device_id: String,
    pub service_uuid: String,
    pub characteristic_uuid: String,
    pub value: String,
}

/// Payload of a GATT-server-disconnected event.
#[derive(Debug)]
pub struct DeviceEventPayload {
    pub device_id: String,
}

/// Copies a vector of strings, element for element.
pub fn clone_string_vec(v: &Vec<String>) -> (r: Vec<String>)
    ensures
        r@.len() == v@.len(),
        forall|i: int| 0 <= i < v@.len() ==> r@[i]@ == #[trigger] v@[i]@,
{
    let mut r: Vec<String> = Vec::new();
    let mut i: usize = 0;
    while i < v.len()
        invariant
            i <= v.len(),
            r@.len() == i,
            forall|j: int| 0 <= j < i ==> r@[j]@ == #[trigger] v@[j]@,
        decreases v.len() - i,
    {
        r.push(v[i].clone());
        i = i + 1;
    }
    r
}

/// Copies an optional string.
pub fn clone_opt_string(v: &Option<String>) -> (r: Option<String>)
    ensures
        opt_str_view(r) == opt_str_view(*v),
{
    match v {
        Some(s) => Some(s.clone()),
        None => None,
    }
}

impl Clone for BluetoothDevice {
    /// The copy describes the same device: the views are equal.
    fn clone(&self) -> (r: Self)
        ensures
            r@ == self@,
    {
        let r = BluetoothDevice {
            id: self.id.clone(),
            name: clone_opt_string(&self.name),
            uuids: clone_string_vec(&self.uuids),
            watching_advertisements: self.watching_advertisements,
            connected: self.connected,
        };
        proof {
            assert(r@.uuids =~= self@.uuids);
        }
        r
    }
}

} // verus!
