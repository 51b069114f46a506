//! Error kinds surfaced by the session manager.
//!
//! Lookup misses carry the offending identifiers; registry conflicts
//! carry the composite key they collided on.

use vstd::prelude::*;

verus! {

/// Every failure a session operation can surface to its caller.
#[derive(Debug, PartialEq, Eq)]
pub enum Error {
    /// No Bluetooth radio is present; fatal to session construction.
    NoAdapter,
    /// A transport-level failure reported by the underlying BLE stack,
    /// carried as a rendered message.
    Adapter(String),
    /// No known or discoverable peripheral has the given identifier.
    DeviceNotFound(String),
    /// The device exposes no service with the requested UUID.
    ServiceNotFound { device_id: String, service_uuid: String },
    /// The service exposes no characteristic with the requested UUID.
    CharacteristicNotFound { device_id: String, characteristic_uuid: String },
    /// The characteristic exposes no descriptor with the requested UUID.
    DescriptorNotFound { device_id: String, descriptor_uuid: String },
    /// Malformed request options, rejected before any scanning starts.
    InvalidRequest(String),
    /// A UUID token that is neither a short form nor a full 128-bit form.
    InvalidUuid(String),
    /// A characteristic value that is not canonical standard base64.
    InvalidBase64(String),
    /// The selection step resolved to no device (explicit cancel or
    /// selection timeout).
    SelectionCancelled,
    /// A notification task already owns this (device, characteristic) key.
    NotificationsAlreadyActive { device_id: String, characteristic_uuid: String },
    /// No notification task owns this (device, characteristic) key.
    NotificationsNotActive { device_id: String, characteristic_uuid: String },
    /// The running platform offers no BLE session backend.
    UnsupportedPlatform,
}

} // verus!
