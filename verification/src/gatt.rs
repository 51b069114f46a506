//! GATT service and characteristic resolution.
//!
//! The adapter reports a device's services as plain values: UUID
//! strings, a property bitmask, descriptor UUID strings. This module
//! turns them into the caller-facing shapes, looks characteristics up
//! by UUID — normalizing the caller's tokens first — and filters the
//! notification stream down to one characteristic.

use vstd::prelude::*;

use crate::codec::{b64_encode, encode_characteristic_value};
use crate::error::Error;
use crate::models::{
    BluetoothCharacteristic, BluetoothDescriptor, BluetoothService, CharacteristicModelView,
    CharacteristicProperties, GattServerInfo, NotificationEventPayload, ServiceModelView,
};
use crate::text::{seq_eq_ignore_ascii_case, str_eq_ignore_ascii_case};
use crate::uuid_norm::{canon_uuid, canonicalize_uuid, normalize_uuid, normalize_uuid_spec};

verus! {

/// Characteristic property bit: broadcast.
pub const PROP_BROADCAST: u8 = 0x01;

/// Characteristic property bit: read.
pub const PROP_READ: u8 = 0x02;

/// Characteristic property bit: write without response.
pub const PROP_WRITE_WITHOUT_RESPONSE: u8 = 0x04;

/// Characteristic property bit: write.
pub const PROP_WRITE: u8 = 0x08;

/// Characteristic property bit: notify.
pub const PROP_NOTIFY: u8 = 0x10;

/// Characteristic property bit: indicate.
pub const PROP_INDICATE: u8 = 0x20;

/// Characteristic property bit: authenticated signed writes.
pub const PROP_AUTHENTICATED_SIGNED_WRITES: u8 = 0x40;

/// A characteristic as the adapter reports it: UUID, property
/// bitmask, descriptor UUIDs.
#[derive(Debug)]
pub struct GattCharacteristic {
    pub uuid: String,
    pub properties: u8,
    pub descriptors: Vec<String>,
}

/// Mathematical view of [`GattCharacteristic`].
pub ghost struct GattCharacteristicView {
    pub uuid: Seq<char>,
    pub properties: u8,
    pub descriptors: Seq<Seq<char>>,
}

impl View for GattCharacteristic {
    type V = GattCharacteristicView;

    open spec fn view(&self) -> GattCharacteristicView {
        GattCharacteristicView {
            uuid: self.uuid@,
            properties: self.properties,
            descriptors: self.descriptors@.map_values(|s: String| s@),
        }
    }
}

/// A service as the adapter reports it.
#[derive(Debug)]
pub struct GattService {
    pub uuid: String,
    pub primary: bool,
    pub characteristics: Vec<GattCharacteristic>,
}

/// Mathematical view of [`GattService`].
pub ghost struct GattServiceView {
    pub uuid: Seq<char>,
    pub primary: bool,
    pub characteristics: Seq<GattCharacteristicView>,
}

impl View for GattService {
    type V = GattServiceView;

    open spec fn view(&self) -> GattServiceView {
        GattServiceView {
            uuid: self.uuid@,
            primary: self.primary,
            characteristics: self.characteristics@.map_values(|c: GattCharacteristic| c@),
        }
    }
}

/// The property flags a bitmask decodes to. The two flags the
/// transport never reports stay false.
pub open spec fn properties_of_mask(mask: u8) -> CharacteristicProperties {
    CharacteristicProperties {
        broadcast: mask & PROP_BROADCAST != 0,
        read: mask & PROP_READ != 0,
        write_without_response: mask & PROP_WRITE_WITHOUT_RESPONSE != 0,
        write: mask & PROP_WRITE != 0,
        notify: mask & PROP_NOTIFY != 0,
        indicate: mask & PROP_INDICATE != 0,
        authenticated_signed_writes: mask & PROP_AUTHENTICATED_SIGNED_WRITES != 0,
        reliable_write: false,
        writable_auxiliaries: false,
    }
}

/// The caller-facing view of one characteristic: canonical UUIDs and
/// decoded property flags.
pub open spec fn characteristic_model_view(c: GattCharacteristicView) -> CharacteristicModelView {
    CharacteristicModelView {
        uuid: canon_uuid(c.uuid),
        properties: properties_of_mask(c.properties),
        descriptors: c.descriptors.map_values(|d: Seq<char>| canon_uuid(d)),
    }
}

/// The caller-facing view of one service.
pub open spec fn service_model_view(s: GattServiceView) -> ServiceModelView {
    ServiceModelView {
        uuid: canon_uuid(s.uuid),
        is_primary: s.primary,
        characteristics: s.characteristics.map_values(
            |c: GattCharacteristicView| characteristic_model_view(c),
        ),
    }
}

/// Converts one reported characteristic into its caller-facing shape.
pub fn characteristic_to_model(c: &GattCharacteristic) -> (r: BluetoothCharacteristic)
    ensures
        r@ == characteristic_model_view(c@),
{
    let mut descriptors: Vec<BluetoothDescriptor> = Vec::new();
    let mut i: usize = 0;
    while i < c.descriptors.len()
        invariant
            i <= c.descriptors@.len(),
            descriptors@.len() == i,
            forall|k: int|
                0 <= k < i ==> (#[trigger] descriptors@[k]).uuid@ == canon_uuid(
                    c.descriptors@[k]@,
                ),
        decreases c.descriptors@.len() - i,
    {
        descriptors.push(BluetoothDescriptor { uuid: canonicalize_uuid(c.descriptors[i].as_str()) });
        i = i + 1;
    }
    let r = BluetoothCharacteristic {
        uuid: canonicalize_uuid(c.uuid.as_str()),
        properties: CharacteristicProperties {
            broadcast: c.properties & PROP_BROADCAST != 0,
            read: c.properties & PROP_READ != 0,
            write_without_response: c.properties & PROP_WRITE_WITHOUT_RESPONSE != 0,
            write: c.properties & PROP_WRITE != 0,
            notify: c.properties & PROP_NOTIFY != 0,
            indicate: c.properties & PROP_INDICATE != 0,
            authenticated_signed_writes: c.properties & PROP_AUTHENTICATED_SIGNED_WRITES != 0,
            reliable_write: false,
            writable_auxiliaries: false,
        },
        descriptors,
    };
    proof {
        assert(r@.descriptors =~= characteristic_model_view(c@).descriptors);
    }
    r
}

/// Converts one reported service into its caller-facing shape.
pub fn service_to_model(s: &GattService) -> (r: BluetoothService)
    ensures
        r@ == service_model_view(s@),
{
    let mut characteristics: Vec<BluetoothCharacteristic> = Vec::new();
    let mut i: usize = 0;
    while i < s.characteristics.len()
        invariant
            i <= s.characteristics@.len(),
            characteristics@.len() == i,
            forall|k: int|
                0 <= k < i ==> (#[trigger] characteristics@[k])@ == characteristic_model_view(
                    s.characteristics@[k]@,
                ),
        decreases s.characteristics@.len() - i,
    {
        characteristics.push(characteristic_to_model(&s.characteristics[i]));
        i = i + 1;
    }
    let r = BluetoothService {
        uuid: canonicalize_uuid(s.uuid.as_str()),
        is_primary: s.primary,
        characteristics,
    };
    proof {
        assert(r@.characteristics =~= service_model_view(s@).characteristics);
    }
    r
}

/// Assembles the GATT server snapshot a connect call returns.
pub fn describe_gatt_server(
    device_id: &String,
    connected: bool,
    services: &Vec<GattService>,
) -> (r: GattServerInfo)
    ensures
        r@.device_id == device_id@,
        r@.connected == connected,
        r@.services.len() == services@.len(),
        forall|i: int|
            0 <= i < services@.len() ==> #[trigger] r@.services[i] == service_model_view(
                services@[i]@,
            ),
{
    let mut out: Vec<BluetoothService> = Vec::new();
    let mut i: usize = 0;
    while i < services.len()
        invariant
            i <= services@.len(),
            out@.len() == i,
            forall|k: int|
                0 <= k < i ==> (#[trigger] out@[k])@ == service_model_view(services@[k]@),
        decreases services@.len() - i,
    {
        out.push(service_to_model(&services[i]));
        i = i + 1;
    }
    GattServerInfo { device_id: device_id.clone(), connected, services: out }
}

/// Whether a service carries the (already canonicalized) target UUID.
pub open spec fn service_matches(s: GattServiceView, target_canon: Seq<char>) -> bool {
    canon_uuid(s.uuid) == target_canon
}

/// Whether a service survives the optional filter of a
/// primary-services listing: an absent filter keeps everything, a
/// present token keeps the services whose canonical UUID equals the
/// token's canonical-or-verbatim form.
pub open spec fn keep_service(s: GattServiceView, target: Option<Seq<char>>) -> bool {
    match target {
        None => true,
        Some(t) => canon_uuid(s.uuid) == canon_uuid(t),
    }
}

/// The caller-facing services that survive the optional filter, in
/// order.
pub open spec fn primary_services_view(
    services: Seq<GattServiceView>,
    target: Option<Seq<char>>,
) -> Seq<ServiceModelView>
    decreases services.len(),
{
    if services.len() == 0 {
        Seq::empty()
    } else {
        let prefix = primary_services_view(services.drop_last(), target);
        if keep_service(services.last(), target) {
            prefix.push(service_model_view(services.last()))
        } else {
            prefix
        }
    }
}

/// Lists a device's services, optionally narrowed to one UUID. An
/// unparseable filter token is kept verbatim and then matches no
/// canonical UUID.
pub fn get_primary_services(services: &Vec<GattService>, target: &Option<String>) -> (r: Vec<
    BluetoothService,
>)
    ensures
        r@.map_values(|s: BluetoothService| s@) == primary_services_view(
            services@.map_values(|s: GattService| s@),
            crate::models::opt_str_view(*target),
        ),
{
    let ghost views = services@.map_values(|s: GattService| s@);
    let ghost t = crate::models::opt_str_view(*target);
    let mut out: Vec<BluetoothService> = Vec::new();
    let mut i: usize = 0;
    while i < services.len()
        invariant
            i <= services@.len(),
            views == services@.map_values(|s: GattService| s@),
            t == crate::models::opt_str_view(*target),
            out@.map_values(|s: BluetoothService| s@) == primary_services_view(
                views.subrange(0, i as int),
                t,
            ),
        decreases services@.len() - i,
    {
        let keep = match target {
            None => true,
            Some(tok) => {
                let c = canonicalize_uuid(services[i].uuid.as_str());
                let ct = canonicalize_uuid(tok.as_str());
                c == ct
            },
        };
        proof {
            let p1 = views.subrange(0, i + 1);
            assert(p1.drop_last() =~= views.subrange(0, i as int));
            assert(p1.last() == views[i as int]);
            assert(views[i as int] == services@[i as int]@);
            assert(keep == keep_service(views[i as int], t));
        }
        if keep {
            let m = service_to_model(&services[i]);
            out.push(m);
            proof {
                assert(out@.map_values(|s: BluetoothService| s@) =~= primary_services_view(
                    views.subrange(0, i + 1),
                    t,
                ));
            }
        } else {
            proof {
                assert(out@.map_values(|s: BluetoothService| s@) =~= primary_services_view(
                    views.subrange(0, i + 1),
                    t,
                ));
            }
        }
        i = i + 1;
    }
    proof {
        assert(views.subrange(0, views.len() as int) =~= views);
    }
    out
}

/// Whether a characteristic survives the optional filter of a
/// characteristics listing: the caller's token is compared with the
/// canonical UUID, ASCII case aside.
pub open spec fn keep_characteristic(
    c: GattCharacteristicView,
    target: Option<Seq<char>>,
) -> bool {
    match target {
        None => true,
        Some(t) => seq_eq_ignore_ascii_case(canon_uuid(c.uuid), t),
    }
}

/// The caller-facing characteristics that survive the optional
/// filter, in order.
pub open spec fn characteristics_filtered(
    chars: Seq<GattCharacteristicView>,
    target: Option<Seq<char>>,
) -> Seq<CharacteristicModelView>
    decreases chars.len(),
{
    if chars.len() == 0 {
        Seq::empty()
    } else {
        let prefix = characteristics_filtered(chars.drop_last(), target);
        if keep_characteristic(chars.last(), target) {
            prefix.push(characteristic_model_view(chars.last()))
        } else {
            prefix
        }
    }
}

/// The first service matching the canonical target, if any.
fn find_service<'a>(services: &'a Vec<GattService>, target_canon: &String) -> (r: Option<(
    usize,
    &'a GattService,
)>)
    ensures
        match r {
            Some((i, s)) => {
                &&& 0 <= i < services@.len()
                &&& *s == services@[i as int]
                &&& service_matches(services@[i as int]@, target_canon@)
                &&& forall|k: int|
                    0 <= k < i ==> !service_matches(
                        (#[trigger] services@[k])@,
                        target_canon@,
                    )
            },
            None => forall|k: int|
                0 <= k < services@.len() ==> !service_matches(
                    (#[trigger] services@[k])@,
                    target_canon@,
                ),
        },
{
    let mut i: usize = 0;
    while i < services.len()
        invariant
            i <= services@.len(),
            forall|k: int|
                0 <= k < i ==> !service_matches((#[trigger] services@[k])@, target_canon@),
        decreases services@.len() - i,
    {
        let c = canonicalize_uuid(services[i].uuid.as_str());
        if c == *target_canon {
            return Some((i, &services[i]));
        }
        i = i + 1;
    }
    None
}

/// Lists the characteristics of one service of a device, optionally
/// narrowed to one characteristic UUID.
///
/// Fails with [`Error::InvalidUuid`] when the service token parses to
/// no UUID form, and with [`Error::ServiceNotFound`] — carrying the
/// device id and the token — when no service of the device has that
/// UUID.
pub fn get_characteristics(
    services: &Vec<GattService>,
    device_id: &String,
    service_uuid: &String,
    target: &Option<String>,
) -> (r: Result<Vec<BluetoothCharacteristic>, Error>)
    ensures
        match r {
            Ok(cs) => {
                &&& normalize_uuid_spec(service_uuid@) is Some
                &&& exists|i: int|
                    0 <= i < services@.len() && service_matches(
                        (#[trigger] services@[i])@,
                        canon_uuid(service_uuid@),
                    ) && cs@.map_values(|c: BluetoothCharacteristic| c@)
                        == characteristics_filtered(
                        services@[i]@.characteristics,
                        crate::models::opt_str_view(*target),
                    ) && (forall|k: int|
                        0 <= k < i ==> !service_matches(
                            (#[trigger] services@[k])@,
                            canon_uuid(service_uuid@),
                        ))
            },
            Err(e) => {
                &&& (e matches Error::InvalidUuid(u) ==> {
                    &&& u@ == service_uuid@
                    &&& normalize_uuid_spec(service_uuid@) is None
                })
                &&& (e matches Error::ServiceNotFound { device_id: d, service_uuid: s } ==> {
                    &&& normalize_uuid_spec(service_uuid@) is Some
                    &&& d@ == device_id@
                    &&& s@ == service_uuid@
                    &&& forall|k: int|
                        0 <= k < services@.len() ==> !service_matches(
                            (#[trigger] services@[k])@,
                            canon_uuid(service_uuid@),
                        )
                })
                &&& (e matches Error::InvalidUuid(u) || e matches Error::ServiceNotFound {
                    device_id: d,
                    service_uuid: s,
                })
            },
        },
{
    let target_canon = match normalize_uuid(service_uuid.as_str()) {
        Ok(c) => c,
        Err(e) => {
            return Err(e);
        },
    };
    let found = match find_service(services, &target_canon) {
        Some(pair) => pair,
        None => {
            return Err(
                Error::ServiceNotFound {
                    device_id: device_id.clone(),
                    service_uuid: service_uuid.clone(),
                },
            );
        },
    };
    let (service_index, service) = found;
    let ghost chars = service@.characteristics;
    let ghost t = crate::models::opt_str_view(*target);
    let mut out: Vec<BluetoothCharacteristic> = Vec::new();
    let mut i: usize = 0;
    while i < service.characteristics.len()
        invariant
            i <= service.characteristics@.len(),
            chars == service@.characteristics,
            chars.len() == service.characteristics@.len(),
            t == crate::models::opt_str_view(*target),
            out@.map_values(|c: BluetoothCharacteristic| c@) == characteristics_filtered(
                chars.subrange(0, i as int),
                t,
            ),
        decreases service.characteristics@.len() - i,
    {
        let keep = match target {
            None => true,
            Some(tok) => {
                let c = canonicalize_uuid(service.characteristics[i].uuid.as_str());
                str_eq_ignore_ascii_case(c.as_str(), tok.as_str())
            },
        };
        proof {
            let p1 = chars.subrange(0, i + 1);
            assert(p1.drop_last() =~= chars.subrange(0, i as int));
            assert(p1.last() == chars[i as int]);
            assert(chars[i as int] == service.characteristics@[i as int]@);
            assert(keep == keep_characteristic(chars[i as int], t));
        }
        if keep {
            out.push(characteristic_to_model(&service.characteristics[i]));
            proof {
                assert(out@.map_values(|c: BluetoothCharacteristic| c@)
                    =~= characteristics_filtered(chars.subrange(0, i + 1), t));
            }
        } else {
            proof {
                assert(out@.map_values(|c: BluetoothCharacteristic| c@)
                    =~= characteristics_filtered(chars.subrange(0, i + 1), t));
            }
        }
        i = i + 1;
    }
    proof {
        assert(chars.subrange(0, chars.len() as int) =~= chars);
        let wi = service_index as int;
        assert(0 <= wi < services@.len() && service_matches(
            (#[trigger] services@[wi])@,
            canon_uuid(service_uuid@),
        ) && out@.map_values(|c: BluetoothCharacteristic| c@) == characteristics_filtered(
            services@[wi]@.characteristics,
            crate::models::opt_str_view(*target),
        ) && (forall|k: int|
            0 <= k < wi ==> !service_matches(
                (#[trigger] services@[k])@,
                canon_uuid(service_uuid@),
            )));
    }
    Ok(out)
}

/// Whether a characteristic carries the (already canonicalized)
/// target UUID.
pub open spec fn characteristic_matches(c: GattCharacteristicView, target_canon: Seq<char>) -> bool {
    canon_uuid(c.uuid) == target_canon
}

/// Resolves a (service UUID, characteristic UUID) pair to positions in
/// the reported service list: the first matching service, and the
/// first matching characteristic within it.
///
/// Both tokens are normalized first; a malformed one fails with
/// [`Error::InvalidUuid`] (the service token is checked before the
/// characteristic token, which is only checked once the service is
/// found). A miss fails with [`Error::ServiceNotFound`] or
/// [`Error::CharacteristicNotFound`], carrying the device id and the
/// offending token.
pub fn resolve_characteristic(
    services: &Vec<GattService>,
    device_id: &String,
    service_uuid: &String,
    characteristic_uuid: &String,
) -> (r: Result<(usize, usize), Error>)
    ensures
        match r {
            Ok((i, j)) => {
                &&& normalize_uuid_spec(service_uuid@) is Some
                &&& normalize_uuid_spec(characteristic_uuid@) is Some
                &&& 0 <= i < services@.len()
                &&& service_matches(services@[i as int]@, canon_uuid(service_uuid@))
                &&& forall|k: int|
                    0 <= k < i ==> !service_matches(
                        (#[trigger] services@[k])@,
                        canon_uuid(service_uuid@),
                    )
                &&& 0 <= j < services@[i as int]@.characteristics.len()
                &&& characteristic_matches(
                    services@[i as int]@.characteristics[j as int],
                    canon_uuid(characteristic_uuid@),
                )
                &&& forall|k: int|
                    0 <= k < j ==> !characteristic_matches(
                        #[trigger] services@[i as int]@.characteristics[k],
                        canon_uuid(characteristic_uuid@),
                    )
            },
            Err(e) => {
                &&& (e matches Error::InvalidUuid(u) ==> {
                    ||| (u@ == service_uuid@ && normalize_uuid_spec(service_uuid@) is None)
                    ||| (u@ == characteristic_uuid@ && normalize_uuid_spec(service_uuid@)
                        is Some && normalize_uuid_spec(characteristic_uuid@) is None)
                })
                &&& (e matches Error::ServiceNotFound { device_id: d, service_uuid: s } ==> {
                    &&& normalize_uuid_spec(service_uuid@) is Some
                    &&& d@ == device_id@
                    &&& s@ == service_uuid@
                    &&& forall|k: int|
                        0 <= k < services@.len() ==> !service_matches(
                            (#[trigger] services@[k])@,
                            canon_uuid(service_uuid@),
                        )
                })
                &&& (e matches Error::CharacteristicNotFound {
                    device_id: d,
                    characteristic_uuid: c,
                } ==> {
                    &&& normalize_uuid_spec(service_uuid@) is Some
                    &&& normalize_uuid_spec(characteristic_uuid@) is Some
                    &&& d@ == device_id@
                    &&& c@ == characteristic_uuid@
                    &&& exists|i: int|
                        0 <= i < services@.len() && service_matches(
                            (#[trigger] services@[i])@,
                            canon_uuid(service_uuid@),
                        ) && (forall|k: int|
                            0 <= k < services@[i]@.characteristics.len()
                                ==> !characteristic_matches(
                                #[trigger] services@[i]@.characteristics[k],
                                canon_uuid(characteristic_uuid@),
                            ))
                })
                &&& (e matches Error::InvalidUuid(u) || e matches Error::ServiceNotFound {
                    device_id: d,
                    service_uuid: s,
                } || e matches Error::CharacteristicNotFound {
                    device_id: d,
                    characteristic_uuid: c,
                })
            },
        },
{
    let service_canon = match normalize_uuid(service_uuid.as_str()) {
        Ok(c) => c,
        Err(e) => {
            return Err(e);
        },
    };
    let found = match find_service(services, &service_canon) {
        Some(pair) => pair,
        None => {
            return Err(
                Error::ServiceNotFound {
                    device_id: device_id.clone(),
                    service_uuid: service_uuid.clone(),
                },
            );
        },
    };
    let (service_index, service) = found;
    let char_canon = match normalize_uuid(characteristic_uuid.as_str()) {
        Ok(c) => c,
        Err(e) => {
            return Err(e);
        },
    };
    let mut j: usize = 0;
    while j < service.characteristics.len()
        invariant
            j <= service.characteristics@.len(),
            0 <= service_index < services@.len(),
            *service == services@[service_index as int],
            service_matches(services@[service_index as int]@, canon_uuid(service_uuid@)),
            forall|k: int|
                0 <= k < service_index ==> !service_matches(
                    (#[trigger] services@[k])@,
                    canon_uuid(service_uuid@),
                ),
            normalize_uuid_spec(service_uuid@) is Some,
            normalize_uuid_spec(characteristic_uuid@) is Some,
            char_canon@ == canon_uuid(characteristic_uuid@),
            forall|k: int|
                0 <= k < j ==> !characteristic_matches(
                    (#[trigger] service.characteristics@[k])@,
                    char_canon@,
                ),
        decreases service.characteristics@.len() - j,
    {
        let c = canonicalize_uuid(service.characteristics[j].uuid.as_str());
        if c == char_canon {
            proof {
                assert(service@.characteristics[j as int]
                    == service.characteristics@[j as int]@);
                assert forall|k: int| 0 <= k < j implies !characteristic_matches(
                    #[trigger] service@.characteristics[k],
                    char_canon@,
                ) by {
                    assert(service@.characteristics[k] == service.characteristics@[k]@);
                }
            }
            return Ok((service_index, j));
        }
        j = j + 1;
    }
    proof {
        assert forall|k: int| 0 <= k < service@.characteristics.len() implies
            !characteristic_matches(
                #[trigger] service@.characteristics[k],
                char_canon@,
            ) by {
            assert(service@.characteristics[k] == service.characteristics@[k]@);
        }
    }
    Err(
        Error::CharacteristicNotFound {
            device_id: device_id.clone(),
            characteristic_uuid: characteristic_uuid.clone(),
        },
    )
}

/// Filters one received notification down to the subscribed
/// characteristic: a value for another characteristic is dropped, a
/// value for the target becomes the value-changed event payload with
/// the payload base64-encoded.
pub fn notification_event(
    device_id: &String,
    service_uuid: &String,
    characteristic_uuid: &String,
    notified_uuid: &String,
    target_uuid: &String,
    value: &Vec<u8>,
) -> (r: Option<NotificationEventPayload>)
    ensures
        match r {
            Some(p) => {
                &&& canon_uuid(notified_uuid@) == canon_uuid(target_uuid@)
                &&& p.device_id@ == device_id@
                &&& p.service_uuid@ == service_uuid@
                &&& p.characteristic_uuid@ == characteristic_uuid@
                &&& p.value@ == b64_encode(value@)
            },
            None => canon_uuid(notified_uuid@) != canon_uuid(target_uuid@),
        },
{
    let a = canonicalize_uuid(notified_uuid.as_str());
    let b = canonicalize_uuid(target_uuid.as_str());
    if a == b {
        let encoded = encode_characteristic_value(value);
        Some(
            NotificationEventPayload {
                device_id: device_id.clone(),
                service_uuid: service_uuid.clone(),
                characteristic_uuid: characteristic_uuid.clone(),
                value: encoded.value,
            },
        )
    } else {
        None
    }
}

} // verus!
