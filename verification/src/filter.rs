//! Device-filter matching and request-option validation.
//!
//! A device matches one filter when every constraint the filter
//! carries holds: exact name (case-sensitive), name prefix, and the
//! advertised-service subset test. A request matches a device when
//! `accept_all_devices` is set or any one of its filters matches.

use vstd::prelude::*;

use crate::error::Error;
use crate::models::{
    clone_opt_string, BluetoothDevice, DeviceFilter, DeviceView, FilterView, RequestDeviceOptions,
};
use crate::text::{is_prefix_of, str_starts_with};
use crate::uuid_norm::{
    canon_uuid, canonicalize_uuid, is_canonical_uuid, lemma_normalize_uuid_idempotent,
    normalize_uuid, normalize_uuid_spec,
};

verus! {

/// Whether the exact-name constraint of `f` holds against a device
/// name. A device without a name never meets a present constraint.
pub open spec fn name_constraint_ok(f: FilterView, name: Option<Seq<char>>) -> bool {
    match f.name {
        Some(n) => name == Some(n),
        None => true,
    }
}

/// Whether the name-prefix constraint of `f` holds against a device
/// name.
pub open spec fn prefix_constraint_ok(f: FilterView, name: Option<Seq<char>>) -> bool {
    match f.name_prefix {
        Some(p) => match name {
            Some(n) => is_prefix_of(p, n),
            None => false,
        },
        None => true,
    }
}

/// Whether the advertised UUID set contains `target` (compared in
/// canonical form; `target` is expected canonical).
pub open spec fn advertises_service(uuids: Seq<Seq<char>>, target: Seq<char>) -> bool {
    exists|j: int| 0 <= j < uuids.len() && canon_uuid(#[trigger] uuids[j]) == target
}

/// Whether every service the filter requires is advertised (subset
/// test, not set equality).
pub open spec fn services_constraint_ok(f: FilterView, uuids: Seq<Seq<char>>) -> bool {
    forall|i: int| 0 <= i < f.services.len() ==> advertises_service(uuids, #[trigger] f.services[i])
}

/// Whether a device matches one filter: the conjunction of its
/// present constraints.
pub open spec fn filter_matches(f: FilterView, d: DeviceView) -> bool {
    &&& name_constraint_ok(f, d.name)
    &&& prefix_constraint_ok(f, d.name)
    &&& services_constraint_ok(f, d.uuids)
}

/// Mathematical view of [`NormalizedRequestDeviceOptions`].
pub ghost struct NormOptionsView {
    pub accept_all_devices: bool,
    pub filters: Seq<FilterView>,
    pub scan_timeout_ms: u64,
}

/// Whether a device matches the validated request options: accept-all,
/// or any one filter (disjunction across filters).
pub open spec fn options_match(o: NormOptionsView, d: DeviceView) -> bool {
    o.accept_all_devices || exists|i: int|
        0 <= i < o.filters.len() && filter_matches(#[trigger] o.filters[i], d)
}

/// A filter whose service UUIDs have been normalized.
#[derive(Debug)]
pub struct NormalizedDeviceFilter {
    pub services: Vec<String>,
    pub name: Option<String>,
    pub name_prefix: Option<String>,
}

impl View for NormalizedDeviceFilter {
    type V = FilterView;

    open spec fn view(&self) -> FilterView {
        FilterView {
            services: self.services@.map_values(|s: String| s@),
            name: crate::models::opt_str_view(self.name),
            name_prefix: crate::models::opt_str_view(self.name_prefix),
        }
    }
}

impl NormalizedDeviceFilter {
    /// Every stored service UUID is in canonical form.
    pub open spec fn wf(&self) -> bool {
        forall|i: int|
            0 <= i < self@.services.len() ==> is_canonical_uuid(#[trigger] self@.services[i])
    }
}

/// Validated request options: the §3 shape invariant holds, every
/// filter service UUID is canonical, and the timeout is at least 1 ms.
#[derive(Debug)]
pub struct NormalizedRequestDeviceOptions {
    pub accept_all_devices: bool,
    pub filters: Vec<NormalizedDeviceFilter>,
    pub scan_timeout_ms: u64,
}

impl View for NormalizedRequestDeviceOptions {
    type V = NormOptionsView;

    open spec fn view(&self) -> NormOptionsView {
        NormOptionsView {
            accept_all_devices: self.accept_all_devices,
            filters: self.filters@.map_values(|f: NormalizedDeviceFilter| f@),
            scan_timeout_ms: self.scan_timeout_ms,
        }
    }
}

impl NormalizedRequestDeviceOptions {
    /// The validation invariant.
    pub open spec fn wf(&self) -> bool {
        &&& self.accept_all_devices || self@.filters.len() > 0
        &&& self.scan_timeout_ms >= 1
        &&& forall|i: int|
            0 <= i < self.filters@.len() ==> (#[trigger] self.filters@[i]).wf()
    }
}

/// Whether the raw options pass the shape check: accept-all, or at
/// least one filter.
pub open spec fn options_shape_valid(accept_all_devices: bool, filter_count: nat) -> bool {
    accept_all_devices || filter_count > 0
}

/// Whether every service token of the filter is a valid UUID form.
pub open spec fn filter_uuids_valid(f: FilterView) -> bool {
    forall|i: int|
        0 <= i < f.services.len() ==> normalize_uuid_spec(#[trigger] f.services[i]) is Some
}

/// The view of a filter after normalizing its service tokens.
pub open spec fn normalize_filter_view(f: FilterView) -> FilterView {
    FilterView {
        services: f.services.map_values(|s: Seq<char>| canon_uuid(s)),
        name: f.name,
        name_prefix: f.name_prefix,
    }
}

/// The effective scan timeout: at least one millisecond.
pub open spec fn clamp_timeout_ms(t: u64) -> u64 {
    if t == 0 {
        1
    } else {
        t
    }
}

/// Whether the device advertises the (canonical) target UUID.
pub fn device_advertises(uuids: &Vec<String>, target: &String) -> (r: bool)
    ensures
        r == advertises_service(uuids@.map_values(|s: String| s@), target@),
{
    let ghost vs = uuids@.map_values(|s: String| s@);
    let mut j: usize = 0;
    while j < uuids.len()
        invariant
            j <= uuids.len(),
            vs == uuids@.map_values(|s: String| s@),
            forall|k: int| 0 <= k < j ==> canon_uuid(#[trigger] vs[k]) != target@,
        decreases uuids.len() - j,
    {
        let c = canonicalize_uuid(uuids[j].as_str());
        if c == *target {
            assert(canon_uuid(vs[j as int]) == target@);
            return true;
        }
        j = j + 1;
    }
    false
}

impl NormalizedDeviceFilter {
    /// Whether the device meets every constraint this filter carries.
    pub fn matches(&self, device: &BluetoothDevice) -> (r: bool)
        ensures
            r == filter_matches(self@, device@),
    {
        match &self.name {
            Some(n) => {
                match &device.name {
                    Some(dn) => {
                        if !(*n == *dn) {
                            assert(!name_constraint_ok(self@, device@.name));
                            return false;
                        }
                    },
                    None => {
                        return false;
                    },
                }
            },
            None => {},
        }
        match &self.name_prefix {
            Some(p) => {
                match &device.name {
                    Some(dn) => {
                        if !str_starts_with(dn.as_str(), p.as_str()) {
                            return false;
                        }
                    },
                    None => {
                        return false;
                    },
                }
            },
            None => {},
        }
        let ghost fs = self@.services;
        let mut i: usize = 0;
        while i < self.services.len()
            invariant
                i <= self.services.len(),
                fs == self@.services,
                fs.len() == self.services@.len(),
                forall|k: int|
                    0 <= k < i ==> advertises_service(device@.uuids, #[trigger] fs[k]),
            decreases self.services.len() - i,
        {
            if !device_advertises(&device.uuids, &self.services[i]) {
                assert(!advertises_service(device@.uuids, fs[i as int]));
                return false;
            }
            i = i + 1;
        }
        true
    }
}

impl NormalizedRequestDeviceOptions {
    /// Whether the device matches these options: accept-all, or any
    /// one filter.
    pub fn matches(&self, device: &BluetoothDevice) -> (r: bool)
        ensures
            r == options_match(self@, device@),
    {
        if self.accept_all_devices {
            return true;
        }
        let ghost fs = self@.filters;
        let mut i: usize = 0;
        while i < self.filters.len()
            invariant
                i <= self.filters.len(),
                fs == self@.filters,
                fs.len() == self.filters@.len(),
                forall|k: int| 0 <= k < i ==> !filter_matches(#[trigger] fs[k], device@),
            decreases self.filters.len() - i,
        {
            if self.filters[i].matches(device) {
                assert(filter_matches(fs[i as int], device@));
                return true;
            }
            i = i + 1;
        }
        false
    }
}

/// Normalizes one filter: every service token must be a valid UUID.
fn normalize_filter(filter: &DeviceFilter) -> (r: Result<NormalizedDeviceFilter, Error>)
    ensures
        match r {
            Ok(n) => {
                &&& filter_uuids_valid(filter@)
                &&& n@ == normalize_filter_view(filter@)
                &&& n.wf()
            },
            Err(e) => {
                &&& e matches Error::InvalidUuid(u) && normalize_uuid_spec(u@) is None
                &&& exists|i: int|
                    0 <= i < filter@.services.len() && #[trigger] filter@.services[i]
                        == (e->InvalidUuid_0)@
            },
        },
{
    let ghost fs = filter@.services;
    let mut services: Vec<String> = Vec::new();
    let mut i: usize = 0;
    while i < filter.services.len()
        invariant
            i <= filter.services.len(),
            fs == filter@.services,
            fs.len() == filter.services@.len(),
            services@.len() == i,
            forall|k: int| 0 <= k < i ==> normalize_uuid_spec(#[trigger] fs[k]) is Some,
            forall|k: int|
                0 <= k < i ==> (#[trigger] services@[k])@ == canon_uuid(fs[k]),
            forall|k: int| 0 <= k < i ==> is_canonical_uuid((#[trigger] services@[k])@),
        decreases filter.services.len() - i,
    {
        match normalize_uuid(filter.services[i].as_str()) {
            Ok(c) => {
                proof {
                    lemma_normalize_uuid_idempotent(fs[i as int]);
                }
                services.push(c);
            },
            Err(e) => {
                assert(fs[i as int] == filter.services@[i as int]@);
                return Err(e);
            },
        }
        i = i + 1;
    }
    let n = NormalizedDeviceFilter {
        services,
        name: clone_opt_string(&filter.name),
        name_prefix: clone_opt_string(&filter.name_prefix),
    };
    proof {
        assert(n@.services =~= normalize_filter_view(filter@).services);
    }
    Ok(n)
}

/// Validates request options before any scanning starts.
///
/// Fails with [`Error::InvalidRequest`] when `accept_all_devices` is
/// false and no filter is given; with [`Error::InvalidUuid`] when a
/// filter names a malformed service UUID. On success the result
/// carries the same constraints with canonical service UUIDs and a
/// timeout of at least one millisecond.
pub fn validate_request_device_options(options: &RequestDeviceOptions) -> (r: Result<
    NormalizedRequestDeviceOptions,
    Error,
>)
    ensures
        match r {
            Ok(n) => {
                &&& options_shape_valid(options.accept_all_devices, options@.filters.len())
                &&& forall|i: int|
                    0 <= i < options@.filters.len() ==> filter_uuids_valid(
                        #[trigger] options@.filters[i],
                    )
                &&& n.accept_all_devices == options.accept_all_devices
                &&& n@.filters.len() == options@.filters.len()
                &&& forall|i: int|
                    0 <= i < options@.filters.len() ==> #[trigger] n@.filters[i]
                        == normalize_filter_view(options@.filters[i])
                &&& n.scan_timeout_ms == clamp_timeout_ms(options.scan_timeout_ms)
                &&& n.wf()
            },
            Err(e) => {
                &&& (e matches Error::InvalidRequest(m) ==> {
                    &&& !options_shape_valid(options.accept_all_devices, options@.filters.len())
                    &&& m@ == "Either acceptAllDevices must be true or filters must be provided"@
                })
                &&& (e matches Error::InvalidUuid(u) ==> {
                    &&& options_shape_valid(options.accept_all_devices, options@.filters.len())
                    &&& normalize_uuid_spec(u@) is None
                    &&& exists|i: int, j: int|
                        0 <= i < options@.filters.len() && 0 <= j
                            < options@.filters[i].services.len()
                            && #[trigger] options@.filters[i].services[j] == u@
                })
                &&& (e matches Error::InvalidRequest(m) || e matches Error::InvalidUuid(u))
            },
        },
{
    if !options.accept_all_devices && options.filters.len() == 0 {
        return Err(
            Error::InvalidRequest(
                String::from_str("Either acceptAllDevices must be true or filters must be provided"),
            ),
        );
    }
    let ghost ofs = options@.filters;
    let mut filters: Vec<NormalizedDeviceFilter> = Vec::new();
    let mut i: usize = 0;
    while i < options.filters.len()
        invariant
            i <= options.filters.len(),
            ofs == options@.filters,
            ofs.len() == options.filters@.len(),
            filters@.len() == i,
            forall|k: int| 0 <= k < i ==> filter_uuids_valid(#[trigger] ofs[k]),
            forall|k: int|
                0 <= k < i ==> (#[trigger] filters@[k])@ == normalize_filter_view(ofs[k]),
            forall|k: int| 0 <= k < i ==> (#[trigger] filters@[k]).wf(),
        decreases options.filters.len() - i,
    {
        match normalize_filter(&options.filters[i]) {
            Ok(n) => {
                filters.push(n);
            },
            Err(e) => {
                assert(ofs[i as int] == options.filters@[i as int]@);
                return Err(e);
            },
        }
        i = i + 1;
    }
    let timeout: u64 = if options.scan_timeout_ms == 0 {
        1
    } else {
        options.scan_timeout_ms
    };
    let n = NormalizedRequestDeviceOptions {
        accept_all_devices: options.accept_all_devices,
        filters,
        scan_timeout_ms: timeout,
    };
    proof {
        assert(n@.filters.len() == options@.filters.len());
    }
    Ok(n)
}

/// Law: a filter matches exactly when each of its present constraints
/// individually holds against the device (conjunction); and a request
/// with `acceptAllDevices` set matches every device, whatever its
/// filters say.
pub proof fn lemma_filter_match_is_conjunction(f: FilterView, d: DeviceView)
    ensures
        filter_matches(f, d) <==> (name_constraint_ok(f, d.name) && prefix_constraint_ok(f, d.name)
            && services_constraint_ok(f, d.uuids)),
{
}

/// Law: with `acceptAllDevices` set, every device matches, regardless
/// of the filter list.
pub proof fn lemma_accept_all_matches(o: NormOptionsView, d: DeviceView)
    requires
        o.accept_all_devices,
    ensures
        options_match(o, d),
{
}

} // verus!
