//! The session manager: the shared state behind every operation.
//!
//! One value owns the peripheral cache and the notification task
//! registry, with the selection strategy chosen at construction. The
//! embedding application guards it with its locks and drives the
//! adapter; every state transition — caching a selected or looked-up
//! peripheral, forgetting one, pruning the registry on a disconnect —
//! is decided here.

use vstd::prelude::*;

use crate::cache::{cache_has_id, cache_index_of, CacheEntry, PeripheralCache};
use crate::error::Error;
use crate::models::{DeviceEventPayload, DeviceRequest, PingRequest, PingResponse};
use crate::registry::{
    registry_device_tasks, registry_has_device, registry_without_device, NotificationRegistry,
};
use crate::selection::SelectionStrategy;

verus! {

/// The session state: cached peripherals, active notification tasks,
/// and the selection strategy.
pub struct WebBluetooth<P, H> {
    pub peripherals: PeripheralCache<P>,
    pub notification_tasks: NotificationRegistry<H>,
    pub selection: SelectionStrategy,
}

impl<P, H> WebBluetooth<P, H> {
    /// The session invariant: cache and registry are well-formed.
    pub open spec fn wf(&self) -> bool {
        &&& self.peripherals.wf()
        &&& self.notification_tasks.wf()
    }

    /// A fresh session with no known devices and no active
    /// notifications.
    pub fn new(selection: SelectionStrategy) -> (r: WebBluetooth<P, H>)
        ensures
            r.wf(),
            r.peripherals.entries@.len() == 0,
            r.notification_tasks.entries@.len() == 0,
            r.selection == selection,
    {
        WebBluetooth {
            peripherals: PeripheralCache::new(),
            notification_tasks: NotificationRegistry::new(),
            selection,
        }
    }

    /// Echoes the ping payload back.
    pub fn ping(&self, payload: PingRequest) -> (r: PingResponse)
        ensures
            crate::models::opt_str_view(r.value) == crate::models::opt_str_view(payload.value),
    {
        PingResponse { value: payload.value }
    }

    /// Caches a peripheral under its device id — the selected device
    /// of a discovery, or one found by enumeration. Last writer wins:
    /// an entry already cached under the id is replaced by the given
    /// handle, every other entry is untouched, and the notification
    /// registry does not change.
    pub fn admit_peripheral(&mut self, device_id: String, handle: P)
        requires
            old(self).wf(),
        ensures
            final(self).wf(),
            cache_has_id(final(self).peripherals.entries@, device_id@),
            if cache_has_id(old(self).peripherals.entries@, device_id@) {
                {
                    let w = cache_index_of(old(self).peripherals.entries@, device_id@);
                    &&& final(self).peripherals.entries@.len() == old(self).peripherals.entries@.len()
                    &&& final(self).peripherals.entries@[w].id@ == device_id@
                    &&& final(self).peripherals.entries@[w].handle == handle
                    &&& forall|k: int|
                        0 <= k < old(self).peripherals.entries@.len() && k != w ==> final(self).peripherals.entries@[k] == old(self).peripherals.entries@[k]
                }
            } else {
                {
                    &&& final(self).peripherals.entries@.len() == old(self).peripherals.entries@.len() + 1
                    &&& final(self).peripherals.entries@[old(self).peripherals.entries@.len() as int].id@ == device_id@
                    &&& final(self).peripherals.entries@[old(self).peripherals.entries@.len() as int].handle == handle
                    &&& forall|k: int|
                        0 <= k < old(self).peripherals.entries@.len() ==> final(self).peripherals.entries@[k] == old(self).peripherals.entries@[k]
                }
            },
            final(self).notification_tasks == old(self).notification_tasks,
            final(self).selection == old(self).selection,
    {
        self.peripherals.insert(device_id, handle);
    }

    /// Forgets a device: drops its cache entry, if any, and returns
    /// the dropped handle, leaving every other cache entry as it was.
    /// Forgetting does not require disconnecting first, does not touch
    /// notification tasks, and an unknown id is a no-op.
    pub fn forget_device(&mut self, request: &DeviceRequest) -> (r: Option<P>)
        requires
            old(self).wf(),
        ensures
            final(self).wf(),
            !cache_has_id(final(self).peripherals.entries@, request.device_id@),
            match r {
                Some(p) => {
                    &&& cache_has_id(old(self).peripherals.entries@, request.device_id@)
                    &&& p == old(self).peripherals.entries@[cache_index_of(
                        old(self).peripherals.entries@,
                        request.device_id@,
                    )].handle
                    &&& final(self).peripherals.entries@ == old(self).peripherals.entries@.remove(
                        cache_index_of(old(self).peripherals.entries@, request.device_id@),
                    )
                },
                None => {
                    &&& !cache_has_id(old(self).peripherals.entries@, request.device_id@)
                    &&& final(self).peripherals.entries@ == old(self).peripherals.entries@
                },
            },
            final(self).notification_tasks == old(self).notification_tasks,
            final(self).selection == old(self).selection,
    {
        self.peripherals.remove(&request.device_id)
    }

    /// Reacts to a disconnect notice for one device: removes every
    /// notification task of that device — tasks of other devices stay
    /// — and yields exactly the removed entries' tasks to abort, in
    /// order, together with the disconnect notice to emit, exactly
    /// one, carrying the device id. The cache keeps the peripheral: a
    /// cached handle may represent a disconnected device.
    pub fn handle_disconnect(&mut self, device_id: &String) -> (r: (Vec<H>, DeviceEventPayload))
        requires
            old(self).wf(),
        ensures
            final(self).wf(),
            final(self).notification_tasks.entries@ == registry_without_device(
                old(self).notification_tasks.entries@,
                device_id@,
            ),
            r.0@ == registry_device_tasks(old(self).notification_tasks.entries@, device_id@),
            !registry_has_device(final(self).notification_tasks.entries@, device_id@),
            r.0@.len() + final(self).notification_tasks.entries@.len() == old(self).notification_tasks.entries@.len(),
            r.1.device_id@ == device_id@,
            final(self).peripherals == old(self).peripherals,
            final(self).selection == old(self).selection,
    {
        let tasks = self.notification_tasks.clear_for_device(device_id);
        let payload = DeviceEventPayload { device_id: device_id.clone() };
        (tasks, payload)
    }
}

/// Picks, from an adapter enumeration, the first peripheral carrying
/// the requested device id.
///
/// Fails with [`Error::DeviceNotFound`], carrying the id, exactly
/// when no enumerated peripheral has it.
pub fn locate_peripheral<P>(candidates: Vec<CacheEntry<P>>, device_id: &String) -> (r: Result<
    P,
    Error,
>)
    ensures
        match r {
            Ok(p) => exists|i: int|
                0 <= i < candidates@.len() && (#[trigger] candidates@[i]).id@ == device_id@
                    && p == candidates@[i].handle && (forall|k: int|
                    0 <= k < i ==> (#[trigger] candidates@[k]).id@ != device_id@),
            Err(e) => {
                &&& !cache_has_id(candidates@, device_id@)
                &&& e matches Error::DeviceNotFound(u) && u@ == device_id@
            },
        },
{
    let ghost orig = candidates@;
    let mut rest = candidates;
    while rest.len() > 0
        invariant
            orig == candidates@,
            forall|k: int|
                0 <= k < orig.len() - rest@.len() ==> (#[trigger] orig[k]).id@ != device_id@,
            rest@.len() <= orig.len(),
            orig.skip(orig.len() - rest@.len()) == rest@,
        decreases rest@.len(),
    {
        let ghost done = orig.len() - rest@.len();
        let entry = rest.remove(0);
        proof {
            assert(orig.skip(done)[0] == entry);
            assert(orig[done] == entry);
            assert(orig.skip(done + 1) =~= rest@);
        }
        if entry.id == *device_id {
            proof {
                assert(orig[done].id@ == device_id@);
                assert((#[trigger] orig[done]).id@ == device_id@ && entry.handle
                    == orig[done].handle && (forall|k: int|
                    0 <= k < done ==> (#[trigger] orig[k]).id@ != device_id@));
            }
            return Ok(entry.handle);
        }
    }
    proof {
        assert forall|k: int| 0 <= k < orig.len() implies (#[trigger] orig[k]).id@
            != device_id@ by {
        }
    }
    Err(Error::DeviceNotFound(device_id.clone()))
}


/// Picks the adapter a session is built on: the first one.
///
/// Fails with [`Error::NoAdapter`] exactly when the radio enumeration
/// is empty — fatal to session construction.
pub fn adapter_index_for(adapter_count: usize) -> (r: Result<usize, Error>)
    ensures
        match r {
            Ok(i) => adapter_count > 0 && i == 0,
            Err(e) => adapter_count == 0 && e == Error::NoAdapter,
        },
{
    if adapter_count == 0 {
        Err(Error::NoAdapter)
    } else {
        Ok(0)
    }
}

/// Whether the session's adapter is still present in a fresh
/// enumeration of `adapter_count` radios.
pub fn adapter_available(adapter_count: usize, adapter_index: usize) -> (r: bool)
    ensures
        r == (adapter_index < adapter_count),
{
    adapter_index < adapter_count
}

} // verus!
