//! The time-bounded discovery session.
//!
//! A `ScanSession` accumulates, across poll iterations, the devices
//! that match the validated request options, deduplicated by device
//! id with first-match-wins semantics and discovery order preserved.
//! The embedding application drives the polling clock and the adapter;
//! every decision — which devices enter the candidate set, when the
//! deadline has passed, when a streaming update is due, and how a
//! selection resolves — is made here.

use vstd::prelude::*;

use crate::error::Error;
use crate::filter::{
    clamp_timeout_ms, filter_uuids_valid, normalize_filter_view, options_match,
    options_shape_valid, NormOptionsView, NormalizedRequestDeviceOptions,
    validate_request_device_options,
};
use crate::models::{opt_str_view, BluetoothDevice, RequestDeviceOptions};
use crate::uuid_norm::{canon_uuid, canonicalize_uuid, normalize_uuid_spec};

verus! {

/// How long the scan loop rests between two polls of the adapter, in
/// milliseconds.
pub const SCAN_POLL_INTERVAL_MS: u64 = 300;

/// How often an unchanged streaming candidate list is re-announced, in
/// milliseconds.
pub const EMIT_REFRESH_INTERVAL_MS: u64 = 800;

/// One matched device together with the live peripheral handle it was
/// discovered on.
pub struct ScanEntry<P> {
    pub device: BluetoothDevice,
    pub handle: P,
}

/// Whether some entry carries the given device id.
pub open spec fn has_id<P>(entries: Seq<ScanEntry<P>>, id: Seq<char>) -> bool {
    exists|i: int| 0 <= i < entries.len() && (#[trigger] entries[i]).device@.id == id
}

/// The position of the entry carrying this device id (meaningful when
/// `has_id` holds; with unique ids it is the only one).
pub open spec fn index_of_id<P>(entries: Seq<ScanEntry<P>>, id: Seq<char>) -> int {
    choose|i: int| 0 <= i < entries.len() && (#[trigger] entries[i]).device@.id == id
}

/// Whether no two entries share a device id.
pub open spec fn ids_unique<P>(entries: Seq<ScanEntry<P>>) -> bool {
    forall|i: int, j: int|
        0 <= i < j < entries.len() ==> (#[trigger] entries[i]).device@.id != (
        #[trigger] entries[j]).device@.id
}

/// One deduplication step: a polled device enters the candidate set
/// when it matches the options and its id is new; a duplicate is
/// ignored, keeping the first-seen properties.
pub open spec fn ingest_step<P>(
    entries: Seq<ScanEntry<P>>,
    o: NormOptionsView,
    e: ScanEntry<P>,
) -> Seq<ScanEntry<P>> {
    if options_match(o, e.device@) && !has_id(entries, e.device@.id) {
        entries.push(e)
    } else {
        entries
    }
}

/// Folds one poll's devices into the candidate set, in poll order.
pub open spec fn ingest_spec<P>(
    entries: Seq<ScanEntry<P>>,
    o: NormOptionsView,
    polled: Seq<ScanEntry<P>>,
) -> Seq<ScanEntry<P>>
    decreases polled.len(),
{
    if polled.len() == 0 {
        entries
    } else {
        ingest_spec(ingest_step(entries, o, polled[0]), o, polled.drop_first())
    }
}

proof fn lemma_ingest_spec_snoc<P>(
    entries: Seq<ScanEntry<P>>,
    o: NormOptionsView,
    c: Seq<ScanEntry<P>>,
    e: ScanEntry<P>,
)
    ensures
        ingest_spec(entries, o, c.push(e)) == ingest_step(ingest_spec(entries, o, c), o, e),
    decreases c.len(),
{
    let s = c.push(e);
    if c.len() == 0 {
        assert(s[0] == e);
        assert(s.drop_first() =~= Seq::<ScanEntry<P>>::empty());
        assert(ingest_spec(entries, o, s) == ingest_spec(
            ingest_step(entries, o, s[0]),
            o,
            s.drop_first(),
        ));
        assert(ingest_spec(ingest_step(entries, o, e), o, Seq::<ScanEntry<P>>::empty())
            == ingest_step(entries, o, e));
        assert(ingest_spec(entries, o, c) == entries);
    } else {
        assert(s[0] == c[0]);
        assert(s.drop_first() =~= c.drop_first().push(e));
        assert(ingest_spec(entries, o, s) == ingest_spec(
            ingest_step(entries, o, c[0]),
            o,
            s.drop_first(),
        ));
        lemma_ingest_spec_snoc(ingest_step(entries, o, c[0]), o, c.drop_first(), e);
        assert(ingest_spec(entries, o, c) == ingest_spec(
            ingest_step(entries, o, c[0]),
            o,
            c.drop_first(),
        ));
    }
}

/// Law: deduplicated ingestion keeps ids unique, admits only devices
/// that match the options, preserves the already-accumulated prefix
/// in discovery order, and adds nothing that was not polled.
pub proof fn lemma_ingest_spec_props<P>(
    entries: Seq<ScanEntry<P>>,
    o: NormOptionsView,
    polled: Seq<ScanEntry<P>>,
)
    requires
        ids_unique(entries),
        forall|i: int|
            0 <= i < entries.len() ==> options_match(o, (#[trigger] entries[i]).device@),
    ensures
        ids_unique(ingest_spec(entries, o, polled)),
        forall|i: int|
            0 <= i < ingest_spec(entries, o, polled).len() ==> options_match(
                o,
                (#[trigger] ingest_spec(entries, o, polled)[i]).device@,
            ),
        entries.is_prefix_of(ingest_spec(entries, o, polled)),
        forall|i: int|
            entries.len() <= i < ingest_spec(entries, o, polled).len() ==> exists|j: int|
                0 <= j < polled.len() && #[trigger] ingest_spec(entries, o, polled)[i]
                    == polled[j],
    decreases polled.len(),
{
    let r = ingest_spec(entries, o, polled);
    if polled.len() == 0 {
        assert(entries.is_prefix_of(r)) by {
            assert(r.subrange(0, entries.len() as int) =~= entries);
        }
    } else {
        let e0 = polled[0];
        let next = ingest_step(entries, o, e0);
        assert(ids_unique(next)) by {
            if options_match(o, e0.device@) && !has_id(entries, e0.device@.id) {
                assert forall|i: int, j: int| 0 <= i < j < next.len() implies (
                #[trigger] next[i]).device@.id != (#[trigger] next[j]).device@.id by {
                    if j == entries.len() {
                        assert(next[i] == entries[i]);
                        assert(!has_id(entries, e0.device@.id));
                        assert(next[j] == e0);
                    }
                }
            }
        }
        lemma_ingest_spec_props(next, o, polled.drop_first());
        assert(entries.is_prefix_of(r)) by {
            assert(next.is_prefix_of(r));
            assert(entries.is_prefix_of(next)) by {
                assert(next.subrange(0, entries.len() as int) =~= entries);
            }
            assert(r.subrange(0, entries.len() as int) =~= next.subrange(
                0,
                entries.len() as int,
            ).subrange(0, entries.len() as int));
        }
        assert forall|i: int| entries.len() <= i < r.len() implies exists|j: int|
            0 <= j < polled.len() && #[trigger] r[i] == polled[j] by {
            if i < next.len() {
                assert(next[i] == e0);
                assert(next.is_prefix_of(r));
                assert(r.subrange(0, next.len() as int)[i] == next[i]);
                assert(r[i] == e0);
                assert(r[i] == polled[0]);
            } else {
                let j0 = choose|j0: int|
                    0 <= j0 < polled.drop_first().len() && r[i] == polled.drop_first()[j0];
                assert(polled.drop_first()[j0] == polled[j0 + 1]);
                assert(r[i] == polled[j0 + 1]);
            }
        }
    }
}

/// A discovery session: validated options, a wall-clock deadline, the
/// scan policy, and the deduplicated candidate set.
pub struct ScanSession<P> {
    pub options: NormalizedRequestDeviceOptions,
    pub deadline_ms: u64,
    pub full_scan: bool,
    pub entries: Vec<ScanEntry<P>>,
    pub last_emit_ms: u64,
}

impl<P> ScanSession<P> {
    /// The session invariant: the options passed validation, ids are
    /// unique, and every candidate matches the options.
    pub open spec fn wf(&self) -> bool {
        &&& self.options.wf()
        &&& ids_unique(self.entries@)
        &&& forall|i: int|
            0 <= i < self.entries@.len() ==> options_match(
                self.options@,
                (#[trigger] self.entries@[i]).device@,
            )
    }

    /// Validates the request and opens a session.
    ///
    /// Fails, before any scanning, with [`Error::InvalidRequest`] when
    /// `accept_all_devices` is false and no filter is given, and with
    /// [`Error::InvalidUuid`] when a filter names a malformed UUID; no
    /// session — and so no scan — exists on either failure.
    pub fn new(options: &RequestDeviceOptions, now_ms: u64, full_scan: bool) -> (r: Result<
        ScanSession<P>,
        Error,
    >)
        requires
            now_ms + clamp_timeout_ms(options.scan_timeout_ms) <= u64::MAX,
        ensures
            match r {
                Ok(s) => {
                    &&& s.wf()
                    &&& options_shape_valid(options.accept_all_devices, options@.filters.len())
                    &&& forall|i: int|
                        0 <= i < options@.filters.len() ==> filter_uuids_valid(
                            #[trigger] options@.filters[i],
                        )
                    &&& s.options.accept_all_devices == options.accept_all_devices
                    &&& s.options@.filters.len() == options@.filters.len()
                    &&& forall|i: int|
                        0 <= i < options@.filters.len() ==> #[trigger] s.options@.filters[i]
                            == normalize_filter_view(options@.filters[i])
                    &&& s.options.scan_timeout_ms == clamp_timeout_ms(options.scan_timeout_ms)
                    &&& s.deadline_ms == now_ms + clamp_timeout_ms(options.scan_timeout_ms)
                    &&& s.full_scan == full_scan
                    &&& s.entries@.len() == 0
                    &&& s.last_emit_ms == now_ms
                },
                Err(e) => {
                    &&& (e matches Error::InvalidRequest(m) ==> {
                        &&& !options_shape_valid(
                            options.accept_all_devices,
                            options@.filters.len(),
                        )
                        &&& m@ == "Either acceptAllDevices must be true or filters must be provided"@
                    })
                    &&& (e matches Error::InvalidUuid(u) ==> {
                        &&& options_shape_valid(
                            options.accept_all_devices,
                            options@.filters.len(),
                        )
                        &&& normalize_uuid_spec(u@) is None
                        &&& exists|i: int, j: int|
                            0 <= i < options@.filters.len() && 0 <= j
                                < options@.filters[i].services.len()
                                && #[trigger] options@.filters[i].services[j] == u@
                    })
                    &&& (e matches Error::InvalidRequest(m) || e matches Error::InvalidUuid(u))
                },
            },
    {
        let normalized = validate_request_device_options(options)?;
        let timeout = normalized.scan_timeout_ms;
        Ok(
            ScanSession {
                options: normalized,
                deadline_ms: now_ms + timeout,
                full_scan,
                entries: Vec::new(),
                last_emit_ms: now_ms,
            },
        )
    }

    /// Whether the scan deadline has passed.
    pub fn expired(&self, now_ms: u64) -> (r: bool)
        ensures
            r == (now_ms >= self.deadline_ms),
    {
        now_ms >= self.deadline_ms
    }

    /// Folds one poll's matched devices into the candidate set,
    /// deduplicating by id with first-match-wins semantics. Returns
    /// whether any new candidate appeared.
    pub fn ingest(&mut self, polled: Vec<ScanEntry<P>>) -> (updated: bool)
        requires
            old(self).wf(),
        ensures
            final(self).wf(),
            final(self).options == old(self).options,
            final(self).deadline_ms == old(self).deadline_ms,
            final(self).full_scan == old(self).full_scan,
            final(self).last_emit_ms == old(self).last_emit_ms,
            final(self).entries@ == ingest_spec(old(self).entries@, old(self).options@, polled@),
            old(self).entries@.is_prefix_of(final(self).entries@),
            updated == (final(self).entries@.len() > old(self).entries@.len()),
    {
        let ghost orig = self.entries@;
        let ghost all = polled@;
        let before = self.entries.len();
        let mut polled = polled;
        let ghost mut consumed: Seq<ScanEntry<P>> = Seq::empty();
        proof {
            assert(consumed + polled@ =~= all);
            assert(ingest_spec(orig, old(self).options@, consumed) == orig);
        }
        while polled.len() > 0
            invariant
                self.options == old(self).options,
                self.deadline_ms == old(self).deadline_ms,
                self.full_scan == old(self).full_scan,
                self.last_emit_ms == old(self).last_emit_ms,
                self.options.wf(),
                ids_unique(self.entries@),
                forall|i: int|
                    0 <= i < self.entries@.len() ==> options_match(
                        self.options@,
                        (#[trigger] self.entries@[i]).device@,
                    ),
                consumed + polled@ == all,
                self.entries@ == ingest_spec(orig, old(self).options@, consumed),
                orig.is_prefix_of(self.entries@),
            decreases polled.len(),
        {
            let e = polled.remove(0);
            proof {
                assert(all[consumed.len() as int] == e);
            }
            let matched = self.options.matches(&e.device);
            let mut duplicate = false;
            if matched {
                duplicate = self.contains_id(&e.device.id);
            }
            let ghost prev = self.entries@;
            if matched && !duplicate {
                self.entries.push(e);
            }
            proof {
                assert(self.entries@ == ingest_step(prev, old(self).options@, e));
                lemma_ingest_spec_snoc(orig, old(self).options@, consumed, e);
                consumed = consumed.push(e);
                assert(consumed + polled@ =~= all);
                if matched && !duplicate {
                    assert forall|i: int, j: int| 0 <= i < j < self.entries@.len() implies (
                    #[trigger] self.entries@[i]).device@.id != (
                    #[trigger] self.entries@[j]).device@.id by {
                        if j == prev.len() {
                            assert(self.entries@[i] == prev[i]);
                            assert(!has_id(prev, e.device@.id));
                        }
                    }
                    assert(orig.is_prefix_of(self.entries@)) by {
                        assert(self.entries@.subrange(0, orig.len() as int) =~= prev.subrange(
                            0,
                            orig.len() as int,
                        ));
                    }
                }
            }
        }
        proof {
            assert(consumed =~= all);
        }
        self.entries.len() > before
    }

    /// Whether some candidate already carries this id.
    pub fn contains_id(&self, id: &String) -> (r: bool)
        ensures
            r == has_id(self.entries@, id@),
    {
        let mut i: usize = 0;
        while i < self.entries.len()
            invariant
                i <= self.entries@.len(),
                forall|k: int| 0 <= k < i ==> (#[trigger] self.entries@[k]).device@.id != id@,
            decreases self.entries@.len() - i,
        {
            if self.entries[i].device.id == *id {
                assert(self.entries@[i as int].device@.id == id@);
                return true;
            }
            i = i + 1;
        }
        false
    }

    /// Whether any device has matched so far.
    pub fn has_matches(&self) -> (r: bool)
        ensures
            r == (self.entries@.len() > 0),
    {
        self.entries.len() > 0
    }

    /// A snapshot of the candidate descriptors, in discovery order.
    pub fn devices(&self) -> (r: Vec<BluetoothDevice>)
        ensures
            r@.len() == self.entries@.len(),
            forall|i: int|
                0 <= i < self.entries@.len() ==> (#[trigger] r@[i])@ == self.entries@[i].device@,
    {
        let mut r: Vec<BluetoothDevice> = Vec::new();
        let mut i: usize = 0;
        while i < self.entries.len()
            invariant
                i <= self.entries@.len(),
                r@.len() == i,
                forall|k: int|
                    0 <= k < i ==> (#[trigger] r@[k])@ == self.entries@[k].device@,
            decreases self.entries@.len() - i,
        {
            r.push(self.entries[i].device.clone());
            i = i + 1;
        }
        r
    }

    /// Streaming-mode debounce: report the candidate list when it just
    /// changed, or when it is non-empty and the refresh interval has
    /// elapsed since the last report.
    pub fn should_emit_update(&mut self, now_ms: u64, updated: bool) -> (r: bool)
        requires
            now_ms >= old(self).last_emit_ms,
        ensures
            r == (updated || (old(self).entries@.len() > 0 && now_ms >= old(self).last_emit_ms
                + EMIT_REFRESH_INTERVAL_MS)),
            final(self).last_emit_ms == if r {
                now_ms
            } else {
                old(self).last_emit_ms
            },
            final(self).options == old(self).options,
            final(self).deadline_ms == old(self).deadline_ms,
            final(self).full_scan == old(self).full_scan,
            final(self).entries@ == old(self).entries@,
    {
        let due = self.entries.len() > 0 && now_ms - self.last_emit_ms
            >= EMIT_REFRESH_INTERVAL_MS;
        if updated || due {
            self.last_emit_ms = now_ms;
            true
        } else {
            false
        }
    }

    /// Resolves the arbiter's answer against the candidate set.
    ///
    /// No selection is a cancellation; a selected id that is not among
    /// the candidates is a lookup miss carrying that id; a candidate
    /// id yields exactly its entry's descriptor and peripheral handle,
    /// with that entry — and nothing else — removed from the session.
    pub fn resolve_selection(&mut self, selected: Option<String>) -> (r: Result<
        (BluetoothDevice, P),
        Error,
    >)
        requires
            old(self).wf(),
        ensures
            final(self).wf(),
            match r {
                Ok((d, p)) => {
                    let w = index_of_id(old(self).entries@, d@.id);
                    &&& selected matches Some(id) && id@ == d@.id
                    &&& has_id(old(self).entries@, d@.id)
                    &&& d == old(self).entries@[w].device
                    &&& p == old(self).entries@[w].handle
                    &&& final(self).entries@ == old(self).entries@.remove(w)
                    &&& options_match(old(self).options@, d@)
                    &&& !has_id(final(self).entries@, d@.id)
                },
                Err(e) => {
                    &&& final(self).entries@ == old(self).entries@
                    &&& (selected is None ==> e == Error::SelectionCancelled)
                    &&& (selected matches Some(id) ==> {
                        &&& !has_id(old(self).entries@, id@)
                        &&& e matches Error::DeviceNotFound(u) && u@ == id@
                    })
                },
            },
            r is Ok <==> (selected matches Some(id) && has_id(old(self).entries@, id@)),
            final(self).options == old(self).options,
    {
        match selected {
            None => Err(Error::SelectionCancelled),
            Some(id) => {
                let mut i: usize = 0;
                while i < self.entries.len()
                    invariant
                        i <= self.entries@.len(),
                        *self == *old(self),
                        old(self).wf(),
                        selected matches Some(s) && s@ == id@,
                        forall|k: int|
                            0 <= k < i ==> (#[trigger] self.entries@[k]).device@.id != id@,
                    decreases self.entries@.len() - i,
                {
                    if self.entries[i].device.id == id {
                        assert(self.entries@[i as int].device@.id == id@);
                        let entry = self.entries.remove(i);
                        proof {
                            assert(has_id(old(self).entries@, entry.device@.id));
                            let w = index_of_id(old(self).entries@, entry.device@.id);
                            assert(0 <= w < old(self).entries@.len() && old(
                                self,
                            ).entries@[w].device@.id == entry.device@.id);
                            if w != i {
                                assert(false);
                            }
                            assert(options_match(
                                old(self).options@,
                                old(self).entries@[i as int].device@,
                            ));
                            assert forall|a: int, b: int|
                                0 <= a < b < self.entries@.len() implies (
                            #[trigger] self.entries@[a]).device@.id != (
                            #[trigger] self.entries@[b]).device@.id by {
                                let oa = if a < i {
                                    a
                                } else {
                                    a + 1
                                };
                                let ob = if b < i {
                                    b
                                } else {
                                    b + 1
                                };
                                assert(self.entries@[a] == old(self).entries@[oa]);
                                assert(self.entries@[b] == old(self).entries@[ob]);
                            }
                            assert forall|a: int| 0 <= a < self.entries@.len() implies
                                options_match(
                                    self.options@,
                                    (#[trigger] self.entries@[a]).device@,
                                ) by {
                                let oa = if a < i {
                                    a
                                } else {
                                    a + 1
                                };
                                assert(self.entries@[a] == old(self).entries@[oa]);
                            }
                        }
                        return Ok((entry.device, entry.handle));
                    }
                    i = i + 1;
                }
                Err(Error::DeviceNotFound(id))
            },
        }
    }
}

/// The error a discovery request ends in when the deadline passed with
/// no matching device.
pub fn no_devices_matched_error() -> (e: Error)
    ensures
        e matches Error::DeviceNotFound(m) && m@
            == "No devices matched the provided filters"@,
{
    Error::DeviceNotFound(String::from_str("No devices matched the provided filters"))
}

/// Builds the descriptor of a discovered device from its advertised
/// properties: the advertised service UUIDs are reported in canonical
/// form, and a fresh descriptor never watches advertisements.
pub fn describe_device(
    id: &String,
    name: &Option<String>,
    service_uuids: &Vec<String>,
    connected: bool,
) -> (d: BluetoothDevice)
    ensures
        d@.id == id@,
        d@.name == opt_str_view(*name),
        d@.uuids.len() == service_uuids@.len(),
        forall|i: int|
            0 <= i < service_uuids@.len() ==> #[trigger] d@.uuids[i] == canon_uuid(
                service_uuids@[i]@,
            ),
        d.watching_advertisements == false,
        d.connected == connected,
{
    let mut uuids: Vec<String> = Vec::new();
    let mut i: usize = 0;
    while i < service_uuids.len()
        invariant
            i <= service_uuids@.len(),
            uuids@.len() == i,
            forall|k: int|
                0 <= k < i ==> (#[trigger] uuids@[k])@ == canon_uuid(service_uuids@[k]@),
        decreases service_uuids@.len() - i,
    {
        uuids.push(canonicalize_uuid(service_uuids[i].as_str()));
        i = i + 1;
    }
    BluetoothDevice {
        id: id.clone(),
        name: crate::models::clone_opt_string(name),
        uuids,
        watching_advertisements: false,
        connected,
    }
}

} // verus!
