//! The notification task registry.
//!
//! One background subscription task owns each (device, characteristic)
//! pair. Starting a second subscription for a pair that is already
//! owned fails rather than silently replacing the first; stopping a
//! pair nobody owns fails too. A disconnect removes every entry of the
//! device at once, and removal by stop and removal by disconnect are
//! idempotent against each other: what is already gone stays gone
//! without an error on the disconnect path.

use vstd::prelude::*;

use crate::error::Error;
use crate::text::push_char;

verus! {

/// The composite key of one notification subscription.
pub struct NotificationKey {
    pub device_id: String,
    pub characteristic_uuid: String,
}

/// Mathematical view of [`NotificationKey`].
pub ghost struct NotificationKeyView {
    pub device_id: Seq<char>,
    pub characteristic_uuid: Seq<char>,
}

impl View for NotificationKey {
    type V = NotificationKeyView;

    open spec fn view(&self) -> NotificationKeyView {
        NotificationKeyView {
            device_id: self.device_id@,
            characteristic_uuid: self.characteristic_uuid@,
        }
    }
}

/// The composite key rendered as one string, device id and
/// characteristic UUID joined by a colon.
pub fn notification_key(device_id: &str, characteristic_uuid: &str) -> (r: String)
    ensures
        r@ == device_id@ + seq![':'] + characteristic_uuid@,
{
    let mut r = String::from_str(device_id);
    push_char(&mut r, ':');
    r.append(characteristic_uuid);
    proof {
        assert(r@ =~= device_id@ + seq![':'] + characteristic_uuid@);
    }
    r
}

/// One registered subscription: its key and the cancellable handle of
/// the background task that drains it.
pub struct RegistryEntry<H> {
    pub key: NotificationKey,
    pub task: H,
}

/// Whether some entry carries exactly this key.
pub open spec fn registry_has_key<H>(
    entries: Seq<RegistryEntry<H>>,
    device_id: Seq<char>,
    characteristic_uuid: Seq<char>,
) -> bool {
    exists|i: int|
        0 <= i < entries.len() && (#[trigger] entries[i]).key@.device_id == device_id
            && entries[i].key@.characteristic_uuid == characteristic_uuid
}

/// Whether any entry belongs to this device.
pub open spec fn registry_has_device<H>(
    entries: Seq<RegistryEntry<H>>,
    device_id: Seq<char>,
) -> bool {
    exists|i: int| 0 <= i < entries.len() && (#[trigger] entries[i]).key@.device_id == device_id
}

/// Whether no two entries share a key.
pub open spec fn registry_keys_unique<H>(entries: Seq<RegistryEntry<H>>) -> bool {
    forall|i: int, j: int|
        0 <= i < j < entries.len() ==> !((#[trigger] entries[i]).key@.device_id == (
        #[trigger] entries[j]).key@.device_id && entries[i].key@.characteristic_uuid
            == entries[j].key@.characteristic_uuid)
}

/// The entries that survive a disconnect of `device_id`: exactly those
/// of other devices, in their original order.
pub open spec fn registry_without_device<H>(
    entries: Seq<RegistryEntry<H>>,
    device_id: Seq<char>,
) -> Seq<RegistryEntry<H>>
    decreases entries.len(),
{
    if entries.len() == 0 {
        Seq::empty()
    } else {
        let prefix = registry_without_device(entries.drop_last(), device_id);
        if entries.last().key@.device_id == device_id {
            prefix
        } else {
            prefix.push(entries.last())
        }
    }
}

/// The position of the entry owning this key (meaningful when
/// `registry_has_key` holds; with unique keys it is the only one).
pub open spec fn registry_index_of<H>(
    entries: Seq<RegistryEntry<H>>,
    device_id: Seq<char>,
    characteristic_uuid: Seq<char>,
) -> int {
    choose|i: int|
        0 <= i < entries.len() && (#[trigger] entries[i]).key@.device_id == device_id
            && entries[i].key@.characteristic_uuid == characteristic_uuid
}

/// The tasks a disconnect of `device_id` hands back for cancellation:
/// those of exactly the device's entries, in their original order.
pub open spec fn registry_device_tasks<H>(
    entries: Seq<RegistryEntry<H>>,
    device_id: Seq<char>,
) -> Seq<H>
    decreases entries.len(),
{
    if entries.len() == 0 {
        Seq::empty()
    } else {
        let prefix = registry_device_tasks(entries.drop_last(), device_id);
        if entries.last().key@.device_id == device_id {
            prefix.push(entries.last().task)
        } else {
            prefix
        }
    }
}

/// Law: a disconnect for one device removes exactly that device's
/// entries — none of its own keys survive, every other device's entry
/// survives, order and uniqueness are preserved, and nothing new
/// appears.
pub proof fn lemma_disconnect_prunes_exactly<H>(
    entries: Seq<RegistryEntry<H>>,
    device_id: Seq<char>,
)
    requires
        registry_keys_unique(entries),
    ensures
        !registry_has_device(registry_without_device(entries, device_id), device_id),
        forall|i: int|
            0 <= i < registry_without_device(entries, device_id).len() ==> (#[trigger]
            registry_without_device(entries, device_id)[i]).key@.device_id != device_id,
        forall|i: int|
            0 <= i < registry_without_device(entries, device_id).len() ==> exists|j: int|
                0 <= j < entries.len() && #[trigger] registry_without_device(
                    entries,
                    device_id,
                )[i] == entries[j],
        forall|j: int|
            0 <= j < entries.len() && (#[trigger] entries[j]).key@.device_id != device_id
                ==> exists|i: int|
                0 <= i < registry_without_device(entries, device_id).len()
                    && registry_without_device(entries, device_id)[i] == entries[j],
        registry_keys_unique(registry_without_device(entries, device_id)),
        registry_without_device(entries, device_id).len() <= entries.len(),
    decreases entries.len(),
{
    let r = registry_without_device(entries, device_id);
    if entries.len() == 0 {
    } else {
        let rest = entries.drop_last();
        let last = entries.last();
        assert(registry_keys_unique(rest)) by {
            assert forall|i: int, j: int| 0 <= i < j < rest.len() implies !((
            #[trigger] rest[i]).key@.device_id == (#[trigger] rest[j]).key@.device_id
                && rest[i].key@.characteristic_uuid == rest[j].key@.characteristic_uuid) by {
                assert(rest[i] == entries[i]);
                assert(rest[j] == entries[j]);
            }
        }
        lemma_disconnect_prunes_exactly(rest, device_id);
        let pr = registry_without_device(rest, device_id);
        if last.key@.device_id == device_id {
            assert(r == pr);
            assert forall|j: int|
                0 <= j < entries.len() && (#[trigger] entries[j]).key@.device_id
                    != device_id implies exists|i: int|
                0 <= i < r.len() && r[i] == entries[j] by {
                assert(j < rest.len());
                assert(rest[j] == entries[j]);
            }
        } else {
            assert(r == pr.push(last));
            assert forall|i: int| 0 <= i < r.len() implies (#[trigger] r[i]).key@.device_id
                != device_id by {
                if i < pr.len() {
                    assert(r[i] == pr[i]);
                } else {
                    assert(r[i] == last);
                }
            }
            assert forall|i: int| 0 <= i < r.len() implies exists|j: int|
                0 <= j < entries.len() && #[trigger] r[i] == entries[j] by {
                if i < pr.len() {
                    assert(r[i] == pr[i]);
                    let j0 = choose|j0: int| 0 <= j0 < rest.len() && pr[i] == rest[j0];
                    assert(rest[j0] == entries[j0]);
                } else {
                    assert(r[i] == last);
                    assert(entries[entries.len() - 1] == last);
                }
            }
            assert forall|j: int|
                0 <= j < entries.len() && (#[trigger] entries[j]).key@.device_id
                    != device_id implies exists|i: int|
                0 <= i < r.len() && r[i] == entries[j] by {
                if j < rest.len() {
                    assert(rest[j] == entries[j]);
                    let i0 = choose|i0: int| 0 <= i0 < pr.len() && pr[i0] == rest[j];
                    assert(r[i0] == pr[i0]);
                } else {
                    assert(entries[j] == last);
                    assert(r[pr.len() as int] == last);
                }
            }
            assert(registry_keys_unique(r)) by {
                assert forall|i: int, j: int| 0 <= i < j < r.len() implies !((
                #[trigger] r[i]).key@.device_id == (#[trigger] r[j]).key@.device_id
                    && r[i].key@.characteristic_uuid == r[j].key@.characteristic_uuid) by {
                    if j == pr.len() {
                        assert(r[j] == last);
                        assert(r[i] == pr[i]);
                        let j0 = choose|j0: int| 0 <= j0 < rest.len() && pr[i] == rest[j0];
                        assert(entries[j0] == rest[j0]);
                        assert(!(entries[j0].key@.device_id == last.key@.device_id
                            && entries[j0].key@.characteristic_uuid
                            == last.key@.characteristic_uuid));
                    } else {
                        assert(r[i] == pr[i]);
                        assert(r[j] == pr[j]);
                    }
                }
            }
        }
    }
}

/// The registry of active notification tasks, keyed by
/// (device, characteristic).
pub struct NotificationRegistry<H> {
    pub entries: Vec<RegistryEntry<H>>,
}

impl<H> NotificationRegistry<H> {
    /// The registry invariant: at most one task per key.
    pub open spec fn wf(&self) -> bool {
        registry_keys_unique(self.entries@)
    }

    /// An empty registry.
    pub fn new() -> (r: NotificationRegistry<H>)
        ensures
            r.wf(),
            r.entries@.len() == 0,
    {
        NotificationRegistry { entries: Vec::new() }
    }

    /// Whether a task owns this key.
    pub fn contains(&self, device_id: &String, characteristic_uuid: &String) -> (r: bool)
        ensures
            r == registry_has_key(self.entries@, device_id@, characteristic_uuid@),
    {
        let mut i: usize = 0;
        while i < self.entries.len()
            invariant
                i <= self.entries@.len(),
                forall|k: int|
                    0 <= k < i ==> !((#[trigger] self.entries@[k]).key@.device_id == device_id@
                        && self.entries@[k].key@.characteristic_uuid == characteristic_uuid@),
            decreases self.entries@.len() - i,
        {
            if self.entries[i].key.device_id == *device_id
                && self.entries[i].key.characteristic_uuid == *characteristic_uuid {
                assert(self.entries@[i as int].key@.device_id == device_id@);
                return true;
            }
            i = i + 1;
        }
        false
    }

    /// Registers a subscription task under its key.
    ///
    /// Fails with [`Error::NotificationsAlreadyActive`], carrying the
    /// key, exactly when a task already owns it; the registry is then
    /// unchanged. On success the entry is appended and the key is
    /// owned.
    pub fn start(&mut self, key: NotificationKey, task: H) -> (r: Result<(), Error>)
        requires
            old(self).wf(),
        ensures
            final(self).wf(),
            match r {
                Ok(()) => {
                    &&& !registry_has_key(
                        old(self).entries@,
                        key@.device_id,
                        key@.characteristic_uuid,
                    )
                    &&& final(self).entries@.len() == old(self).entries@.len() + 1
                    &&& final(self).entries@[old(self).entries@.len() as int].key@ == key@
                    &&& final(self).entries@[old(self).entries@.len() as int].task == task
                    &&& old(self).entries@.is_prefix_of(final(self).entries@)
                    &&& registry_has_key(
                        final(self).entries@,
                        key@.device_id,
                        key@.characteristic_uuid,
                    )
                },
                Err(e) => {
                    &&& registry_has_key(
                        old(self).entries@,
                        key@.device_id,
                        key@.characteristic_uuid,
                    )
                    &&& final(self).entries@ == old(self).entries@
                    &&& e matches Error::NotificationsAlreadyActive {
                        device_id,
                        characteristic_uuid,
                    } && device_id@ == key@.device_id && characteristic_uuid@
                        == key@.characteristic_uuid
                },
            },
            r is Ok <==> !registry_has_key(
                old(self).entries@,
                key@.device_id,
                key@.characteristic_uuid,
            ),
    {
        if self.contains(&key.device_id, &key.characteristic_uuid) {
            return Err(
                Error::NotificationsAlreadyActive {
                    device_id: key.device_id,
                    characteristic_uuid: key.characteristic_uuid,
                },
            );
        }
        let ghost prev = self.entries@;
        let ghost kv = key@;
        self.entries.push(RegistryEntry { key, task });
        proof {
            assert(self.entries@[prev.len() as int].key@ == kv);
            assert forall|i: int, j: int| 0 <= i < j < self.entries@.len() implies !((
            #[trigger] self.entries@[i]).key@.device_id == (
            #[trigger] self.entries@[j]).key@.device_id
                && self.entries@[i].key@.characteristic_uuid
                == self.entries@[j].key@.characteristic_uuid) by {
                if j == prev.len() {
                    assert(self.entries@[i] == prev[i]);
                    assert(!registry_has_key(prev, kv.device_id, kv.characteristic_uuid));
                }
            }
            assert(prev.is_prefix_of(self.entries@)) by {
                assert(self.entries@.subrange(0, prev.len() as int) =~= prev);
            }
        }
        Ok(())
    }

    /// Removes the subscription under this key and hands its task back
    /// for cancellation: the registry afterwards is the old one with
    /// exactly that entry removed, every other entry untouched.
    ///
    /// Fails with [`Error::NotificationsNotActive`], carrying the key,
    /// exactly when no task owns it; the registry is then unchanged.
    pub fn stop(&mut self, device_id: &String, characteristic_uuid: &String) -> (r: Result<
        H,
        Error,
    >)
        requires
            old(self).wf(),
        ensures
            final(self).wf(),
            match r {
                Ok(task) => {
                    let w = registry_index_of(old(self).entries@, device_id@, characteristic_uuid@);
                    &&& registry_has_key(old(self).entries@, device_id@, characteristic_uuid@)
                    &&& task == old(self).entries@[w].task
                    &&& final(self).entries@ == old(self).entries@.remove(w)
                    &&& !registry_has_key(
                        final(self).entries@,
                        device_id@,
                        characteristic_uuid@,
                    )
                },
                Err(e) => {
                    &&& !registry_has_key(old(self).entries@, device_id@, characteristic_uuid@)
                    &&& final(self).entries@ == old(self).entries@
                    &&& e matches Error::NotificationsNotActive {
                        device_id: d,
                        characteristic_uuid: c,
                    } && d@ == device_id@ && c@ == characteristic_uuid@
                },
            },
            r is Ok <==> registry_has_key(old(self).entries@, device_id@, characteristic_uuid@),
    {
        let mut i: usize = 0;
        while i < self.entries.len()
            invariant
                i <= self.entries@.len(),
                *self == *old(self),
                old(self).wf(),
                forall|k: int|
                    0 <= k < i ==> !((#[trigger] self.entries@[k]).key@.device_id == device_id@
                        && self.entries@[k].key@.characteristic_uuid == characteristic_uuid@),
            decreases self.entries@.len() - i,
        {
            if self.entries[i].key.device_id == *device_id
                && self.entries[i].key.characteristic_uuid == *characteristic_uuid {
                assert(self.entries@[i as int].key@.device_id == device_id@);
                let entry = self.entries.remove(i);
                proof {
                    assert(registry_has_key(
                        old(self).entries@,
                        device_id@,
                        characteristic_uuid@,
                    ));
                    let w = registry_index_of(old(self).entries@, device_id@, characteristic_uuid@);
                    assert(0 <= w < old(self).entries@.len() && old(
                        self,
                    ).entries@[w].key@.device_id == device_id@ && old(
                        self,
                    ).entries@[w].key@.characteristic_uuid == characteristic_uuid@);
                    if w != i {
                        assert(false);
                    }
                    assert forall|a: int, b: int| 0 <= a < b < self.entries@.len() implies !((
                    #[trigger] self.entries@[a]).key@.device_id == (
                    #[trigger] self.entries@[b]).key@.device_id
                        && self.entries@[a].key@.characteristic_uuid
                        == self.entries@[b].key@.characteristic_uuid) by {
                        let oa = if a < i {
                            a
                        } else {
                            a + 1
                        };
                        let ob = if b < i {
                            b
                        } else {
                            b + 1
                        };
                        assert(self.entries@[a] == old(self).entries@[oa]);
                        assert(self.entries@[b] == old(self).entries@[ob]);
                    }
                    assert forall|k: int| 0 <= k < self.entries@.len() implies !((
                    #[trigger] self.entries@[k]).key@.device_id == device_id@
                        && self.entries@[k].key@.characteristic_uuid
                        == characteristic_uuid@) by {
                        let ok = if k < i {
                            k
                        } else {
                            k + 1
                        };
                        assert(self.entries@[k] == old(self).entries@[ok]);
                        if ok != i {
                            assert(!(old(self).entries@[ok].key@.device_id
                                == old(self).entries@[i as int].key@.device_id && old(
                                self,
                            ).entries@[ok].key@.characteristic_uuid == old(
                                self,
                            ).entries@[i as int].key@.characteristic_uuid));
                        }
                    }
                }
                return Ok(entry.task);
            }
            i = i + 1;
        }
        Err(
            Error::NotificationsNotActive {
                device_id: device_id.clone(),
                characteristic_uuid: characteristic_uuid.clone(),
            },
        )
    }

    /// Removes every entry whose device component equals `device_id`
    /// and hands back exactly those entries' tasks, in order, for
    /// cancellation, preserving the order of what remains. Clearing a
    /// device that owns nothing is a no-op, not an error.
    pub fn clear_for_device(&mut self, device_id: &String) -> (tasks: Vec<H>)
        requires
            old(self).wf(),
        ensures
            final(self).wf(),
            final(self).entries@ == registry_without_device(old(self).entries@, device_id@),
            tasks@ == registry_device_tasks(old(self).entries@, device_id@),
            !registry_has_device(final(self).entries@, device_id@),
            tasks@.len() + final(self).entries@.len() == old(self).entries@.len(),
    {
        let mut kept: Vec<RegistryEntry<H>> = Vec::new();
        let mut tasks: Vec<H> = Vec::new();
        let ghost orig = self.entries@;
        while self.entries.len() > 0
            invariant
                old(self).wf(),
                orig == old(self).entries@,
                self.entries@.len() <= orig.len(),
                kept@ == registry_without_device(
                    orig.subrange(0, orig.len() - self.entries@.len()),
                    device_id@,
                ),
                tasks@ == registry_device_tasks(
                    orig.subrange(0, orig.len() - self.entries@.len()),
                    device_id@,
                ),
                orig.skip(orig.len() - self.entries@.len()) == self.entries@,
                tasks@.len() + kept@.len() + self.entries@.len() == orig.len(),
            decreases self.entries@.len(),
        {
            let ghost done = orig.len() - self.entries@.len();
            let e = self.entries.remove(0);
            proof {
                assert(orig.skip(done)[0] == e);
                assert(orig[done] == e);
                assert(orig.skip(done + 1) =~= self.entries@);
                let p1 = orig.subrange(0, done + 1);
                assert(p1.drop_last() =~= orig.subrange(0, done));
                assert(p1.last() == e);
                assert(registry_without_device(p1, device_id@) == if e.key@.device_id
                    == device_id@ {
                    registry_without_device(orig.subrange(0, done), device_id@)
                } else {
                    registry_without_device(orig.subrange(0, done), device_id@).push(e)
                });
                assert(registry_device_tasks(p1, device_id@) == if e.key@.device_id
                    == device_id@ {
                    registry_device_tasks(orig.subrange(0, done), device_id@).push(e.task)
                } else {
                    registry_device_tasks(orig.subrange(0, done), device_id@)
                });
            }
            if e.key.device_id == *device_id {
                tasks.push(e.task);
            } else {
                kept.push(e);
            }
        }
        proof {
            assert(orig.subrange(0, orig.len() as int) =~= orig);
        }
        self.entries = kept;
        proof {
            lemma_disconnect_prunes_exactly(orig, device_id@);
        }
        tasks
    }
}

/// Law: after a successful start for a key, that key is owned — so a
/// second start for the same key, without an intervening stop, falls
/// under `start`'s conflict case and answers
/// `NotificationsAlreadyActive`; and by `stop`'s contract, a key that
/// no entry owns answers `NotificationsNotActive`.
pub proof fn lemma_second_start_conflicts<H>(
    before: Seq<RegistryEntry<H>>,
    after: Seq<RegistryEntry<H>>,
    device_id: Seq<char>,
    characteristic_uuid: Seq<char>,
)
    requires
        after.len() == before.len() + 1,
        before.is_prefix_of(after),
        after[before.len() as int].key@.device_id == device_id,
        after[before.len() as int].key@.characteristic_uuid == characteristic_uuid,
    ensures
        registry_has_key(after, device_id, characteristic_uuid),
{
    assert(0 <= before.len() < after.len() && after[before.len() as int].key@.device_id
        == device_id && after[before.len() as int].key@.characteristic_uuid
        == characteristic_uuid);
}

} // verus!
