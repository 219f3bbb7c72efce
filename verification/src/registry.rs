//! Reference-counted, instance-scoped callback registrations.
//!
//! A registration wraps a raw (instance id, reference) pair behind a
//! strong-reference count starting at one.  Cloning a handle increments
//! the count of the registration it aliases; dropping decrements it, and
//! the drop that reaches zero releases the registry entry and yields
//! exactly one drop notification for the owning instance.  Reference
//! counting is per registration; equality of handles is structural on the
//! pair alone, so two independently minted handles with equal pairs are
//! unrelated for counting purposes.

use vstd::prelude::*;

verus! {

/// One live registration: the owning instance, the guest-side reference
/// number, and the strong-reference count.
#[derive(Debug, Clone, Copy, PartialEq, Eq, Structural)]
pub struct RegEntry {
    pub instance_id: i32,
    pub ref_: u32,
    pub count: u64,
}

/// A strong reference to one registration in the registry.
#[derive(Debug, Clone, Copy, PartialEq, Eq, Structural)]
pub struct CallbackHandle {
    pub slot: usize,
}

/// The notification owed to the owning instance when the last strong
/// reference to a registration is dropped.
#[derive(Debug, Clone, Copy, PartialEq, Eq, Structural)]
pub struct DropNotice {
    pub instance_id: i32,
    pub ref_: u32,
}

/// The host-owned table of callback registrations.  A slot holds a live
/// registration or nothing once the registration was released; slots are
/// never reused, so a handle's slot identifies its registration for the
/// registration's whole life.
#[derive(Debug)]
pub struct CallbackRegistry {
    slots: Vec<Option<RegEntry>>,
}

/// Cloning a handle: the count of its registration grows by one.
pub open spec fn spec_clone_entries(s: Seq<Option<RegEntry>>, k: int) -> Seq<Option<RegEntry>>
    recommends
        0 <= k < s.len(),
        s[k] is Some,
{
    let e = s[k]->Some_0;
    s.update(k, Option::Some(RegEntry { instance_id: e.instance_id, ref_: e.ref_, count: (e.count + 1) as u64 }))
}

/// Dropping a handle: the count of its registration shrinks by one; the
/// drop that reaches zero releases the slot and yields the one drop
/// notification.
pub open spec fn spec_drop_entries(s: Seq<Option<RegEntry>>, k: int) -> (
    Seq<Option<RegEntry>>,
    Option<DropNotice>,
)
    recommends
        0 <= k < s.len(),
        s[k] is Some,
{
    let e = s[k]->Some_0;
    if e.count <= 1 {
        (
            s.update(k, Option::None),
            Option::Some(DropNotice { instance_id: e.instance_id, ref_: e.ref_ }),
        )
    } else {
        (
            s.update(
                k,
                Option::Some(
                    RegEntry { instance_id: e.instance_id, ref_: e.ref_, count: (e.count - 1) as u64 },
                ),
            ),
            Option::None,
        )
    }
}

impl CallbackRegistry {
    /// The registration slots.
    pub closed spec fn entries(self) -> Seq<Option<RegEntry>> {
        self.slots@
    }

    /// Every live registration holds at least one strong reference.
    pub open spec fn wf(self) -> bool {
        forall|i: int|
            0 <= i < self.entries().len() && self.entries()[i] is Some ==> (
            #[trigger] self.entries()[i])->Some_0.count >= 1
    }

    /// A handle is valid while its registration is live.
    pub open spec fn valid_handle(self, h: CallbackHandle) -> bool {
        h.slot < self.entries().len() && self.entries()[h.slot as int] is Some
    }

    /// The (instance id, reference) pair of a handle's registration.
    pub open spec fn spec_pair_of(self, h: CallbackHandle) -> (i32, u32)
        recommends
            self.valid_handle(h),
    {
        let e = self.entries()[h.slot as int]->Some_0;
        (e.instance_id, e.ref_)
    }

    /// The strong-reference count of a handle's registration.
    pub open spec fn spec_count_of(self, h: CallbackHandle) -> u64
        recommends
            self.valid_handle(h),
    {
        self.entries()[h.slot as int]->Some_0.count
    }

    /// Creates an empty registry.
    pub fn new() -> (r: CallbackRegistry)
        ensures
            r.entries() =~= Seq::<Option<RegEntry>>::empty(),
            r.wf(),
    {
        CallbackRegistry { slots: Vec::new() }
    }

    /// Registers a new (instance id, reference) pair behind a strong
    /// count of one and returns the first strong reference to it.  A new
    /// registration is unrelated to any existing one, also when an equal
    /// pair is already registered.
    pub fn mint(&mut self, instance_id: i32, ref_: u32) -> (h: CallbackHandle)
        requires
            old(self).wf(),
            instance_id >= 0,
            ref_ != 0,
        ensures
            final(self).wf(),
            final(self).entries() == old(self).entries().push(
                Option::Some(RegEntry { instance_id, ref_, count: 1 }),
            ),
            h.slot == old(self).entries().len(),
            final(self).valid_handle(h),
            final(self).spec_pair_of(h) == (instance_id, ref_),
            final(self).spec_count_of(h) == 1u64,
    {
        let slot = self.slots.len();
        self.slots.push(Option::Some(RegEntry { instance_id, ref_, count: 1 }));
        CallbackHandle { slot }
    }

    /// The pair of a handle, read through the registry: a strong reference
    /// is never rebuilt from a bare integer without this lookup.
    pub fn pair_of(&self, h: CallbackHandle) -> (r: (i32, u32))
        requires
            self.valid_handle(h),
        ensures
            r == self.spec_pair_of(h),
    {
        match &self.slots[h.slot] {
            Option::Some(e) => (e.instance_id, e.ref_),
            Option::None => (0, 0),
        }
    }

    /// The strong-reference count of a handle's registration.
    pub fn count_of(&self, h: CallbackHandle) -> (r: u64)
        requires
            self.valid_handle(h),
        ensures
            r == self.spec_count_of(h),
    {
        match &self.slots[h.slot] {
            Option::Some(e) => e.count,
            Option::None => 0,
        }
    }

    /// Clones a handle: the new handle aliases the same registration,
    /// whose count grows by one.
    pub fn clone_handle(&mut self, h: CallbackHandle) -> (h2: CallbackHandle)
        requires
            old(self).wf(),
            old(self).valid_handle(h),
            old(self).spec_count_of(h) < u64::MAX,
        ensures
            final(self).wf(),
            final(self).entries() == spec_clone_entries(old(self).entries(), h.slot as int),
            h2 == h,
            final(self).valid_handle(h),
            final(self).spec_pair_of(h) == old(self).spec_pair_of(h),
            final(self).spec_count_of(h) == old(self).spec_count_of(h) + 1,
    {
        let (instance_id, ref_, count) = match &self.slots[h.slot] {
            Option::Some(e) => (e.instance_id, e.ref_, e.count),
            Option::None => (0, 0, 0),
        };
        self.slots.set(
            h.slot,
            Option::Some(RegEntry { instance_id, ref_, count: count + 1 }),
        );
        h
    }

    /// Drops a handle: the count of its registration shrinks by one.  The
    /// drop that reaches zero releases the registration and returns the
    /// one drop notification owed to the owning instance; every other
    /// drop returns nothing.
    pub fn drop_handle(&mut self, h: CallbackHandle) -> (notice: Option<DropNotice>)
        requires
            old(self).wf(),
            old(self).valid_handle(h),
        ensures
            final(self).wf(),
            (final(self).entries(), notice) == spec_drop_entries(
                old(self).entries(),
                h.slot as int,
            ),
            notice is Some <==> old(self).spec_count_of(h) == 1,
            notice matches Some(n) ==> n.instance_id == old(self).spec_pair_of(h).0 && n.ref_
                == old(self).spec_pair_of(h).1 && !final(self).valid_handle(h),
            notice is None ==> final(self).valid_handle(h) && final(self).spec_count_of(h) == old(
                self,
            ).spec_count_of(h) - 1 && final(self).spec_pair_of(h) == old(self).spec_pair_of(h),
    {
        let (instance_id, ref_, count) = match &self.slots[h.slot] {
            Option::Some(e) => (e.instance_id, e.ref_, e.count),
            Option::None => (0, 0, 0),
        };
        if count <= 1 {
            self.slots.set(h.slot, Option::None);
            Some(DropNotice { instance_id, ref_ })
        } else {
            self.slots.set(
                h.slot,
                Option::Some(RegEntry { instance_id, ref_, count: count - 1 }),
            );
            None
        }
    }

    /// Structural equality of two handles: their (instance id, reference)
    /// pairs are equal.  Equality says nothing about reference counting:
    /// two independently minted registrations with equal pairs stay
    /// unrelated for counting purposes.
    pub fn handles_equal(&self, h1: CallbackHandle, h2: CallbackHandle) -> (b: bool)
        requires
            self.valid_handle(h1),
            self.valid_handle(h2),
        ensures
            b == (self.spec_pair_of(h1) == self.spec_pair_of(h2)),
    {
        let p1 = self.pair_of(h1);
        let p2 = self.pair_of(h2);
        p1.0 == p2.0 && p1.1 == p2.1
    }
}

/// Cloning a handle and then dropping twice returns the registration to
/// its state before the clone and then releases it: the drop right after
/// the clone yields no notification and restores the pre-clone count, and
/// when the count before the clone was one, the second drop is the final
/// one and yields exactly one notification, after which the registration
/// is gone and can yield no further notification.
pub proof fn lemma_clone_drop_drop(s: Seq<Option<RegEntry>>, k: int)
    requires
        0 <= k < s.len(),
        s[k] matches Some(e) && e.count == 1,
    ensures
        ({
            let s1 = spec_clone_entries(s, k);
            let (s2, n2) = spec_drop_entries(s1, k);
            let (s3, n3) = spec_drop_entries(s2, k);
            &&& n2 is None
            &&& s2 =~= s
            &&& n3 == Option::Some(
                DropNotice {
                    instance_id: s[k]->Some_0.instance_id,
                    ref_: s[k]->Some_0.ref_,
                },
            )
            &&& s3[k] is None
        }),
{
    let e = s[k]->Some_0;
    let s1 = spec_clone_entries(s, k);
    assert(s1[k] == Option::Some(RegEntry { instance_id: e.instance_id, ref_: e.ref_, count: 2 }));
    let (s2, n2) = spec_drop_entries(s1, k);
    assert(s2 =~= s);
    let (s3, n3) = spec_drop_entries(s2, k);
}

/// Dropping a handle whose registration count is above one never
/// notifies, and the count comes back to its old value after a clone and
/// one drop, whatever the count was.
pub proof fn lemma_clone_then_drop_restores(s: Seq<Option<RegEntry>>, k: int)
    requires
        0 <= k < s.len(),
        s[k] is Some,
        1 <= s[k]->Some_0.count < u64::MAX,
    ensures
        ({
            let s1 = spec_clone_entries(s, k);
            let (s2, n2) = spec_drop_entries(s1, k);
            n2 is None && s2 =~= s
        }),
{
    let e = s[k]->Some_0;
    let s1 = spec_clone_entries(s, k);
    assert(s1[k]->Some_0.count == e.count + 1);
    let (s2, n2) = spec_drop_entries(s1, k);
    assert(s2 =~= s);
}

} // verus!
