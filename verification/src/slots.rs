//! Trusted interface to the outside slot allocator that backs the
//! instance id pool.
//!
//! The pool stores one module token per loaded instance under a small
//! reusable integer key.  The slot allocator's own state is named by two
//! spec functions: `slab_contents`, the map from live keys to stored
//! values, and `slab_slots`, the number of storage slots in use, which
//! bounds every key it hands out.

use vstd::prelude::*;

verus! {

#[verifier::external_type_specification]
#[verifier::external_body]
#[verifier::reject_recursive_types(T)]
pub struct ExSlab<T>(slab::Slab<T>);

/// The values stored in the pool, by key.
pub uninterp spec fn slab_contents(s: slab::Slab<u64>) -> Map<nat, u64>;

/// The number of storage slots of the pool: every key ever handed out is
/// below it, and a fresh insertion either fills a vacant slot below it or
/// adds one slot at its end.
pub uninterp spec fn slab_slots(s: slab::Slab<u64>) -> nat;

/// Relies on slab::Slab::new: a newly created pool stores nothing and
/// has no slots.
#[verifier::external_body]
pub fn slab_new() -> (s: slab::Slab<u64>)
    ensures
        slab_contents(s) =~= Map::empty(),
        slab_slots(s) == 0,
{
    slab::Slab::new()
}

/// Relies on slab::Slab::insert: the value is stored under a key not in
/// use, and that key is returned.  The key is the next vacant slot: it
/// either reuses a released slot below the slot count or extends the
/// storage by exactly one slot.
#[verifier::external_body]
pub fn slab_insert(s: &mut slab::Slab<u64>, value: u64) -> (key: usize)
    requires
        slab_slots(*old(s)) < usize::MAX,
    ensures
        !slab_contents(*old(s)).dom().contains(key as nat),
        slab_contents(*final(s)) == slab_contents(*old(s)).insert(key as nat, value),
        key as nat <= slab_slots(*old(s)),
        slab_slots(*final(s)) == if key as nat == slab_slots(*old(s)) {
            slab_slots(*old(s)) + 1
        } else {
            slab_slots(*old(s))
        },
{
    s.insert(value)
}

/// Relies on slab::Slab::get: the value stored under the key, if the key
/// is in use.
#[verifier::external_body]
pub fn slab_get(s: &slab::Slab<u64>, key: usize) -> (r: Option<u64>)
    ensures
        match r {
            Option::Some(v) => slab_contents(*s).dom().contains(key as nat) && slab_contents(
                *s,
            )[key as nat] == v,
            Option::None => !slab_contents(*s).dom().contains(key as nat),
        },
{
    s.get(key).copied()
}

} // verus!
