//! A weak pointer that remembers the value of the allocation it points at.

use std::sync::{Arc, Weak};
use vstd::prelude::*;

verus! {

/// A `std::sync::Weak`, which Verus cannot declare as a type because of its
/// allocator parameter; held whole and reached only through the functions
/// below.
#[verifier::external_body]
#[verifier::reject_recursive_types(T)]
struct RawWeak<T> {
    weak: Weak<T>,
}

/// A weak pointer to the allocation of `arc`: `Arc::downgrade`.
#[verifier::external_body]
fn raw_downgrade<T>(arc: &Arc<T>) -> RawWeak<T> {
    RawWeak { weak: Arc::downgrade(arc) }
}

/// Another weak pointer to the same allocation: `Weak::clone`.
#[verifier::external_body]
fn raw_clone<T>(raw: &RawWeak<T>) -> RawWeak<T> {
    RawWeak { weak: Weak::clone(&raw.weak) }
}

/// A weak pointer to an allocation, with the value that allocation holds.
///
/// Both fields are private to this file, and a `WeakLink` is made only by
/// [`WeakLink::to`], which records the value of the `Arc` it downgrades, and
/// by [`WeakLink::duplicate`], which copies the record of another link to
/// the same allocation. So the recorded value is always the value of the
/// allocation the raw pointer points at.
#[verifier::reject_recursive_types(T)]
pub(crate) struct WeakLink<T> {
    raw: RawWeak<T>,
    target: Ghost<T>,
}

/// The value of the allocation `arc` points at.
spec fn value_of<T>(arc: &Arc<T>) -> T {
    **arc
}

impl<T> WeakLink<T> {
    /// The value of the allocation this link points at.
    pub(crate) closed spec fn target(&self) -> T {
        self.target@
    }

    /// A weak link to the allocation of `arc`.
    pub(crate) fn to(arc: &Arc<T>) -> (link: Self)
        ensures
            link.target() == **arc,
    {
        WeakLink { raw: raw_downgrade(arc), target: Ghost(value_of(arc)) }
    }

    /// A second weak link to the same allocation.
    pub(crate) fn duplicate(&self) -> (copy: Self)
        ensures
            copy.target() == self.target(),
    {
        WeakLink { raw: raw_clone(&self.raw), target: Ghost(self.target@) }
    }
}

/// `Weak::upgrade` on the raw pointer of `link`: a strong pointer to the
/// allocation while it is still alive.
///
/// `Weak::upgrade` hands back the allocation the weak pointer was made from,
/// whose value `link` records (see [`WeakLink`]); the value of an `Arc`
/// allocation does not change while a `Weak` to it exists (`Arc::get_mut`
/// refuses then, and `Arc::make_mut` moves the value away from the weak
/// pointers). Whether the allocation is still alive depends on the other
/// pointers to it and is not stated.
#[verifier::external_body]
pub(crate) fn link_upgrade<T>(link: &WeakLink<T>) -> (strong: Option<Arc<T>>)
    ensures
        strong matches Some(arc) ==> *arc == link.target(),
{
    link.raw.weak.upgrade()
}

} // verus!
