//! Reference-counted handles to resolved values.
//!
//! * [`Resolved<T>`] behaves like `Arc<T>`: it is cheap to clone and always
//!   holds its value.
//! * [`ResolvedWeak<T>`] is the non-owning half, for `$ref` back-edges, so that
//!   cycles between named components do not keep each other alive.
//! * [`ResolvedRefOr<T>`] is either an inline value or such a back-edge.
//! * [`Shared<T>`] is an item of a fully resolved document, shared by every
//!   `$ref` that named it.

use crate::weak_link::{link_upgrade, WeakLink};
use std::sync::Arc;
use vstd::prelude::*;

verus! {

/// A handle to a resolved value, semantically equivalent to `Arc<T>`.
#[derive(Debug)]
pub struct Resolved<T> {
    inner: Arc<T>,
}

/// A second `Arc` to the same allocation: `Arc::clone`.
#[verifier::external_body]
fn arc_clone<T>(arc: &Arc<T>) -> (copy: Arc<T>)
    ensures
        *copy == **arc,
{
    Arc::clone(arc)
}

/// Whether two `Arc`s share one allocation: `Arc::ptr_eq`. Sharing an
/// allocation means sharing the value; whether two equal values share one is
/// a fact about the heap, not about the values, and is not stated.
#[verifier::external_body]
fn arc_ptr_eq<T>(a: &Arc<T>, b: &Arc<T>) -> (same: bool)
    ensures
        same ==> **a == **b,
{
    Arc::ptr_eq(a, b)
}

impl<T> Resolved<T> {
    /// The value this handle points at.
    pub closed spec fn value(&self) -> T {
        *self.inner
    }

    /// Wraps `value` in a freshly allocated [`Resolved`] handle.
    pub fn new(value: T) -> (handle: Self)
        ensures
            handle.value() == value,
    {
        Resolved { inner: Arc::new(value) }
    }

    /// Whether this handle holds its value, which every handle does.
    pub fn is_set(&self) -> (set: bool)
        ensures
            set,
    {
        true
    }

    /// Borrows the underlying value.
    pub fn try_get(&self) -> (value: Option<&T>)
        ensures
            value == Some(&self.value()),
    {
        Some(&*self.inner)
    }

    /// Creates a non-owning [`ResolvedWeak`] handle to the same value.
    pub fn downgrade(&self) -> (weak: ResolvedWeak<T>)
        ensures
            weak.target() == self.value(),
    {
        ResolvedWeak { link: WeakLink::to(&self.inner) }
    }

    /// Returns true when the two handles point at the same allocation, and
    /// then they point at the same value.
    pub fn ptr_eq(a: &Self, b: &Self) -> (same: bool)
        ensures
            same ==> a.value() == b.value(),
    {
        arc_ptr_eq(&a.inner, &b.inner)
    }
}

impl<T> Clone for Resolved<T> {
    fn clone(&self) -> (copy: Self)
        ensures
            copy.value() == self.value(),
    {
        Resolved { inner: arc_clone(&self.inner) }
    }
}

impl<T> std::ops::Deref for Resolved<T> {
    type Target = T;

    fn deref(&self) -> (value: &T)
        ensures
            *value == self.value(),
    {
        &*self.inner
    }
}

impl<T> AsRef<T> for Resolved<T> {
    fn as_ref(&self) -> (value: &T)
        ensures
            *value == self.value(),
    {
        &*self.inner
    }
}

/// A resolved item, shared by every `$ref` that named it.
///
/// Dereferences to the item. It is deliberately not `Clone`: the document it
/// belongs to hands out borrows only, so a `Shared` value never outlives that
/// document. Two `Shared` values compare equal when their items do.
#[derive(Debug, PartialEq)]
pub struct Shared<T> {
    item: Arc<T>,
}

impl<T> Shared<T> {
    /// The item this value shares.
    pub closed spec fn item(&self) -> T {
        *self.item
    }

    /// Shares the allocation `item`.
    pub fn new(item: Arc<T>) -> (shared: Self)
        ensures
            shared.item() == *item,
    {
        Shared { item }
    }
}

impl<T> std::ops::Deref for Shared<T> {
    type Target = T;

    fn deref(&self) -> (item: &T)
        ensures
            *item == self.item(),
    {
        &*self.item
    }
}

/// A weak handle to a resolved value, semantically equivalent to `Weak<T>`.
///
/// Used for `$ref` back-edges so that cycles between named components do not
/// leak. As long as a strong handle to the value is alive, upgrading succeeds.
#[verifier::reject_recursive_types(T)]
pub struct ResolvedWeak<T> {
    link: WeakLink<T>,
}

impl<T> ResolvedWeak<T> {
    /// The value of the handle this one was downgraded from.
    pub closed spec fn target(&self) -> T {
        self.link.target()
    }

    /// Attempts to upgrade to a strong [`Resolved`] handle; the handle it
    /// gives holds the value this one was downgraded from.
    pub fn upgrade(&self) -> (strong: Option<Resolved<T>>)
        ensures
            strong matches Some(r) ==> r.value() == self.target(),
    {
        match link_upgrade(&self.link) {
            Some(inner) => Some(Resolved { inner }),
            None => None,
        }
    }
}

impl<T> Clone for ResolvedWeak<T> {
    fn clone(&self) -> (copy: Self)
        ensures
            copy.target() == self.target(),
    {
        ResolvedWeak { link: self.link.duplicate() }
    }
}

/// Either an inline resolved value or a `$ref` back-edge to a named component.
///
/// Use [`get`](Self::get) to obtain a strong handle to the underlying value
/// regardless of which arm is in use.
#[verifier::reject_recursive_types(T)]
pub enum ResolvedRefOr<T> {
    /// An inline definition. Owns the value via a strong handle.
    Item(Resolved<T>),
    /// A `$ref` to a named component, stored as a weak handle so cycles do
    /// not leak.
    Reference(ResolvedWeak<T>),
}

impl<T> ResolvedRefOr<T> {
    /// Returns a strong [`Resolved`] handle to the underlying value, or
    /// `None` if this is a [`Reference`](Self::Reference) whose target has
    /// been dropped.
    pub fn get(&self) -> (strong: Option<Resolved<T>>)
        ensures
            self matches ResolvedRefOr::Item(item) ==> strong matches Some(r) && r.value()
                == item.value(),
            self matches ResolvedRefOr::Reference(w) ==> (strong matches Some(r) ==> r.value()
                == w.target()),
    {
        match self {
            ResolvedRefOr::Item(item) => Some(item.clone()),
            ResolvedRefOr::Reference(weak) => weak.upgrade(),
        }
    }

    /// Returns true if this is an inline item.
    pub fn is_item(&self) -> (item: bool)
        ensures
            item == (self is Item),
    {
        match self {
            ResolvedRefOr::Item(_) => true,
            ResolvedRefOr::Reference(_) => false,
        }
    }

    /// Returns true if this is a `$ref`.
    pub fn is_reference(&self) -> (reference: bool)
        ensures
            reference == (self is Reference),
    {
        match self {
            ResolvedRefOr::Item(_) => false,
            ResolvedRefOr::Reference(_) => true,
        }
    }
}

impl<T> Clone for ResolvedRefOr<T> {
    fn clone(&self) -> (copy: Self)
        ensures
            self matches ResolvedRefOr::Item(a) ==> copy matches ResolvedRefOr::Item(b)
                && b.value() == a.value(),
            self matches ResolvedRefOr::Reference(w) ==> copy matches ResolvedRefOr::Reference(v)
                && v.target() == w.target(),
    {
        match self {
            ResolvedRefOr::Item(item) => ResolvedRefOr::Item(item.clone()),
            ResolvedRefOr::Reference(weak) => ResolvedRefOr::Reference(weak.clone()),
        }
    }
}

} // verus!
