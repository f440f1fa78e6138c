//! Reference resolution for OpenAPI v3 documents: parsing `$ref` pointers,
//! following chains of references through a document, and the bookkeeping that
//! a full resolution of a document needs.

pub mod document;
pub mod discriminator;
pub mod error;
pub mod handle;
pub mod ledger;
pub mod method;
pub mod text;
pub mod pointer_laws;
pub mod reference;
pub mod section;
pub mod table;
mod weak_link;

pub use discriminator::{MappingEdge, MappingTarget};
pub use document::{lookup_named, walk, DocumentIndex};
pub use error::ResolveError;
pub use handle::{Resolved, ResolvedRefOr, ResolvedWeak, Shared};
pub use ledger::{Progress, ResolutionLedger, Visit};
pub use method::{operation_methods, Method};
pub use reference::{escape, pointer_for, unescape, ComponentRef};
pub use section::Section;
pub use table::Entry;

use vstd::prelude::*;

verus! {

/// How many `$ref` hops a single resolution may follow.
///
/// A cyclic document has no inline item at the end of the chain, so without a
/// bound the walk never terminates. Chains this long do not occur in practice.
pub const MAX_REFERENCE_HOPS: usize = 100;

} // verus!

