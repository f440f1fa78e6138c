//! The per-section tables of a document, kept in `indexmap::IndexMap`.

use indexmap::IndexMap;
use vstd::prelude::*;

verus! {

#[verifier::external_type_specification]
#[verifier::external_body]
#[verifier::reject_recursive_types(K)]
#[verifier::reject_recursive_types(V)]
#[verifier::reject_recursive_types(S)]
pub struct ExIndexMap<K, V, S>(IndexMap<K, V, S>);

/// What a section entry is, as far as following `$ref`s is concerned: an
/// inline item, or a `$ref` to another entry.
#[derive(Debug, Clone, PartialEq, Eq)]
pub enum Entry {
    /// The entry is an inline item.
    Item,
    /// The entry is a `$ref` with this pointer.
    Reference(String),
}

impl View for Entry {
    /// `None` for an inline item, the pointer for a `$ref`.
    type V = Option<Seq<char>>;

    open spec fn view(&self) -> Option<Seq<char>> {
        match self {
            Entry::Item => None,
            Entry::Reference(pointer) => Some(pointer@),
        }
    }
}

/// The entries a table holds, by name.
pub uninterp spec fn table_entries(table: IndexMap<String, Entry>) -> Map<Seq<char>, Option<Seq<char>>>;

/// An empty table: `IndexMap::new`.
#[verifier::external_body]
pub(crate) fn table_new() -> (fresh: IndexMap<String, Entry>)
    ensures
        table_entries(fresh).is_empty(),
{
    IndexMap::new()
}

/// Stores `entry` under `name`, replacing what was there: `IndexMap::insert`.
#[verifier::external_body]
pub(crate) fn table_insert(table: &mut IndexMap<String, Entry>, name: String, entry: Entry)
    ensures
        table_entries(*final(table)) == table_entries(*old(table)).insert(name@, entry@),
{
    table.insert(name, entry);
}

/// The entry stored under `name`: `IndexMap::get`.
#[verifier::external_body]
pub(crate) fn table_get<'a>(table: &'a IndexMap<String, Entry>, name: &str) -> (entry: Option<
    &'a Entry,
>)
    ensures
        match entry {
            Some(e) => table_entries(*table).contains_key(name@) && table_entries(*table)[name@]
                == e@,
            None => !table_entries(*table).contains_key(name@),
        },
{
    table.get(name)
}

} // verus!
