# openapiv3-resolve

Reference resolution for OpenAPI v3 documents, verified with Verus.

A `$ref` such as `#/components/schemas/Pet` is read as a URI reference: the
part after `#/` is percent-decoded (a `%` that starts no `%XX` escape stays
as it is), split into segments, and the component name is RFC 6901
unescaped. The name is borrowed from the reference unless a `%XX`, `~0` or
`~1` escape had to be decoded. Chains of references are followed to the inline
item at their end, with a bound on the number of hops so that a cyclic
document is reported rather than looped on.

## Layout

- `src/` is the verified library.
  - `section.rs`: the sections a pointer can name and their wire spelling.
  - `reference.rs`: parsing pointers, escaping names, building pointers.
  - `pointer_laws.rs`: a pointer built for a name parses back to that name.
  - `text.rs`: character-level string routines and percent-decoding.
  - `table.rs`, `document.rs`: a document's reference structure, kept in
    `indexmap::IndexMap`, and the walk along chains of `$ref`s.
  - `ledger.rs`: which components a full resolution has started and finished,
    and what a `$ref` to each becomes.
  - `discriminator.rs`: how discriminator mapping values name schemas and
    which `oneOf`/`anyOf` alternative they pick.
  - `handle.rs`: `Arc`-like handles for resolved values.
  - `weak_link.rs`: a weak pointer that remembers the value it points at.
  - `method.rs`: the HTTP methods of a path item, in the order it lists them.
  - `error.rs`: every failure, and the message each renders as.
- `app/` adapts the library to the `openapiv3` crate: the `Resolve` traits on
  `OpenAPI` and `ReferenceOr`, and `ResolvedOpenAPI`, the whole document with
  every `$ref` followed.
- `tests/` exercises the library.
