//! Name-indexed field access over a record schema.
//!
//! From a static record schema — an ordered list of named, typed fields plus
//! a record name — this crate synthesizes a family of string-keyed field
//! operations: read, write, exchange and uniform enumeration of a record's
//! fields, dispatched on a field name supplied at run time.
//!
//! The generation stage lives in [`synth`] and [`schema`]: a record
//! definition is reduced to a schema once ([`schema::extract_schema`]), the
//! fields are partitioned by declared type into capability groups in
//! first-occurrence order ([`synth::group_by_type`]), the same-type field
//! pairs eligible for exchange are enumerated from the raw field list
//! ([`synth::swap_pairs`]), and the introspection snapshot is assembled
//! ([`synth::describe`]); [`synth::derive`] runs the whole pipeline, which
//! aborts fatally — with no partial artifact — on an unsupported shape or
//! on a field type without a canonical default value.
//!
//! The operations themselves live on [`record::Record`]: `get`, `get_mut`,
//! `set`, `take` and `replace` dispatch by flat string equality over one
//! type group's member names, `swap` over the enumerated pairs, `getenum`
//! over every field, and `getstructinfo` rebuilds the snapshot afresh.
//! Mutating operations take the record by exclusive borrow and readers by
//! shared borrow, so callers serialize writes exactly as Rust's borrows
//! demand. Each operation's contract is stated against a mathematical model
//! of the record, and [`laws`] proves, once for every record and input, the
//! round-trip, take/default, replace, swap-involution, variant-identity,
//! introspection-completeness and unknown-name-stability properties, as
//! well as that the direct lookups dispatch exactly over the synthesized
//! group and pair tables.

#![verifier::loop_isolation(false)]

pub mod error;
pub mod laws;
pub mod record;
pub mod schema;
pub mod synth;
pub mod value;
