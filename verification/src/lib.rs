//! Codon usage tables: which amino acid a codon encodes, and which codons are
//! synonymous, for one species.
//!
//! A [`CodonTable`] is made empty and loaded from the text of a usage
//! document, a JSON file. [`model::TableModel`] says what a table holds, and
//! [`laws`] what loading and the lookups guarantee.

pub mod codons;
pub mod document;
pub mod error;
pub mod json;
pub mod laws;
pub mod model;
pub mod table;

pub use document::AminoAcidUsage;
pub use error::LoadError;
pub use json::JsonValue;
pub use table::CodonTable;
