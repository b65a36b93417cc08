//! Naming policies.
//!
//! Two independent policy domains exist. A value-level policy is attached to
//! one symbol and may replace its name outright with a literal byte string,
//! or fold the case of the current base string. A type-level policy is
//! attached to the whole table, acts only as a fallback when a symbol has no
//! value-level policy, and offers no literal form.

use vstd::prelude::*;

verus! {

/// Rename strategy attached to a single symbol.
#[derive(Debug, Clone)]
pub enum ValuePolicy {
    /// Replaces the symbol's string representation with the given bytes,
    /// verbatim.
    Literal(Vec<u8>),
    /// Converts the symbol's string representation to ASCII uppercase.
    Uppercase,
    /// Converts the symbol's string representation to ASCII lowercase.
    Lowercase,
}

/// Rename strategy attached to the whole symbol table, used as a fallback
/// for symbols that carry no value-level policy of their own.
#[derive(Debug, Clone, Copy)]
pub enum TypePolicy {
    /// Converts the symbol's string representation to ASCII uppercase.
    Uppercase,
    /// Converts the symbol's string representation to ASCII lowercase.
    Lowercase,
}

} // verus!
