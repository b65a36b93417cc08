//! The symbol table: the engine's input.

use vstd::prelude::*;

use crate::policy::{TypePolicy, ValuePolicy};
use crate::text::{
    abbr_bytes, copy_bytes, lower_bytes, to_abbr_in_place, to_lowercase_in_place,
    to_uppercase_in_place, upper_bytes,
};

verus! {

/// One enumerated value together with its naming configuration.
///
/// The identifier is fixed at construction and is assumed unique within its
/// table; the engine does not re-validate uniqueness.
#[derive(Debug, Clone)]
pub struct Symbol {
    /// The raw identifier of the symbol, as a byte string.
    pub identifier: Vec<u8>,
    /// The rename strategy for the symbol's primary string representation,
    /// if one was configured for this symbol.
    pub primary_policy: Option<ValuePolicy>,
    /// The rename strategy for the symbol's abbreviated string
    /// representation, if one was configured for this symbol.
    pub abbr_policy: Option<ValuePolicy>,
    /// Whether the symbol is excluded from iteration, from the listings and
    /// from the reverse lookup table.
    pub skip: bool,
}

impl Symbol {
    /// Converts the identifier to an ASCII-uppercase byte string.
    pub fn to_uppercase_string(&self) -> (r: Vec<u8>)
        ensures
            r@ == upper_bytes(self.identifier@),
    {
        to_uppercase_in_place(copy_bytes(&self.identifier))
    }

    /// Converts the identifier to an ASCII-lowercase byte string.
    pub fn to_lowercase_string(&self) -> (r: Vec<u8>)
        ensures
            r@ == lower_bytes(self.identifier@),
    {
        to_lowercase_in_place(copy_bytes(&self.identifier))
    }

    /// Converts the identifier to an abbreviated byte string.
    pub fn to_string_abbr(&self) -> (r: Vec<u8>)
        ensures
            r@ == abbr_bytes(self.identifier@),
    {
        to_abbr_in_place(copy_bytes(&self.identifier))
    }

    /// Converts the identifier to an ASCII-uppercase abbreviated byte
    /// string. Case folding and abbreviation commute, so both orders of the
    /// two steps describe the result.
    pub fn to_uppercase_string_abbr(&self) -> (r: Vec<u8>)
        ensures
            r@ == upper_bytes(abbr_bytes(self.identifier@)),
            r@ == abbr_bytes(upper_bytes(self.identifier@)),
    {
        let r = to_uppercase_in_place(self.to_string_abbr());
        proof {
            assert(r@ =~= abbr_bytes(upper_bytes(self.identifier@)));
        }
        r
    }

    /// Converts the identifier to an ASCII-lowercase abbreviated byte
    /// string. Case folding and abbreviation commute, so both orders of the
    /// two steps describe the result.
    pub fn to_lowercase_string_abbr(&self) -> (r: Vec<u8>)
        ensures
            r@ == lower_bytes(abbr_bytes(self.identifier@)),
            r@ == abbr_bytes(lower_bytes(self.identifier@)),
    {
        let r = to_lowercase_in_place(self.to_string_abbr());
        proof {
            assert(r@ =~= abbr_bytes(lower_bytes(self.identifier@)));
        }
        r
    }
}

/// The ordered collection of symbols for one enumerated type, together with
/// the type-wide default policies and the feature flags of the surfaces the
/// consumer asked for.
///
/// The order of `symbols` is declaration order; it is significant both for
/// iteration and for first-match reverse lookup.
#[derive(Debug, Clone)]
pub struct SymbolTable {
    /// The symbols, in declaration order.
    pub symbols: Vec<Symbol>,
    /// The type-level fallback policy for primary names.
    pub type_primary_policy: Option<TypePolicy>,
    /// The type-level fallback policy for abbreviated names.
    pub type_abbr_policy: Option<TypePolicy>,
    /// Whether the consumer asked for a stringification surface.
    pub emit_display: bool,
    /// Whether the consumer asked for a reverse-lookup surface.
    pub emit_from_str: bool,
}

} // verus!
