//! A variant-naming resolution engine.
//!
//! Given an ordered table of symbols — enumerated values, each optionally
//! annotated with value-level naming overrides — and a pair of optional
//! type-wide default naming policies, the engine computes a canonical
//! (primary) and an abbreviated byte-string representation for every symbol,
//! together with the derived artifacts: the filtered iteration order, the
//! quoted comma-separated listings, and the string-to-symbol reverse lookup
//! table.

use vstd::prelude::*;

pub mod listing;
pub mod policy;
pub mod resolve;
pub mod reverse;
pub mod symbol;
pub mod text;

use crate::listing::{abbr_listing_spec, build_listing, iter_indices_spec, primary_listing_spec};
use crate::resolve::{resolve_table, resolved_matches, ResolvedTable};
use crate::reverse::{build_reverse_map, entry_pairs_spec, reverse_pairs_spec, ReverseEntry};
use crate::symbol::SymbolTable;

verus! {

/// Every artifact the engine derives from one symbol table.
pub struct Artifacts {
    /// The resolved naming table: one primary and one abbreviated name per
    /// symbol, skipped symbols included.
    pub resolved: ResolvedTable,
    /// The positions of the non-skipped symbols, in declaration order.
    pub iteration_order: Vec<usize>,
    /// The quoted, `", "`-joined listing of primary names of the
    /// non-skipped symbols.
    pub primary_listing: Vec<u8>,
    /// The quoted, `", "`-joined listing of abbreviated names of the
    /// non-skipped symbols.
    pub abbr_listing: Vec<u8>,
    /// The string-to-symbol reverse lookup table of the non-skipped
    /// symbols.
    pub reverse_map: Vec<ReverseEntry>,
}

/// Resolves `table` in a single pass and derives every artifact: the
/// resolved naming table, the filtered iteration order, the quoted
/// listings, and the reverse lookup map.
pub fn build_artifacts(table: &SymbolTable) -> (r: Artifacts)
    ensures
        resolved_matches(*table, r.resolved),
        r.iteration_order@.len() == iter_indices_spec(table.symbols@).len(),
        forall|t: int| 0 <= t < r.iteration_order@.len()
            ==> #[trigger] r.iteration_order@[t] as int == iter_indices_spec(table.symbols@)[t],
        r.primary_listing@ == primary_listing_spec(table.symbols@, table.type_primary_policy),
        r.abbr_listing@ == abbr_listing_spec(
            table.symbols@,
            table.type_primary_policy,
            table.type_abbr_policy,
        ),
        entry_pairs_spec(r.reverse_map@) == reverse_pairs_spec(
            table.symbols@,
            table.type_primary_policy,
            table.type_abbr_policy,
        ),
{
    let resolved = resolve_table(table);
    let (iteration_order, primary_listing, abbr_listing) = build_listing(table, &resolved);
    let reverse_map = build_reverse_map(table, &resolved);
    Artifacts { resolved, iteration_order, primary_listing, abbr_listing, reverse_map }
}

} // verus!
