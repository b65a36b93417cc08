//! The resolution engine.
//!
//! Pure transforms computing, for each symbol, the final primary and
//! abbreviated byte strings, by a precedence cascade evaluated first-match
//! wins: the value-level policy of the symbol beats the type-level policy of
//! the table, which beats the raw identifier.

use vstd::prelude::*;

use crate::policy::{TypePolicy, ValuePolicy};
use crate::symbol::{Symbol, SymbolTable};
use crate::text::{abbr_bytes, copy_bytes, lower_bytes, to_abbr_in_place, to_lowercase_in_place,
    to_uppercase_in_place, upper_bytes};

verus! {

/// The resolved primary name of `sym` under the type-level fallback
/// `type_primary`. Cascade, first match wins: a value-level literal is
/// returned verbatim; a value-level case policy folds the raw identifier; a
/// type-level case policy folds the raw identifier; otherwise the identifier
/// is returned unchanged.
pub open spec fn primary_spec(sym: Symbol, type_primary: Option<TypePolicy>) -> Seq<u8> {
    match sym.primary_policy {
        Some(ValuePolicy::Literal(text)) => text@,
        Some(ValuePolicy::Uppercase) => upper_bytes(sym.identifier@),
        Some(ValuePolicy::Lowercase) => lower_bytes(sym.identifier@),
        None => match type_primary {
            Some(TypePolicy::Uppercase) => upper_bytes(sym.identifier@),
            Some(TypePolicy::Lowercase) => lower_bytes(sym.identifier@),
            None => sym.identifier@,
        },
    }
}

/// The value-level primary base of `sym`: the primary cascade restricted to
/// the value level, with no type-level fallback. This is the base string the
/// abbreviation cascade case-folds before truncating.
pub open spec fn value_base_spec(sym: Symbol) -> Seq<u8> {
    match sym.primary_policy {
        Some(ValuePolicy::Literal(text)) => text@,
        Some(ValuePolicy::Uppercase) => upper_bytes(sym.identifier@),
        Some(ValuePolicy::Lowercase) => lower_bytes(sym.identifier@),
        None => sym.identifier@,
    }
}

/// The resolved abbreviated name of `sym`. Cascade, first match wins: a
/// value-level literal is returned verbatim and never truncated; a value- or
/// type-level case policy folds the value-level primary base and truncates
/// it to three bytes; with no abbreviation policy at all, the fully resolved
/// primary name is truncated to three bytes with no case change.
pub open spec fn abbr_spec(
    sym: Symbol,
    type_primary: Option<TypePolicy>,
    type_abbr: Option<TypePolicy>,
) -> Seq<u8> {
    match sym.abbr_policy {
        Some(ValuePolicy::Literal(text)) => text@,
        Some(ValuePolicy::Uppercase) => abbr_bytes(upper_bytes(value_base_spec(sym))),
        Some(ValuePolicy::Lowercase) => abbr_bytes(lower_bytes(value_base_spec(sym))),
        None => match type_abbr {
            Some(TypePolicy::Uppercase) => abbr_bytes(upper_bytes(value_base_spec(sym))),
            Some(TypePolicy::Lowercase) => abbr_bytes(lower_bytes(value_base_spec(sym))),
            None => abbr_bytes(primary_spec(sym, type_primary)),
        },
    }
}

/// Computes the resolved primary name of `sym`.
pub fn resolve_primary(sym: &Symbol, type_primary: Option<TypePolicy>) -> (r: Vec<u8>)
    ensures
        r@ == primary_spec(*sym, type_primary),
{
    match &sym.primary_policy {
        Some(ValuePolicy::Literal(text)) => copy_bytes(text),
        Some(ValuePolicy::Uppercase) => sym.to_uppercase_string(),
        Some(ValuePolicy::Lowercase) => sym.to_lowercase_string(),
        None => match type_primary {
            Some(TypePolicy::Uppercase) => sym.to_uppercase_string(),
            Some(TypePolicy::Lowercase) => sym.to_lowercase_string(),
            None => copy_bytes(&sym.identifier),
        },
    }
}

/// Computes the value-level primary base of `sym`.
pub fn resolve_value_base(sym: &Symbol) -> (r: Vec<u8>)
    ensures
        r@ == value_base_spec(*sym),
{
    match &sym.primary_policy {
        Some(ValuePolicy::Literal(text)) => copy_bytes(text),
        Some(ValuePolicy::Uppercase) => sym.to_uppercase_string(),
        Some(ValuePolicy::Lowercase) => sym.to_lowercase_string(),
        None => copy_bytes(&sym.identifier),
    }
}

/// Computes the resolved abbreviated name of `sym`.
pub fn resolve_abbr(
    sym: &Symbol,
    type_primary: Option<TypePolicy>,
    type_abbr: Option<TypePolicy>,
) -> (r: Vec<u8>)
    ensures
        r@ == abbr_spec(*sym, type_primary, type_abbr),
{
    match &sym.abbr_policy {
        Some(ValuePolicy::Literal(text)) => copy_bytes(text),
        Some(ValuePolicy::Uppercase) => to_abbr_in_place(
            to_uppercase_in_place(resolve_value_base(sym)),
        ),
        Some(ValuePolicy::Lowercase) => to_abbr_in_place(
            to_lowercase_in_place(resolve_value_base(sym)),
        ),
        None => match type_abbr {
            Some(TypePolicy::Uppercase) => to_abbr_in_place(
                to_uppercase_in_place(resolve_value_base(sym)),
            ),
            Some(TypePolicy::Lowercase) => to_abbr_in_place(
                to_lowercase_in_place(resolve_value_base(sym)),
            ),
            None => to_abbr_in_place(resolve_primary(sym, type_primary)),
        },
    }
}

/// The number of symbols of `syms` with the skip flag unset.
pub open spec fn iterable_count_spec(syms: Seq<Symbol>) -> nat
    decreases syms.len(),
{
    if syms.len() == 0 {
        0
    } else {
        iterable_count_spec(syms.drop_last()) + if !syms.last().skip {
            1nat
        } else {
            0nat
        }
    }
}

/// The pair of resolved names of one symbol.
#[derive(Debug, Clone)]
pub struct ResolvedName {
    /// The canonical, full-length representation.
    pub primary: Vec<u8>,
    /// The shortened representation.
    pub abbreviated: Vec<u8>,
}

/// The resolved naming table: one pair of names per symbol of the input
/// table, in declaration order (skipped symbols included — skip affects
/// iteration, listing and lookup, not resolution), plus the count of
/// iterable symbols.
#[derive(Debug, Clone)]
pub struct ResolvedTable {
    /// The resolved names, indexed as the symbols of the input table.
    pub names: Vec<ResolvedName>,
    /// The number of symbols with the skip flag unset.
    pub iterable_count: usize,
}

/// `resolved` is the resolved naming table of `table`.
pub open spec fn resolved_matches(table: SymbolTable, resolved: ResolvedTable) -> bool {
    &&& resolved.names@.len() == table.symbols@.len()
    &&& forall|i: int| 0 <= i < table.symbols@.len() ==> {
        &&& (#[trigger] resolved.names@[i]).primary@ == primary_spec(
            table.symbols@[i],
            table.type_primary_policy,
        )
        &&& resolved.names@[i].abbreviated@ == abbr_spec(
            table.symbols@[i],
            table.type_primary_policy,
            table.type_abbr_policy,
        )
    }
    &&& resolved.iterable_count == iterable_count_spec(table.symbols@)
}

/// Resolves every symbol of `table`, producing the resolved naming table.
pub fn resolve_table(table: &SymbolTable) -> (r: ResolvedTable)
    ensures
        resolved_matches(*table, r),
{
    let n: usize = table.symbols.len();
    let mut names: Vec<ResolvedName> = Vec::new();
    let mut iterable_count: usize = 0;
    let mut i: usize = 0;
    while i < n
        invariant
            i <= n,
            n == table.symbols@.len(),
            names@.len() == i,
            forall|k: int| 0 <= k < i ==> {
                &&& (#[trigger] names@[k]).primary@ == primary_spec(
                    table.symbols@[k],
                    table.type_primary_policy,
                )
                &&& names@[k].abbreviated@ == abbr_spec(
                    table.symbols@[k],
                    table.type_primary_policy,
                    table.type_abbr_policy,
                )
            },
            iterable_count == iterable_count_spec(table.symbols@.take(i as int)),
            iterable_count <= i,
        decreases n - i,
    {
        let sym = &table.symbols[i];
        let primary = resolve_primary(sym, table.type_primary_policy);
        let abbreviated = resolve_abbr(sym, table.type_primary_policy, table.type_abbr_policy);
        names.push(ResolvedName { primary, abbreviated });
        if !sym.skip {
            iterable_count = iterable_count + 1;
        }
        proof {
            let pre = table.symbols@.take(i as int);
            let post = table.symbols@.take(i + 1);
            assert(post.drop_last() =~= pre);
            assert(post.last() == table.symbols@[i as int]);
        }
        i = i + 1;
    }
    proof {
        assert(table.symbols@.take(n as int) =~= table.symbols@);
    }
    ResolvedTable { names, iterable_count }
}

/// Law: a symbol with no value-level primary policy, resolved under no
/// type-level primary policy, keeps its identifier unchanged.
pub proof fn lemma_primary_default_identity(sym: Symbol)
    requires
        sym.primary_policy is None,
    ensures
        primary_spec(sym, None) == sym.identifier@,
{
}

/// Law: a value-level primary policy always wins over any type-level policy
/// — the resolved primary name is then independent of the type-level policy
/// — and a value-level literal override is returned byte for byte.
pub proof fn lemma_primary_value_precedence(
    sym: Symbol,
    a: Option<TypePolicy>,
    b: Option<TypePolicy>,
)
    requires
        sym.primary_policy is Some,
    ensures
        primary_spec(sym, a) == primary_spec(sym, b),
        (sym.primary_policy matches Some(ValuePolicy::Literal(text)) ==> primary_spec(sym, a)
            == text@),
{
}

/// Law: a value-level abbreviation policy always wins — the resolved
/// abbreviated name is then independent of both type-level policies — and a
/// value-level literal override is returned byte for byte.
pub proof fn lemma_abbr_value_precedence(
    sym: Symbol,
    primary_a: Option<TypePolicy>,
    abbr_a: Option<TypePolicy>,
    primary_b: Option<TypePolicy>,
    abbr_b: Option<TypePolicy>,
)
    requires
        sym.abbr_policy is Some,
    ensures
        abbr_spec(sym, primary_a, abbr_a) == abbr_spec(sym, primary_b, abbr_b),
        (sym.abbr_policy matches Some(ValuePolicy::Literal(text)) ==> abbr_spec(
            sym,
            primary_a,
            abbr_a,
        ) == text@),
{
}

/// Law: on every non-literal path the abbreviated name holds at most three
/// bytes; a literal abbreviation override is trusted as is and never
/// truncated.
pub proof fn lemma_abbr_len(sym: Symbol, type_primary: Option<TypePolicy>, type_abbr: Option<
    TypePolicy,
>)
    ensures
        !(sym.abbr_policy matches Some(ValuePolicy::Literal(_))) ==> abbr_spec(
            sym,
            type_primary,
            type_abbr,
        ).len() <= 3,
        (sym.abbr_policy matches Some(ValuePolicy::Literal(text)) ==> abbr_spec(
            sym,
            type_primary,
            type_abbr,
        ) == text@),
{
}

} // verus!
