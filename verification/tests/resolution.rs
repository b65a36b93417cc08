//! Tests of the resolution cascade: primary names, abbreviated names,
//! precedence, case folding and truncation.

use beerec_variants::policy::{TypePolicy, ValuePolicy};
use beerec_variants::resolve::{resolve_abbr, resolve_primary, resolve_table};
use beerec_variants::symbol::{Symbol, SymbolTable};
use beerec_variants::text::{to_abbr_in_place, to_lowercase_in_place, to_uppercase_in_place};

fn sym(identifier: &str) -> Symbol {
    Symbol {
        identifier: identifier.as_bytes().to_vec(),
        primary_policy: None,
        abbr_policy: None,
        skip: false,
    }
}

fn bytes(text: &str) -> Vec<u8> {
    text.as_bytes().to_vec()
}

#[test]
fn primary_defaults_to_identifier() {
    // No value-level and no type-level policy: the identifier is unchanged.
    let s = sym("North");
    assert_eq!(bytes("North"), resolve_primary(&s, None));
}

#[test]
fn primary_type_level_uppercase() {
    let s = sym("North");
    assert_eq!(bytes("NORTH"), resolve_primary(&s, Some(TypePolicy::Uppercase)));
}

#[test]
fn primary_type_level_lowercase() {
    let s = sym("North");
    assert_eq!(bytes("north"), resolve_primary(&s, Some(TypePolicy::Lowercase)));
}

#[test]
fn primary_value_level_beats_type_level() {
    // A value-level literal wins over any type-level policy.
    let mut s = sym("PlainText");
    s.primary_policy = Some(ValuePolicy::Literal(bytes("plain-text")));
    assert_eq!(bytes("plain-text"), resolve_primary(&s, None));
    assert_eq!(bytes("plain-text"), resolve_primary(&s, Some(TypePolicy::Uppercase)));
    assert_eq!(bytes("plain-text"), resolve_primary(&s, Some(TypePolicy::Lowercase)));

    // A value-level case policy wins over the opposite type-level policy.
    let mut s = sym("Mixed");
    s.primary_policy = Some(ValuePolicy::Uppercase);
    assert_eq!(bytes("MIXED"), resolve_primary(&s, Some(TypePolicy::Lowercase)));
    s.primary_policy = Some(ValuePolicy::Lowercase);
    assert_eq!(bytes("mixed"), resolve_primary(&s, Some(TypePolicy::Uppercase)));
}

#[test]
fn abbr_value_level_beats_type_level() {
    let mut s = sym("Mixed");
    s.abbr_policy = Some(ValuePolicy::Literal(bytes("mixture")));
    assert_eq!(bytes("mixture"), resolve_abbr(&s, None, Some(TypePolicy::Uppercase)));
    s.abbr_policy = Some(ValuePolicy::Lowercase);
    assert_eq!(bytes("mix"), resolve_abbr(&s, None, Some(TypePolicy::Uppercase)));
}

#[test]
fn abbr_is_at_most_three_bytes_unless_literal() {
    let s = sym("Saturday");
    assert_eq!(bytes("Sat"), resolve_abbr(&s, None, None));
    assert_eq!(bytes("SAT"), resolve_abbr(&s, None, Some(TypePolicy::Uppercase)));
    assert_eq!(bytes("sat"), resolve_abbr(&s, None, Some(TypePolicy::Lowercase)));
    assert_eq!(bytes("SAT"), resolve_abbr(&s, Some(TypePolicy::Uppercase), None));

    // A literal abbreviation override is trusted as is, never truncated.
    let mut s = sym("Saturday");
    s.abbr_policy = Some(ValuePolicy::Literal(bytes("weekend-day")));
    assert_eq!(bytes("weekend-day"), resolve_abbr(&s, None, None));
}

#[test]
fn abbr_shorter_than_three_bytes_kept_whole() {
    let s = sym("Io");
    assert_eq!(bytes("Io"), resolve_abbr(&s, None, None));
    assert_eq!(bytes("IO"), resolve_abbr(&s, None, Some(TypePolicy::Uppercase)));
    let s = sym("");
    assert_eq!(bytes(""), resolve_primary(&s, Some(TypePolicy::Uppercase)));
    assert_eq!(bytes(""), resolve_abbr(&s, None, None));
}

#[test]
fn case_folding_is_ascii_only() {
    // Non-ASCII bytes pass through both case transforms unchanged.
    let s = sym("Giovedì");
    assert_eq!(bytes("GIOVEDì"), resolve_primary(&s, Some(TypePolicy::Uppercase)));
    assert_eq!(bytes("giovedì"), resolve_primary(&s, Some(TypePolicy::Lowercase)));
}

#[test]
fn uppercasing_already_uppercase_is_no_op() {
    let folded = to_uppercase_in_place(bytes("AbC-12z"));
    assert_eq!(bytes("ABC-12Z"), folded);
    assert_eq!(folded.clone(), to_uppercase_in_place(folded));

    let folded = to_lowercase_in_place(bytes("AbC-12z"));
    assert_eq!(bytes("abc-12z"), folded);
    assert_eq!(folded.clone(), to_lowercase_in_place(folded));
}

#[test]
fn truncation_counts_bytes_not_characters() {
    // "éé" encodes as four bytes; the abbreviation keeps the first three,
    // splitting the second character.
    let text = "\u{e9}\u{e9}".as_bytes().to_vec();
    assert_eq!(vec![0xC3, 0xA9, 0xC3], to_abbr_in_place(text));
}

#[test]
fn monday_under_type_policies() {
    // Type-level rename uppercase and rename_abbr lowercase, no overrides.
    let s = sym("Monday");
    let primary = resolve_primary(&s, Some(TypePolicy::Uppercase));
    let abbr = resolve_abbr(&s, Some(TypePolicy::Uppercase), Some(TypePolicy::Lowercase));
    assert_eq!(bytes("MONDAY"), primary);
    assert_eq!(bytes("mon"), abbr);
}

#[test]
fn tuesday_with_value_overrides() {
    // Value-level literal rename and uppercase rename_abbr, no type-level
    // policy: the abbreviation uppercases the value-level base.
    let mut s = sym("Tuesday");
    s.primary_policy = Some(ValuePolicy::Literal(bytes("DayAfterMonday")));
    s.abbr_policy = Some(ValuePolicy::Uppercase);
    assert_eq!(bytes("DayAfterMonday"), resolve_primary(&s, None));
    assert_eq!(bytes("DAY"), resolve_abbr(&s, None, None));
}

#[test]
fn wednesday_truncates_resolved_primary() {
    // No abbreviation policy at either level: the fully resolved primary
    // name is truncated with no case change.
    let s = sym("Wednesday");
    assert_eq!(bytes("Wednesday"), resolve_primary(&s, None));
    assert_eq!(bytes("Wed"), resolve_abbr(&s, None, None));
}

#[test]
fn resolve_table_keeps_skipped_symbols() {
    // Resolution covers every symbol; skip only affects iteration, listing
    // and lookup.
    let mut skipped = sym("Hidden");
    skipped.skip = true;
    let table = SymbolTable {
        symbols: vec![skipped, sym("Shown")],
        type_primary_policy: Some(TypePolicy::Lowercase),
        type_abbr_policy: None,
        emit_display: true,
        emit_from_str: true,
    };
    let resolved = resolve_table(&table);
    assert_eq!(2, resolved.names.len());
    assert_eq!(bytes("hidden"), resolved.names[0].primary);
    assert_eq!(bytes("hid"), resolved.names[0].abbreviated);
    assert_eq!(bytes("shown"), resolved.names[1].primary);
    assert_eq!(1, resolved.iterable_count);
}
