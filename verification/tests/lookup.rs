//! Tests of the reverse mapping builder and of first-match lookup.

use beerec_variants::build_artifacts;
use beerec_variants::policy::{TypePolicy, ValuePolicy};
use beerec_variants::reverse::{lookup, LookupError};
use beerec_variants::symbol::{Symbol, SymbolTable};

fn sym(identifier: &str) -> Symbol {
    Symbol {
        identifier: identifier.as_bytes().to_vec(),
        primary_policy: None,
        abbr_policy: None,
        skip: false,
    }
}

fn bytes(text: &str) -> Vec<u8> {
    text.as_bytes().to_vec()
}

fn table(symbols: Vec<Symbol>) -> SymbolTable {
    SymbolTable {
        symbols,
        type_primary_policy: None,
        type_abbr_policy: None,
        emit_display: true,
        emit_from_str: true,
    }
}

#[test]
fn round_trip_primary_and_abbreviated() {
    // Every non-skipped symbol is found under both of its resolved names.
    let mut t = table(vec![sym("Spring"), sym("Summer"), sym("Autumn"), sym("Winter")]);
    t.type_abbr_policy = Some(TypePolicy::Lowercase);
    let artifacts = build_artifacts(&t);
    for (position, name) in artifacts.resolved.names.iter().enumerate() {
        assert_eq!(Ok(position), lookup(&artifacts.reverse_map, &name.primary));
        assert_eq!(Ok(position), lookup(&artifacts.reverse_map, &name.abbreviated));
    }
    assert_eq!(Ok(2), lookup(&artifacts.reverse_map, &bytes("Autumn")));
    assert_eq!(Ok(2), lookup(&artifacts.reverse_map, &bytes("aut")));
}

#[test]
fn lookup_misses_yield_not_found() {
    let artifacts = build_artifacts(&table(vec![sym("Xml"), sym("Csv")]));
    assert_eq!(Err(LookupError::NotFound), lookup(&artifacts.reverse_map, &bytes("Json")));
    // Lookup is exact, byte for byte: no case folding is applied.
    assert_eq!(Err(LookupError::NotFound), lookup(&artifacts.reverse_map, &bytes("xml")));
    assert_eq!(Err(LookupError::NotFound), lookup(&artifacts.reverse_map, &bytes("")));
}

#[test]
fn skipped_symbol_is_not_found() {
    let mut monday = sym("Monday");
    monday.skip = true;
    let artifacts = build_artifacts(&table(vec![monday, sym("Tuesday")]));
    assert_eq!(Err(LookupError::NotFound), lookup(&artifacts.reverse_map, &bytes("Monday")));
    assert_eq!(Err(LookupError::NotFound), lookup(&artifacts.reverse_map, &bytes("Mon")));
    assert_eq!(Ok(1), lookup(&artifacts.reverse_map, &bytes("Tuesday")));
}

#[test]
fn colliding_keys_prefer_the_earlier_symbol() {
    // Both symbols abbreviate to "Win"; the earlier-declared one silently
    // shadows the later in a first-match lookup.
    let artifacts = build_artifacts(&table(vec![sym("Windows"), sym("WinterStorm")]));
    assert_eq!(bytes("Win"), artifacts.resolved.names[0].abbreviated);
    assert_eq!(bytes("Win"), artifacts.resolved.names[1].abbreviated);
    assert_eq!(Ok(0), lookup(&artifacts.reverse_map, &bytes("Win")));
    // The full primary names stay distinct and both remain reachable.
    assert_eq!(Ok(0), lookup(&artifacts.reverse_map, &bytes("Windows")));
    assert_eq!(Ok(1), lookup(&artifacts.reverse_map, &bytes("WinterStorm")));
}

#[test]
fn literal_override_key_is_exact() {
    let mut plain_text = sym("PlainText");
    plain_text.primary_policy = Some(ValuePolicy::Literal(bytes("plain-text")));
    plain_text.abbr_policy = Some(ValuePolicy::Literal(bytes("txt")));
    let artifacts = build_artifacts(&table(vec![sym("Xml"), plain_text]));
    assert_eq!(Ok(1), lookup(&artifacts.reverse_map, &bytes("plain-text")));
    assert_eq!(Ok(1), lookup(&artifacts.reverse_map, &bytes("txt")));
    // The raw identifier is not a key once a literal override exists.
    assert_eq!(Err(LookupError::NotFound), lookup(&artifacts.reverse_map, &bytes("PlainText")));
}
