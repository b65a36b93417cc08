//! The reverse mapping builder.
//!
//! Derives the string-to-symbol association table: every non-skipped symbol
//! contributes two match keys, its resolved primary name and its resolved
//! abbreviated name, both associated to the symbol's position. Lookup
//! returns the first entry, in declaration order, whose key equals the input
//! byte for byte; when two symbols resolve to the same key, the
//! earlier-declared one silently shadows the later, with no diagnostic.

use vstd::prelude::*;

use crate::policy::TypePolicy;
use crate::resolve::{abbr_spec, primary_spec, resolved_matches, ResolvedTable};
use crate::symbol::{Symbol, SymbolTable};
use crate::text::copy_bytes;

verus! {

/// One association of a match key with the position of the symbol it
/// resolves to.
#[derive(Debug, Clone)]
pub struct ReverseEntry {
    /// The match key: a resolved primary or abbreviated name.
    pub key: Vec<u8>,
    /// The position, in declaration order, of the symbol the key belongs to.
    pub symbol: usize,
}

/// The failure of a reverse lookup.
#[derive(Debug, Clone, Copy, PartialEq, Eq, Structural)]
pub enum LookupError {
    /// No key of the reverse map equals the input.
    NotFound,
}

/// The reverse map of `syms` as key/position pairs: for each non-skipped
/// symbol, in declaration order, its resolved primary name and then its
/// resolved abbreviated name, each paired with the symbol's position.
pub open spec fn reverse_pairs_spec(
    syms: Seq<Symbol>,
    type_primary: Option<TypePolicy>,
    type_abbr: Option<TypePolicy>,
) -> Seq<(Seq<u8>, int)>
    decreases syms.len(),
{
    if syms.len() == 0 {
        Seq::empty()
    } else {
        let prefix = reverse_pairs_spec(syms.drop_last(), type_primary, type_abbr);
        let last = syms.last();
        if !last.skip {
            prefix + seq![
                (primary_spec(last, type_primary), syms.len() - 1),
                (abbr_spec(last, type_primary, type_abbr), syms.len() - 1),
            ]
        } else {
            prefix
        }
    }
}

/// The position held by the first pair whose key equals `key`, if any.
pub open spec fn find_first_spec(pairs: Seq<(Seq<u8>, int)>, key: Seq<u8>) -> Option<int>
    decreases pairs.len(),
{
    if pairs.len() == 0 {
        None
    } else if pairs[0].0 == key {
        Some(pairs[0].1)
    } else {
        find_first_spec(pairs.drop_first(), key)
    }
}

/// The key/position pairs held by a vector of reverse entries.
pub open spec fn entry_pairs_spec(entries: Seq<ReverseEntry>) -> Seq<(Seq<u8>, int)> {
    entries.map_values(|e: ReverseEntry| (e.key@, e.symbol as int))
}

/// Law: every pair of the reverse map points at a non-skipped symbol of the
/// table — a symbol with the skip flag set never appears in it.
pub proof fn lemma_reverse_pairs_skip(
    syms: Seq<Symbol>,
    type_primary: Option<TypePolicy>,
    type_abbr: Option<TypePolicy>,
)
    ensures
        forall|j: int| 0 <= j < reverse_pairs_spec(syms, type_primary, type_abbr).len() ==> {
            let p = #[trigger] reverse_pairs_spec(syms, type_primary, type_abbr)[j];
            0 <= p.1 < syms.len() && !syms[p.1].skip
        },
    decreases syms.len(),
{
    if syms.len() > 0 {
        lemma_reverse_pairs_skip(syms.drop_last(), type_primary, type_abbr);
        assert(syms.last() == syms[syms.len() - 1]);
        assert(forall|k: int| 0 <= k < syms.len() - 1 ==> #[trigger] syms.drop_last()[k]
            == syms[k]);
    }
}

/// Law: a table whose symbols all carry the skip flag derives an empty
/// reverse map.
pub proof fn lemma_all_skipped_reverse(
    syms: Seq<Symbol>,
    type_primary: Option<TypePolicy>,
    type_abbr: Option<TypePolicy>,
)
    requires
        forall|i: int| 0 <= i < syms.len() ==> (#[trigger] syms[i]).skip,
    ensures
        reverse_pairs_spec(syms, type_primary, type_abbr) == Seq::<(Seq<u8>, int)>::empty(),
    decreases syms.len(),
{
    if syms.len() > 0 {
        assert(forall|i: int| 0 <= i < syms.drop_last().len() ==> (#[trigger] syms.drop_last()[i]).skip);
        lemma_all_skipped_reverse(syms.drop_last(), type_primary, type_abbr);
        assert(syms.last() == syms[syms.len() - 1]);
    }
}

/// First-match lookup distributes over concatenation: the first half is
/// searched first, the second only when the first holds no match.
pub proof fn lemma_find_first_add(a: Seq<(Seq<u8>, int)>, b: Seq<(Seq<u8>, int)>, key: Seq<u8>)
    ensures
        find_first_spec(a + b, key) == if find_first_spec(a, key) is Some {
            find_first_spec(a, key)
        } else {
            find_first_spec(b, key)
        },
    decreases a.len(),
{
    if a.len() == 0 {
        assert(a + b =~= b);
    } else {
        assert((a + b)[0] == a[0]);
        assert((a + b).drop_first() =~= a.drop_first() + b);
        lemma_find_first_add(a.drop_first(), b, key);
    }
}

/// Law: a key that no non-skipped symbol resolves to, neither as primary
/// nor as abbreviated name, is found nowhere in the reverse map.
pub proof fn lemma_reverse_find_none(
    syms: Seq<Symbol>,
    type_primary: Option<TypePolicy>,
    type_abbr: Option<TypePolicy>,
    key: Seq<u8>,
)
    requires
        forall|j: int| 0 <= j < syms.len() && !(#[trigger] syms[j]).skip ==> primary_spec(
            syms[j],
            type_primary,
        ) != key && abbr_spec(syms[j], type_primary, type_abbr) != key,
    ensures
        find_first_spec(reverse_pairs_spec(syms, type_primary, type_abbr), key) is None,
    decreases syms.len(),
{
    if syms.len() > 0 {
        let prefix = reverse_pairs_spec(syms.drop_last(), type_primary, type_abbr);
        assert(forall|j: int| 0 <= j < syms.len() - 1 ==> #[trigger] syms.drop_last()[j]
            == syms[j]);
        lemma_reverse_find_none(syms.drop_last(), type_primary, type_abbr, key);
        let last = syms.last();
        assert(last == syms[syms.len() - 1]);
        if !last.skip {
            let tail = seq![
                (primary_spec(last, type_primary), syms.len() - 1),
                (abbr_spec(last, type_primary, type_abbr), syms.len() - 1),
            ];
            lemma_find_first_add(prefix, tail, key);
            assert(tail[0].0 != key);
            assert(tail.drop_first() =~= seq![
                (abbr_spec(last, type_primary, type_abbr), syms.len() - 1),
            ]);
            assert(tail.drop_first()[0].0 != key);
            assert(tail.drop_first().drop_first() =~= Seq::<(Seq<u8>, int)>::empty());
            assert(find_first_spec(tail.drop_first().drop_first(), key) is None);
            assert(find_first_spec(tail.drop_first(), key) is None);
            assert(find_first_spec(tail, key) is None);
        }
    }
}

/// Law: reverse lookup round-trip. A non-skipped symbol that resolves to
/// `key` — as its primary or as its abbreviated name — and is not shadowed
/// by an earlier-declared symbol resolving to the same key, is the symbol
/// the lookup of `key` returns.
pub proof fn lemma_reverse_round_trip(
    syms: Seq<Symbol>,
    type_primary: Option<TypePolicy>,
    type_abbr: Option<TypePolicy>,
    i: int,
    key: Seq<u8>,
)
    requires
        0 <= i < syms.len(),
        !syms[i].skip,
        primary_spec(syms[i], type_primary) == key || abbr_spec(syms[i], type_primary, type_abbr)
            == key,
        forall|j: int| 0 <= j < i && !(#[trigger] syms[j]).skip ==> primary_spec(
            syms[j],
            type_primary,
        ) != key && abbr_spec(syms[j], type_primary, type_abbr) != key,
    ensures
        find_first_spec(reverse_pairs_spec(syms, type_primary, type_abbr), key) == Some(i),
    decreases syms.len(),
{
    let prefix_syms = syms.drop_last();
    let prefix = reverse_pairs_spec(prefix_syms, type_primary, type_abbr);
    let last = syms.last();
    assert(last == syms[syms.len() - 1]);
    assert(forall|k: int| 0 <= k < syms.len() - 1 ==> #[trigger] prefix_syms[k] == syms[k]);
    if i == syms.len() - 1 {
        lemma_reverse_find_none(prefix_syms, type_primary, type_abbr, key);
        let tail = seq![
            (primary_spec(last, type_primary), syms.len() - 1),
            (abbr_spec(last, type_primary, type_abbr), syms.len() - 1),
        ];
        lemma_find_first_add(prefix, tail, key);
        if primary_spec(last, type_primary) == key {
            assert(find_first_spec(tail, key) == Some(i));
        } else {
            assert(tail[0].0 != key);
            assert(tail.drop_first() =~= seq![
                (abbr_spec(last, type_primary, type_abbr), syms.len() - 1),
            ]);
            assert(find_first_spec(tail.drop_first(), key) == Some(i));
        }
    } else {
        lemma_reverse_round_trip(prefix_syms, type_primary, type_abbr, i, key);
        if !last.skip {
            let tail = seq![
                (primary_spec(last, type_primary), syms.len() - 1),
                (abbr_spec(last, type_primary, type_abbr), syms.len() - 1),
            ];
            lemma_find_first_add(prefix, tail, key);
        }
    }
}

/// Builds the reverse map of `table`: two entries, resolved primary name
/// first, per non-skipped symbol, in declaration order.
pub fn build_reverse_map(table: &SymbolTable, resolved: &ResolvedTable) -> (r: Vec<ReverseEntry>)
    requires
        resolved_matches(*table, *resolved),
    ensures
        entry_pairs_spec(r@) == reverse_pairs_spec(
            table.symbols@,
            table.type_primary_policy,
            table.type_abbr_policy,
        ),
        forall|j: int| 0 <= j < r@.len() ==> #[trigger] r@[j].symbol < table.symbols@.len(),
{
    let n: usize = table.symbols.len();
    let mut r: Vec<ReverseEntry> = Vec::new();
    let mut i: usize = 0;
    while i < n
        invariant
            i <= n,
            n == table.symbols@.len(),
            resolved_matches(*table, *resolved),
            entry_pairs_spec(r@) == reverse_pairs_spec(
                table.symbols@.take(i as int),
                table.type_primary_policy,
                table.type_abbr_policy,
            ),
            forall|j: int| 0 <= j < r@.len() ==> #[trigger] r@[j].symbol < i,
        decreases n - i,
    {
        let ghost pre = table.symbols@.take(i as int);
        let ghost post = table.symbols@.take(i + 1);
        if !table.symbols[i].skip {
            let primary = copy_bytes(&resolved.names[i].primary);
            let abbreviated = copy_bytes(&resolved.names[i].abbreviated);
            r.push(ReverseEntry { key: primary, symbol: i });
            r.push(ReverseEntry { key: abbreviated, symbol: i });
        }
        proof {
            assert(post.drop_last() =~= pre);
            assert(post.last() == table.symbols@[i as int]);
            assert(entry_pairs_spec(r@) =~= reverse_pairs_spec(
                post,
                table.type_primary_policy,
                table.type_abbr_policy,
            ));
        }
        i = i + 1;
    }
    proof {
        assert(table.symbols@.take(n as int) =~= table.symbols@);
    }
    r
}

/// Tests two byte strings for equality, byte for byte.
fn bytes_eq(a: &Vec<u8>, b: &Vec<u8>) -> (r: bool)
    ensures
        r == (a@ == b@),
{
    if a.len() != b.len() {
        proof {
            assert(a@.len() != b@.len());
        }
        return false;
    }
    let n: usize = a.len();
    let mut i: usize = 0;
    while i < n
        invariant
            i <= n,
            n == a@.len(),
            n == b@.len(),
            forall|k: int| 0 <= k < i ==> a@[k] == b@[k],
        decreases n - i,
    {
        if a[i] != b[i] {
            return false;
        }
        i = i + 1;
    }
    proof {
        assert(a@ =~= b@);
    }
    true
}

/// Looks `key` up in the reverse map: returns the position held by the
/// first entry, in declaration order, whose key equals the input exactly,
/// byte for byte — no case folding is applied at lookup time — or
/// `LookupError::NotFound` when no key matches.
pub fn lookup(map: &Vec<ReverseEntry>, key: &Vec<u8>) -> (r: Result<usize, LookupError>)
    ensures
        match r {
            Ok(position) => find_first_spec(entry_pairs_spec(map@), key@) == Some(
                position as int,
            ),
            Err(LookupError::NotFound) => find_first_spec(entry_pairs_spec(map@), key@) is None,
        },
{
    let ghost pairs = entry_pairs_spec(map@);
    let n: usize = map.len();
    let mut i: usize = 0;
    proof {
        assert(pairs.skip(0) =~= pairs);
    }
    while i < n
        invariant
            i <= n,
            n == map@.len(),
            pairs == entry_pairs_spec(map@),
            find_first_spec(pairs, key@) == find_first_spec(pairs.skip(i as int), key@),
        decreases n - i,
    {
        let hit = bytes_eq(&map[i].key, key);
        proof {
            assert(pairs.skip(i as int).len() == n - i);
            assert(pairs.skip(i as int)[0] == pairs[i as int]);
            assert(pairs.skip(i as int).drop_first() =~= pairs.skip(i + 1));
        }
        if hit {
            return Ok(map[i].symbol);
        }
        i = i + 1;
    }
    proof {
        assert(pairs.skip(n as int) =~= Seq::<(Seq<u8>, int)>::empty());
    }
    Err(LookupError::NotFound)
}

} // verus!
