//! The iteration/listing builder.
//!
//! Derives, from a symbol table and its resolved names, the filtered
//! iteration order and the quoted, comma-separated listing strings. A symbol
//! with the skip flag set is entirely absent from all three artifacts.

use vstd::prelude::*;

use crate::policy::TypePolicy;
use crate::resolve::{abbr_spec, iterable_count_spec, primary_spec, resolved_matches,
    ResolvedTable};
use crate::symbol::{Symbol, SymbolTable};
use crate::text::copy_bytes;

verus! {

/// The indices of the symbols of `syms` with the skip flag unset, in
/// declaration order.
pub open spec fn iter_indices_spec(syms: Seq<Symbol>) -> Seq<int>
    decreases syms.len(),
{
    if syms.len() == 0 {
        Seq::empty()
    } else {
        let prefix = iter_indices_spec(syms.drop_last());
        if !syms.last().skip {
            prefix.push(syms.len() - 1)
        } else {
            prefix
        }
    }
}

/// `s` wrapped in double quotes.
pub open spec fn quoted_spec(s: Seq<u8>) -> Seq<u8> {
    seq![34u8] + s + seq![34u8]
}

/// `items` joined with the literal separator `", "` (comma, single space).
/// No items yield the empty string.
pub open spec fn joined_spec(items: Seq<Seq<u8>>) -> Seq<u8>
    decreases items.len(),
{
    if items.len() == 0 {
        Seq::empty()
    } else if items.len() == 1 {
        items[0]
    } else {
        joined_spec(items.drop_last()) + seq![44u8, 32u8] + items.last()
    }
}

/// Each string individually double-quote-wrapped, then joined with `", "`.
pub open spec fn listing_of_spec(strs: Seq<Seq<u8>>) -> Seq<u8> {
    joined_spec(strs.map_values(|s: Seq<u8>| quoted_spec(s)))
}

/// The resolved primary names of the non-skipped symbols, in declaration
/// order.
pub open spec fn primary_strings_spec(syms: Seq<Symbol>, type_primary: Option<TypePolicy>) -> Seq<
    Seq<u8>,
> {
    iter_indices_spec(syms).map_values(|i: int| primary_spec(syms[i], type_primary))
}

/// The resolved abbreviated names of the non-skipped symbols, in
/// declaration order.
pub open spec fn abbr_strings_spec(
    syms: Seq<Symbol>,
    type_primary: Option<TypePolicy>,
    type_abbr: Option<TypePolicy>,
) -> Seq<Seq<u8>> {
    iter_indices_spec(syms).map_values(|i: int| abbr_spec(syms[i], type_primary, type_abbr))
}

/// The quoted, `", "`-joined listing of resolved primary names.
pub open spec fn primary_listing_spec(syms: Seq<Symbol>, type_primary: Option<TypePolicy>) -> Seq<
    u8,
> {
    listing_of_spec(primary_strings_spec(syms, type_primary))
}

/// The quoted, `", "`-joined listing of resolved abbreviated names.
pub open spec fn abbr_listing_spec(
    syms: Seq<Symbol>,
    type_primary: Option<TypePolicy>,
    type_abbr: Option<TypePolicy>,
) -> Seq<u8> {
    listing_of_spec(abbr_strings_spec(syms, type_primary, type_abbr))
}

/// Law: the iteration order is exactly the sub-sequence of indices of the
/// non-skipped symbols, in increasing declaration order, one entry per
/// iterable symbol; a symbol with the skip flag set never appears in it.
pub proof fn lemma_iter_indices(syms: Seq<Symbol>)
    ensures
        iter_indices_spec(syms).len() == iterable_count_spec(syms),
        forall|t: int| 0 <= t < iter_indices_spec(syms).len() ==> 0 <= #[trigger] iter_indices_spec(
            syms,
        )[t] < syms.len() && !syms[iter_indices_spec(syms)[t]].skip,
        forall|t1: int, t2: int| 0 <= t1 < t2 < iter_indices_spec(syms).len()
            ==> #[trigger] iter_indices_spec(syms)[t1] < #[trigger] iter_indices_spec(syms)[t2],
        forall|i: int| 0 <= i < syms.len() && !(#[trigger] syms[i]).skip ==> iter_indices_spec(
            syms,
        ).contains(i),
    decreases syms.len(),
{
    if syms.len() > 0 {
        let prefix = iter_indices_spec(syms.drop_last());
        let whole = iter_indices_spec(syms);
        lemma_iter_indices(syms.drop_last());
        assert forall|i: int| 0 <= i < syms.len() && !(#[trigger] syms[i]).skip implies
            whole.contains(i) by {
            if i < syms.len() - 1 {
                assert(syms.drop_last()[i] == syms[i]);
                assert(prefix.contains(i));
                let t = choose|t: int| 0 <= t < prefix.len() && prefix[t] == i;
                assert(whole[t] == i);
            } else {
                assert(whole[whole.len() - 1] == i);
            }
        }
    }
}

/// Law: a table whose symbols all carry the skip flag derives an empty
/// iteration order and empty listing strings.
pub proof fn lemma_all_skipped_listing(
    syms: Seq<Symbol>,
    type_primary: Option<TypePolicy>,
    type_abbr: Option<TypePolicy>,
)
    requires
        forall|i: int| 0 <= i < syms.len() ==> (#[trigger] syms[i]).skip,
    ensures
        iter_indices_spec(syms) == Seq::<int>::empty(),
        primary_listing_spec(syms, type_primary) == Seq::<u8>::empty(),
        abbr_listing_spec(syms, type_primary, type_abbr) == Seq::<u8>::empty(),
    decreases syms.len(),
{
    if syms.len() > 0 {
        assert(forall|i: int| 0 <= i < syms.drop_last().len() ==> (#[trigger] syms.drop_last()[i]).skip);
        lemma_all_skipped_listing(syms.drop_last(), type_primary, type_abbr);
        assert(syms.last() == syms[syms.len() - 1]);
    }
    assert(primary_strings_spec(syms, type_primary) =~= Seq::<Seq<u8>>::empty());
    assert(abbr_strings_spec(syms, type_primary, type_abbr) =~= Seq::<Seq<u8>>::empty());
    assert(primary_strings_spec(syms, type_primary).map_values(|s: Seq<u8>| quoted_spec(s))
        =~= Seq::<Seq<u8>>::empty());
    assert(abbr_strings_spec(syms, type_primary, type_abbr).map_values(
        |s: Seq<u8>| quoted_spec(s),
    ) =~= Seq::<Seq<u8>>::empty());
}

/// Computes the iteration order of `table`: the positions of the symbols
/// with the skip flag unset, in declaration order.
pub fn iteration_order(table: &SymbolTable) -> (r: Vec<usize>)
    ensures
        r@.len() == iter_indices_spec(table.symbols@).len(),
        forall|t: int| 0 <= t < r@.len() ==> #[trigger] r@[t] as int == iter_indices_spec(
            table.symbols@,
        )[t],
        forall|t: int| 0 <= t < r@.len() ==> #[trigger] r@[t] < table.symbols@.len(),
{
    let n: usize = table.symbols.len();
    let mut r: Vec<usize> = Vec::new();
    let mut i: usize = 0;
    while i < n
        invariant
            i <= n,
            n == table.symbols@.len(),
            r@.len() == iter_indices_spec(table.symbols@.take(i as int)).len(),
            forall|t: int| 0 <= t < r@.len() ==> #[trigger] r@[t] as int == iter_indices_spec(
                table.symbols@.take(i as int),
            )[t],
            forall|t: int| 0 <= t < r@.len() ==> #[trigger] r@[t] < i,
        decreases n - i,
    {
        let ghost pre = table.symbols@.take(i as int);
        let ghost post = table.symbols@.take(i + 1);
        if !table.symbols[i].skip {
            r.push(i);
        }
        proof {
            assert(post.drop_last() =~= pre);
            assert(post.last() == table.symbols@[i as int]);
        }
        i = i + 1;
    }
    proof {
        assert(table.symbols@.take(n as int) =~= table.symbols@);
    }
    r
}

/// Appends `", "` to `dst`.
fn append_separator(dst: &mut Vec<u8>)
    ensures
        final(dst)@ == old(dst)@ + seq![44u8, 32u8],
{
    let ghost start = dst@;
    dst.push(44);
    dst.push(32);
    proof {
        assert(dst@ =~= start + seq![44u8, 32u8]);
    }
}

/// Appends `s` wrapped in double quotes to `dst`.
fn append_quoted(dst: &mut Vec<u8>, s: &Vec<u8>)
    ensures
        final(dst)@ == old(dst)@ + quoted_spec(s@),
{
    let ghost start = dst@;
    dst.push(34);
    let mut k: usize = 0;
    while k < s.len()
        invariant
            k <= s@.len(),
            dst@ == start + seq![34u8] + s@.take(k as int),
        decreases s@.len() - k,
    {
        dst.push(s[k]);
        proof {
            assert(s@.take(k + 1) =~= s@.take(k as int).push(s@[k as int]));
            assert(dst@ =~= start + seq![34u8] + s@.take(k + 1));
        }
        k = k + 1;
    }
    dst.push(34);
    proof {
        assert(s@.take(s@.len() as int) =~= s@);
        assert(dst@ =~= start + quoted_spec(s@));
    }
}

/// Joins the given strings, each wrapped in double quotes, with `", "`.
fn join_quoted(strs: &Vec<Vec<u8>>) -> (r: Vec<u8>)
    ensures
        r@ == listing_of_spec(strs@.map_values(|v: Vec<u8>| v@)),
{
    let ghost items = strs@.map_values(|v: Vec<u8>| v@).map_values(|s: Seq<u8>| quoted_spec(s));
    let mut r: Vec<u8> = Vec::new();
    let mut t: usize = 0;
    while t < strs.len()
        invariant
            t <= strs@.len(),
            items == strs@.map_values(|v: Vec<u8>| v@).map_values(|s: Seq<u8>| quoted_spec(s)),
            items.len() == strs@.len(),
            r@ == joined_spec(items.take(t as int)),
        decreases strs@.len() - t,
    {
        if t > 0 {
            append_separator(&mut r);
        }
        append_quoted(&mut r, &strs[t]);
        proof {
            let pre = items.take(t as int);
            let post = items.take(t + 1);
            assert(post.drop_last() =~= pre);
            assert(post.last() == items[t as int]);
            assert(items[t as int] == quoted_spec(strs@[t as int]@));
            assert(r@ =~= joined_spec(post));
        }
        t = t + 1;
    }
    proof {
        assert(items.take(strs@.len() as int) =~= items);
    }
    r
}

/// Derives, from `table` and its resolved naming table, the iteration
/// order, the quoted primary listing and the quoted abbreviated listing.
/// Skipped symbols are absent from all three.
pub fn build_listing(table: &SymbolTable, resolved: &ResolvedTable) -> (r: (
    Vec<usize>,
    Vec<u8>,
    Vec<u8>,
))
    requires
        resolved_matches(*table, *resolved),
    ensures
        r.0@.len() == iter_indices_spec(table.symbols@).len(),
        forall|t: int| 0 <= t < r.0@.len() ==> #[trigger] r.0@[t] as int == iter_indices_spec(
            table.symbols@,
        )[t],
        r.1@ == primary_listing_spec(table.symbols@, table.type_primary_policy),
        r.2@ == abbr_listing_spec(
            table.symbols@,
            table.type_primary_policy,
            table.type_abbr_policy,
        ),
{
    let order = iteration_order(table);
    let mut primary_strs: Vec<Vec<u8>> = Vec::new();
    let mut abbr_strs: Vec<Vec<u8>> = Vec::new();
    let mut t: usize = 0;
    while t < order.len()
        invariant
            t <= order@.len(),
            resolved_matches(*table, *resolved),
            order@.len() == iter_indices_spec(table.symbols@).len(),
            forall|u: int| 0 <= u < order@.len() ==> #[trigger] order@[u] as int
                == iter_indices_spec(table.symbols@)[u],
            forall|u: int| 0 <= u < order@.len() ==> #[trigger] order@[u] < table.symbols@.len(),
            primary_strs@.len() == t,
            abbr_strs@.len() == t,
            forall|u: int| 0 <= u < t ==> #[trigger] primary_strs@[u]@ == primary_strings_spec(
                table.symbols@,
                table.type_primary_policy,
            )[u],
            forall|u: int| 0 <= u < t ==> #[trigger] abbr_strs@[u]@ == abbr_strings_spec(
                table.symbols@,
                table.type_primary_policy,
                table.type_abbr_policy,
            )[u],
        decreases order@.len() - t,
    {
        let idx: usize = order[t];
        let name = &resolved.names[idx];
        primary_strs.push(copy_bytes(&name.primary));
        abbr_strs.push(copy_bytes(&name.abbreviated));
        t = t + 1;
    }
    let primary_listing = join_quoted(&primary_strs);
    let abbr_listing = join_quoted(&abbr_strs);
    proof {
        assert(primary_strs@.map_values(|v: Vec<u8>| v@) =~= primary_strings_spec(
            table.symbols@,
            table.type_primary_policy,
        ));
        assert(abbr_strs@.map_values(|v: Vec<u8>| v@) =~= abbr_strings_spec(
            table.symbols@,
            table.type_primary_policy,
            table.type_abbr_policy,
        ));
    }
    (order, primary_listing, abbr_listing)
}

} // verus!
