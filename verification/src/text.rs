//! Byte-level case transformation and abbreviation.
//!
//! Names are manipulated as raw byte strings. Case folding is ASCII-only:
//! bytes outside the ASCII letter ranges, including every byte of a
//! multi-byte encoded character, pass through unchanged. Abbreviation keeps
//! exactly the first three bytes and is deliberately blind to character
//! boundaries.

use vstd::prelude::*;

verus! {

/// ASCII uppercase of one byte: `b'a'..=b'z'` lose 32, all else unchanged.
pub open spec fn upper_byte(b: u8) -> u8 {
    if 97 <= b && b <= 122 {
        (b - 32) as u8
    } else {
        b
    }
}

/// ASCII lowercase of one byte: `b'A'..=b'Z'` gain 32, all else unchanged.
pub open spec fn lower_byte(b: u8) -> u8 {
    if 65 <= b && b <= 90 {
        (b + 32) as u8
    } else {
        b
    }
}

/// Bytewise ASCII uppercase of a byte string.
pub open spec fn upper_bytes(s: Seq<u8>) -> Seq<u8> {
    s.map_values(|b: u8| upper_byte(b))
}

/// Bytewise ASCII lowercase of a byte string.
pub open spec fn lower_bytes(s: Seq<u8>) -> Seq<u8> {
    s.map_values(|b: u8| lower_byte(b))
}

/// The first three bytes of `s`; a string of at most three bytes is kept
/// whole. No padding, no regard for character boundaries.
pub open spec fn abbr_bytes(s: Seq<u8>) -> Seq<u8> {
    if s.len() <= 3 {
        s
    } else {
        s.take(3)
    }
}

/// Converts the byte string to ASCII uppercase by taking ownership of the
/// value and transforming it in place.
pub fn to_uppercase_in_place(text: Vec<u8>) -> (r: Vec<u8>)
    ensures
        r@ == upper_bytes(text@),
{
    let mut r = text;
    let ghost orig: Seq<u8> = r@;
    let n: usize = r.len();
    let mut i: usize = 0;
    while i < n
        invariant
            i <= n,
            n == r@.len(),
            n == orig.len(),
            forall|k: int| 0 <= k < i ==> r@[k] == upper_byte(orig[k]),
            forall|k: int| i <= k < n ==> r@[k] == orig[k],
        decreases n - i,
    {
        let b: u8 = r[i];
        if 97 <= b && b <= 122 {
            r[i] = b - 32;
        }
        i = i + 1;
    }
    proof {
        assert(r@ =~= upper_bytes(orig));
    }
    r
}

/// Converts the byte string to ASCII lowercase by taking ownership of the
/// value and transforming it in place.
pub fn to_lowercase_in_place(text: Vec<u8>) -> (r: Vec<u8>)
    ensures
        r@ == lower_bytes(text@),
{
    let mut r = text;
    let ghost orig: Seq<u8> = r@;
    let n: usize = r.len();
    let mut i: usize = 0;
    while i < n
        invariant
            i <= n,
            n == r@.len(),
            n == orig.len(),
            forall|k: int| 0 <= k < i ==> r@[k] == lower_byte(orig[k]),
            forall|k: int| i <= k < n ==> r@[k] == orig[k],
        decreases n - i,
    {
        let b: u8 = r[i];
        if 65 <= b && b <= 90 {
            r[i] = b + 32;
        }
        i = i + 1;
    }
    proof {
        assert(r@ =~= lower_bytes(orig));
    }
    r
}

/// Abbreviates the byte string by taking ownership of the value and
/// truncating it in place to its first three bytes.
pub fn to_abbr_in_place(text: Vec<u8>) -> (r: Vec<u8>)
    ensures
        r@ == abbr_bytes(text@),
{
    let mut r = text;
    let ghost orig: Seq<u8> = r@;
    r.truncate(3);
    proof {
        assert(r@ =~= abbr_bytes(orig));
    }
    r
}

/// Law: ASCII case folding is idempotent — folding a string that is already
/// the result of the same fold is a no-op.
pub proof fn lemma_case_fold_idempotent(s: Seq<u8>)
    ensures
        upper_bytes(upper_bytes(s)) == upper_bytes(s),
        lower_bytes(lower_bytes(s)) == lower_bytes(s),
{
    assert(upper_bytes(upper_bytes(s)) =~= upper_bytes(s));
    assert(lower_bytes(lower_bytes(s)) =~= lower_bytes(s));
}

/// Law: a string holding no ASCII lowercase byte — an already-uppercase
/// string — is unchanged by uppercasing, and a string holding no ASCII
/// uppercase byte is unchanged by lowercasing.
pub proof fn lemma_case_fold_no_op(s: Seq<u8>)
    ensures
        (forall|i: int| #![trigger s[i]] 0 <= i < s.len() ==> !(97 <= s[i] <= 122)) ==> upper_bytes(
            s,
        ) == s,
        (forall|i: int| #![trigger s[i]] 0 <= i < s.len() ==> !(65 <= s[i] <= 90)) ==> lower_bytes(
            s,
        ) == s,
{
    if forall|i: int| #![trigger s[i]] 0 <= i < s.len() ==> !(97 <= s[i] <= 122) {
        assert(upper_bytes(s) =~= s);
    }
    if forall|i: int| #![trigger s[i]] 0 <= i < s.len() ==> !(65 <= s[i] <= 90) {
        assert(lower_bytes(s) =~= s);
    }
}

/// Copies a byte string.
pub fn copy_bytes(text: &Vec<u8>) -> (r: Vec<u8>)
    ensures
        r@ == text@,
{
    let mut r: Vec<u8> = Vec::new();
    let mut i: usize = 0;
    while i < text.len()
        invariant
            i <= text@.len(),
            r@ == text@.take(i as int),
        decreases text@.len() - i,
    {
        r.push(text[i]);
        proof {
            assert(text@.take(i + 1 as int) =~= text@.take(i as int).push(text@[i as int]));
        }
        i = i + 1;
    }
    proof {
        assert(text@.take(text@.len() as int) =~= text@);
    }
    r
}

} // verus!
