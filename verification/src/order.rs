//! Lexicographic order on character sequences.
//!
//! Timestamps are kept as sortable text, so comparing two timestamps is a
//! lexicographic comparison of their character sequences.

use vstd::prelude::*;

verus! {

/// `a` is lexicographically at most `b`, comparing characters by code point.
pub open spec fn lex_le(a: Seq<char>, b: Seq<char>) -> bool
    decreases a.len(),
{
    if a.len() == 0 {
        true
    } else if b.len() == 0 {
        false
    } else if (a[0] as u32) < (b[0] as u32) {
        true
    } else if (a[0] as u32) > (b[0] as u32) {
        false
    } else {
        lex_le(a.skip(1), b.skip(1))
    }
}

/// The lexicographic order is reflexive.
pub proof fn lemma_lex_le_refl(a: Seq<char>)
    ensures
        lex_le(a, a),
    decreases a.len(),
{
    if a.len() > 0 {
        lemma_lex_le_refl(a.skip(1));
    }
}

/// The lexicographic order is transitive.
pub proof fn lemma_lex_le_trans(a: Seq<char>, b: Seq<char>, c: Seq<char>)
    requires
        lex_le(a, b),
        lex_le(b, c),
    ensures
        lex_le(a, c),
    decreases a.len(),
{
    if a.len() > 0 && b.len() > 0 && c.len() > 0 {
        if (a[0] as u32) == (b[0] as u32) && (b[0] as u32) == (c[0] as u32) {
            lemma_lex_le_trans(a.skip(1), b.skip(1), c.skip(1));
        }
    }
}

/// The later of two character sequences in lexicographic order.
pub open spec fn lex_max(a: Seq<char>, b: Seq<char>) -> Seq<char> {
    if lex_le(a, b) {
        b
    } else {
        a
    }
}

/// Neither argument is later than their maximum.
pub proof fn lemma_lex_le_max(a: Seq<char>, b: Seq<char>)
    ensures
        lex_le(a, lex_max(a, b)),
        lex_le(b, lex_max(a, b)),
{
    lemma_lex_le_refl(a);
    lemma_lex_le_refl(b);
    if !lex_le(a, b) {
        lemma_lex_le_total(a, b);
    }
}

/// The lexicographic order is total.
pub proof fn lemma_lex_le_total(a: Seq<char>, b: Seq<char>)
    ensures
        lex_le(a, b) || lex_le(b, a),
    decreases a.len(),
{
    if a.len() > 0 && b.len() > 0 && (a[0] as u32) == (b[0] as u32) {
        lemma_lex_le_total(a.skip(1), b.skip(1));
    }
}

/// Decide `lex_le(a@.skip(i as int), b@.skip(j as int))` for string slices.
fn lex_le_from(a: &str, b: &str, i: usize, j: usize, an: usize, bn: usize) -> (r: bool)
    requires
        an == a@.len(),
        bn == b@.len(),
        i <= an,
        j <= bn,
    ensures
        r == lex_le(a@.skip(i as int), b@.skip(j as int)),
    decreases an - i,
{
    if i == an {
        true
    } else if j == bn {
        false
    } else {
        let ca = a.get_char(i) as u32;
        let cb = b.get_char(j) as u32;
        assert(a@.skip(i as int)[0] == a@[i as int]);
        assert(b@.skip(j as int)[0] == b@[j as int]);
        if ca < cb {
            true
        } else if ca > cb {
            false
        } else {
            let r = lex_le_from(a, b, i + 1, j + 1, an, bn);
            assert(a@.skip(i as int).skip(1) =~= a@.skip(i + 1));
            assert(b@.skip(j as int).skip(1) =~= b@.skip(j + 1));
            r
        }
    }
}

/// Decide the lexicographic order on two strings.
pub fn lex_le_str(a: &str, b: &str) -> (r: bool)
    ensures
        r == lex_le(a@, b@),
{
    let an = a.unicode_len();
    let bn = b.unicode_len();
    let r = lex_le_from(a, b, 0, 0, an, bn);
    assert(a@.skip(0) =~= a@);
    assert(b@.skip(0) =~= b@);
    r
}

} // verus!
