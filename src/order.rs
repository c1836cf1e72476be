//! Comparison of texts character by character, by code point.

use vstd::prelude::*;
use vstd::string::*;

use core::cmp::Ordering;

use crate::validate::chars_of;

verus! {

/// The lexicographic order of `a` and `b` by code point.
pub open spec fn lex_cmp(a: Seq<char>, b: Seq<char>) -> Ordering
    decreases a.len(),
{
    if a.len() == 0 {
        if b.len() == 0 {
            Ordering::Equal
        } else {
            Ordering::Less
        }
    } else if b.len() == 0 {
        Ordering::Greater
    } else if (a[0] as u32) < (b[0] as u32) {
        Ordering::Less
    } else if (a[0] as u32) > (b[0] as u32) {
        Ordering::Greater
    } else {
        lex_cmp(a.drop_first(), b.drop_first())
    }
}

/// Two texts compare equal exactly when they are the same text.
pub proof fn lemma_cmp_equal(a: Seq<char>, b: Seq<char>)
    ensures
        (lex_cmp(a, b) == Ordering::Equal) == (a == b),
    decreases a.len(),
{
    if a.len() > 0 && b.len() > 0 {
        lemma_cmp_equal(a.drop_first(), b.drop_first());
        vstd::utf8::char_u32_cast(a[0], a[0] as u32);
        vstd::utf8::char_u32_cast(b[0], b[0] as u32);
        if a[0] == b[0] && a.drop_first() == b.drop_first() {
            assert(a == seq![a[0]] + a.drop_first());
            assert(b == seq![b[0]] + b.drop_first());
        }
        if a == b {
            assert(a.drop_first() == b.drop_first());
        }
    } else if a.len() == 0 && b.len() == 0 {
        assert(a == b);
    }
}

/// Swapping the two texts reverses their order.
pub proof fn lemma_cmp_flip(a: Seq<char>, b: Seq<char>)
    ensures
        (lex_cmp(a, b) == Ordering::Less) == (lex_cmp(b, a) == Ordering::Greater),
    decreases a.len(),
{
    if a.len() > 0 && b.len() > 0 {
        lemma_cmp_flip(a.drop_first(), b.drop_first());
    }
}

/// The order is transitive.
pub proof fn lemma_cmp_transitive(a: Seq<char>, b: Seq<char>, c: Seq<char>)
    requires
        lex_cmp(a, b) == Ordering::Less,
        lex_cmp(b, c) == Ordering::Less,
    ensures
        lex_cmp(a, c) == Ordering::Less,
    decreases a.len(),
{
    if a.len() > 0 && b.len() > 0 && c.len() > 0 {
        if (a[0] as u32) == (b[0] as u32) && (b[0] as u32) == (c[0] as u32) {
            lemma_cmp_transitive(a.drop_first(), b.drop_first(), c.drop_first());
        }
    }
}

/// The order of texts is a strict total order: irreflexive, asymmetric and
/// transitive, with two texts equal in it exactly when they are the same.
pub proof fn law_strict_total_order(a: Seq<char>, b: Seq<char>, c: Seq<char>)
    ensures
        lex_cmp(a, a) != Ordering::Less,
        lex_cmp(a, b) == Ordering::Less ==> lex_cmp(b, a) == Ordering::Greater,
        lex_cmp(a, b) == Ordering::Greater ==> lex_cmp(b, a) == Ordering::Less,
        (lex_cmp(a, b) == Ordering::Equal) == (a == b),
        lex_cmp(a, b) == Ordering::Less && lex_cmp(b, c) == Ordering::Less ==> lex_cmp(a, c)
            == Ordering::Less,
{
    lemma_cmp_equal(a, a);
    lemma_cmp_equal(a, b);
    lemma_cmp_flip(a, b);
    lemma_cmp_flip(b, a);
    if lex_cmp(a, b) == Ordering::Less && lex_cmp(b, c) == Ordering::Less {
        lemma_cmp_transitive(a, b, c);
    }
}

/// Compares `a` and `b` character by character.
pub fn compare_text(a: &str, b: &str) -> (r: Ordering)
    ensures
        r == lex_cmp(a@, b@),
{
    let x = chars_of(a);
    let y = chars_of(b);
    let mut i: usize = 0;
    assert(x@.skip(0) == x@);
    assert(y@.skip(0) == y@);
    while i < x.len() && i < y.len()
        invariant
            x@ == a@,
            y@ == b@,
            i <= x@.len(),
            i <= y@.len(),
            lex_cmp(a@, b@) == lex_cmp(x@.skip(i as int), y@.skip(i as int)),
        decreases x@.len() - i,
    {
        let c = x[i] as u32;
        let d = y[i] as u32;
        if c < d {
            return Ordering::Less;
        }
        if c > d {
            return Ordering::Greater;
        }
        assert(x@.skip(i as int).drop_first() == x@.skip(i + 1));
        assert(y@.skip(i as int).drop_first() == y@.skip(i + 1));
        i += 1;
    }
    if i < x.len() {
        Ordering::Greater
    } else if i < y.len() {
        Ordering::Less
    } else {
        Ordering::Equal
    }
}

/// Whether `a` and `b` are the same text.
pub fn same_text(a: &str, b: &str) -> (r: bool)
    ensures
        r == (a@ == b@),
{
    proof {
        lemma_cmp_equal(a@, b@);
    }
    match compare_text(a, b) {
        Ordering::Equal => true,
        _ => false,
    }
}

} // verus!
