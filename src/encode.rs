//! Identifiers made from digests and from UUIDs: both are written in lowercase
//! hexadecimal (with `-` between the groups of a UUID), which obeys every rule of
//! an identifier.

use vstd::prelude::*;

use crate::decimal::digit_char;
use crate::id::{is_plain, is_plain_char, lemma_plain_is_valid, Id};

verus! {

/// The lowercase hexadecimal digit of `d`, for `0 <= d < 16`.
pub open spec fn hex_digit(d: int) -> char {
    if d < 10 {
        digit_char(d as nat)
    } else if d == 10 {
        'a'
    } else if d == 11 {
        'b'
    } else if d == 12 {
        'c'
    } else if d == 13 {
        'd'
    } else if d == 14 {
        'e'
    } else {
        'f'
    }
}

/// Each byte of `b` as two lowercase hexadecimal digits, high nibble first.
pub open spec fn hex_of(b: Seq<u8>) -> Seq<char>
    decreases b.len(),
{
    if b.len() == 0 {
        Seq::empty()
    } else {
        seq![hex_digit(b[0] as int / 16), hex_digit(b[0] as int % 16)] + hex_of(b.drop_first())
    }
}

/// The hyphenated form of a UUID's 16 bytes: groups of 4, 2, 2, 2 and 6 bytes in
/// lowercase hexadecimal, joined by `-`.
pub open spec fn hyphenated_hex(b: Seq<u8>) -> Seq<char> {
    hex_of(b.subrange(0, 4)) + seq!['-'] + hex_of(b.subrange(4, 6)) + seq!['-'] + hex_of(
        b.subrange(6, 8),
    ) + seq!['-'] + hex_of(b.subrange(8, 10)) + seq!['-'] + hex_of(b.subrange(10, 16))
}

proof fn lemma_plain_concat(a: Seq<char>, b: Seq<char>)
    requires
        is_plain(a),
        is_plain(b),
    ensures
        is_plain(a + b),
{
    assert forall|i: int| 0 <= i < (a + b).len() implies is_plain_char(#[trigger] (a + b)[i]) by {
        if i < a.len() {
            assert((a + b)[i] == a[i]);
        } else {
            assert((a + b)[i] == b[i - a.len()]);
        }
    }
}

proof fn lemma_hyphenated_plain(b: Seq<u8>)
    requires
        b.len() == 16,
    ensures
        hyphenated_hex(b).len() > 0,
        is_plain(hyphenated_hex(b)),
{
    let dash = seq!['-'];
    assert(is_plain(dash)) by {
        assert forall|i: int| 0 <= i < dash.len() implies is_plain_char(#[trigger] dash[i]) by {
            assert(dash[i] == '-');
        }
    }
    let h0 = hex_of(b.subrange(0, 4));
    let h1 = hex_of(b.subrange(4, 6));
    let h2 = hex_of(b.subrange(6, 8));
    let h3 = hex_of(b.subrange(8, 10));
    let h4 = hex_of(b.subrange(10, 16));
    lemma_hex_plain(b.subrange(0, 4));
    lemma_hex_plain(b.subrange(4, 6));
    lemma_hex_plain(b.subrange(6, 8));
    lemma_hex_plain(b.subrange(8, 10));
    lemma_hex_plain(b.subrange(10, 16));
    lemma_plain_concat(h0, dash);
    lemma_plain_concat(h0 + dash, h1);
    lemma_plain_concat(h0 + dash + h1, dash);
    lemma_plain_concat(h0 + dash + h1 + dash, h2);
    lemma_plain_concat(h0 + dash + h1 + dash + h2, dash);
    lemma_plain_concat(h0 + dash + h1 + dash + h2 + dash, h3);
    lemma_plain_concat(h0 + dash + h1 + dash + h2 + dash + h3, dash);
    lemma_plain_concat(h0 + dash + h1 + dash + h2 + dash + h3 + dash, h4);
}

proof fn lemma_hex_digit(d: int)
    requires
        0 <= d < 16,
    ensures
        is_plain_char(hex_digit(d)),
        forall|e: int| 0 <= e < 16 && #[trigger] hex_digit(e) == hex_digit(d) ==> e == d,
{
}

proof fn lemma_hex_plain(b: Seq<u8>)
    ensures
        hex_of(b).len() == 2 * b.len(),
        is_plain(hex_of(b)),
    decreases b.len(),
{
    if b.len() > 0 {
        lemma_hex_plain(b.drop_first());
        lemma_hex_digit(b[0] as int / 16);
        lemma_hex_digit(b[0] as int % 16);
        let h = hex_of(b);
        let t = hex_of(b.drop_first());
        assert forall|i: int| 0 <= i < h.len() implies is_plain_char(#[trigger] h[i]) by {
            if i >= 2 {
                assert(h[i] == t[i - 2]);
            }
        }
    }
}

/// Two byte sequences with the same hexadecimal text are equal: the text of an
/// identifier made from a digest gives back the digest.
pub proof fn law_hex_injective(a: Seq<u8>, b: Seq<u8>)
    requires
        hex_of(a) == hex_of(b),
    ensures
        a == b,
    decreases a.len(),
{
    lemma_hex_plain(a);
    lemma_hex_plain(b);
    if a.len() > 0 {
        let (x, y) = (a[0] as int, b[0] as int);
        lemma_hex_digit(x / 16);
        lemma_hex_digit(x % 16);
        lemma_hex_digit(y / 16);
        lemma_hex_digit(y % 16);
        assert(hex_of(a)[0] == hex_digit(x / 16));
        assert(hex_of(a)[1] == hex_digit(x % 16));
        assert(hex_of(b)[0] == hex_digit(y / 16));
        assert(hex_of(b)[1] == hex_digit(y % 16));
        assert(x / 16 == y / 16);
        assert(x % 16 == y % 16);
        assert(x == y) by (nonlinear_arith)
            requires
                x / 16 == y / 16,
                x % 16 == y % 16,
        ;
        assert(hex_of(a.drop_first()) == hex_of(a).skip(2));
        assert(hex_of(b.drop_first()) == hex_of(b).skip(2));
        law_hex_injective(a.drop_first(), b.drop_first());
        assert(a == seq![a[0]] + a.drop_first());
        assert(b == seq![b[0]] + b.drop_first());
    } else {
        assert(b.len() == 0);
        assert(a == b);
    }
}

/// Relies on hex::encode: each byte becomes two lowercase hexadecimal digits,
/// high nibble first.
#[verifier::external_body]
fn hex_encode(b: &[u8]) -> (r: String)
    ensures
        r@ == hex_of(b@),
{
    hex::encode(b)
}

/// Relies on uuid::Uuid::from_bytes and the `Display` impl of uuid::Uuid, which
/// writes the bytes in order as the hyphenated form in lowercase hexadecimal
/// (`format_hyphenated`).
#[verifier::external_body]
fn uuid_text(b: &[u8; 16]) -> (r: String)
    ensures
        r@ == hyphenated_hex(b@),
{
    uuid::Uuid::from_bytes(*b).to_string()
}

impl Id {
    /// The identifier of a digest: its bytes in lowercase hexadecimal.
    pub fn from_digest(hash: &[u8]) -> (r: Id)
        requires
            hash@.len() > 0,
        ensures
            r@ == hex_of(hash@),
    {
        let text = hex_encode(hash);
        proof {
            lemma_hex_plain(hash@);
            lemma_plain_is_valid(text@);
        }
        Id::from_valid(text)
    }

    /// The identifier of the UUID with these 16 bytes: its hyphenated lowercase form.
    pub fn from_uuid(bytes: [u8; 16]) -> (r: Id)
        ensures
            r@ == hyphenated_hex(bytes@),
    {
        let text = uuid_text(&bytes);
        proof {
            lemma_hyphenated_plain(bytes@);
            lemma_plain_is_valid(text@);
        }
        Id::from_valid(text)
    }
}

} // verus!
