//! The identifier type and the constant label that converts into it.

use vstd::prelude::*;
use vstd::std_specs::cmp::PartialEqSpec;
use vstd::string::*;

use core::cmp::Ordering;

use crate::decimal::{decimal, decimal_text, lemma_decimal_value, parse_usize, read_usize};
use crate::order::{compare_text, lex_cmp, same_text};
use crate::validate::{chars_of, contains_sub, is_valid_id, rejection, reserved_at, validate_id, ParseError, RESERVED_COUNT};

verus! {

/// A character that no rule of an identifier forbids: an ASCII letter or digit,
/// `-` or `_`.
pub open spec fn is_plain_char(c: char) -> bool {
    let u = c as u32;
    ||| 48 <= u <= 57
    ||| 65 <= u <= 90
    ||| 97 <= u <= 122
    ||| u == 45
    ||| u == 95
}

pub open spec fn is_plain(s: Seq<char>) -> bool {
    forall|i: int| 0 <= i < s.len() ==> is_plain_char(#[trigger] s[i])
}

/// A non-empty text of plain characters is a valid identifier.
pub proof fn lemma_plain_is_valid(s: Seq<char>)
    requires
        s.len() > 0,
        is_plain(s),
    ensures
        is_valid_id(s),
{
    assert forall|k: int| 0 <= k < RESERVED_COUNT implies !#[trigger] contains_sub(s, reserved_at(k)) by {
        if contains_sub(s, reserved_at(k)) {
            let p = reserved_at(k);
            let i = choose|i: int| 0 <= i && i + p.len() <= s.len() && #[trigger] s.subrange(i, i + p.len()) == p;
            assert(s.subrange(i, i + p.len())[0] == s[i]);
            assert(!is_plain_char(p[0]));
        }
    }
}

pub proof fn lemma_decimal_plain(n: nat)
    ensures
        decimal(n).len() > 0,
        is_plain(decimal(n)),
    decreases n,
{
    if n >= 10 {
        lemma_decimal_plain(n / 10);
        let d = decimal(n / 10);
        assert forall|i: int| 0 <= i < decimal(n).len() implies is_plain_char(#[trigger] decimal(n)[i]) by {
            if i < d.len() {
                assert(decimal(n)[i] == d[i]);
            }
        }
    }
}

/// The decimal rendering of every `usize` is a valid identifier, and reads back
/// as that number.
pub proof fn law_decimal_round_trip(n: nat)
    requires
        n <= usize::MAX,
    ensures
        is_valid_id(decimal(n)),
        read_usize(decimal(n)) == Some(n),
{
    lemma_decimal_plain(n);
    lemma_plain_is_valid(decimal(n));
    lemma_decimal_value(n);
}

/// A human-readable identifier: a text that obeys the rules of `is_valid_id`.
#[derive(Debug, Hash, Ord)]
pub struct Id {
    inner: String,
}

impl View for Id {
    type V = Seq<char>;

    closed spec fn view(&self) -> Seq<char> {
        self.inner@
    }
}

impl Id {
    #[verifier::type_invariant]
    spec fn inv(self) -> bool {
        is_valid_id(self.inner@)
    }

    /// The identifier of a text already known to obey the rules.
    pub(crate) fn from_valid(inner: String) -> (r: Id)
        requires
            is_valid_id(inner@),
        ensures
            r@ == inner@,
    {
        Id { inner }
    }

    /// Parses `s` into an identifier, or names the first rule that it breaks.
    pub fn parse(s: &str) -> (r: Result<Id, ParseError>)
        ensures
            r is Ok <==> is_valid_id(s@),
            r matches Ok(id) ==> id@ == s@,
            r matches Err(e) ==> rejection(s@) == Some(e@),
    {
        match validate_id(s) {
            Ok(()) => Ok(Id { inner: String::from_str(s) }),
            Err(e) => Err(e),
        }
    }

    /// The text of this identifier, which obeys the rules of an identifier.
    pub fn as_str(&self) -> (r: &str)
        ensures
            r@ == self@,
            is_valid_id(self@),
    {
        proof {
            use_type_invariant(self);
        }
        self.inner.as_str()
    }

    /// Gives up this identifier for its text.
    pub fn into_inner(self) -> (r: String)
        ensures
            r@ == self@,
    {
        self.inner
    }

    /// The text of this identifier, as a new `String`.
    pub fn to_string(&self) -> (r: String)
        ensures
            r@ == self@,
    {
        self.inner.clone()
    }

    /// Whether this identifier begins with `prefix`.
    pub fn starts_with(&self, prefix: &str) -> (r: bool)
        ensures
            r == (prefix@.len() <= self@.len() && self@.subrange(0, prefix@.len() as int) == prefix@),
    {
        let s = chars_of(self.inner.as_str());
        let p = chars_of(prefix);
        if p.len() > s.len() {
            return false;
        }
        let mut i: usize = 0;
        while i < p.len()
            invariant
                s@ == self@,
                p@ == prefix@,
                p@.len() <= s@.len(),
                i <= p@.len(),
                forall|t: int| 0 <= t < i ==> s@[t] == p@[t],
            decreases p@.len() - i,
        {
            if s[i] != p[i] {
                assert(s@.subrange(0, p@.len() as int)[i as int] != p@[i as int]);
                return false;
            }
            i += 1;
        }
        assert(s@.subrange(0, p@.len() as int) == p@);
        true
    }

    /// The identifier of the decimal rendering of `n`.
    pub fn from_u64(n: u64) -> (r: Id)
        ensures
            r@ == decimal(n as nat),
    {
        let inner = decimal_text(n);
        proof {
            lemma_decimal_plain(n as nat);
            lemma_plain_is_valid(inner@);
        }
        Id { inner }
    }

    /// The identifier of the decimal rendering of `n`.
    pub fn from_usize(n: usize) -> (r: Id)
        ensures
            r@ == decimal(n as nat),
    {
        Id::from_u64(n as u64)
    }

    /// Whether `s` obeys the rules of an identifier.
    pub fn can_cast_from(s: &String) -> (r: bool)
        ensures
            r == is_valid_id(s@),
    {
        validate_id(s.as_str()).is_ok()
    }

    /// The identifier of `s`, or `None` where `s` breaks a rule.
    pub fn opt_cast_from(s: String) -> (r: Option<Id>)
        ensures
            r is Some <==> is_valid_id(s@),
            r matches Some(id) ==> id@ == s@,
    {
        match Id::parse(s.as_str()) {
            Ok(id) => Some(id),
            Err(_) => None,
        }
    }

    /// Whether this identifier spells a `usize`, as `usize::from_str` reads it.
    pub fn is_usize(&self) -> (r: bool)
        ensures
            r == read_usize(self@) is Some,
    {
        parse_usize(self.inner.as_str()).is_some()
    }

    /// The `usize` that this identifier spells, as `usize::from_str` reads it.
    pub fn to_usize(&self) -> (r: Option<usize>)
        ensures
            r is Some <==> read_usize(self@) is Some,
            r matches Some(n) ==> read_usize(self@) == Some(n as nat),
    {
        parse_usize(self.inner.as_str())
    }

    /// The identifier of a constant label.
    pub fn from_label(l: Label) -> (r: Id)
        ensures
            r@ == l@,
    {
        proof {
            use_type_invariant(&l);
        }
        Id { inner: String::from_str(l.id) }
    }
}

impl Clone for Id {
    fn clone(&self) -> (r: Id)
        ensures
            r@ == self@,
    {
        proof {
            use_type_invariant(self);
        }
        Id { inner: self.inner.clone() }
    }
}

impl core::str::FromStr for Id {
    type Err = ParseError;

    fn from_str(s: &str) -> (r: Result<Id, ParseError>)
        ensures
            r is Ok <==> is_valid_id(s@),
            r matches Ok(id) ==> id@ == s@,
            r matches Err(e) ==> rejection(s@) == Some(e@),
    {
        Id::parse(s)
    }
}

impl core::borrow::Borrow<str> for Id {
    fn borrow(&self) -> &str {
        self.inner.as_str()
    }
}

impl From<u64> for Id {
    fn from(n: u64) -> (r: Id)
        ensures
            r@ == decimal(n as nat),
    {
        Id::from_u64(n)
    }
}

impl vstd::std_specs::convert::FromSpecImpl<u64> for Id {
    open spec fn obeys_from_spec() -> bool {
        false
    }

    open spec fn from_spec(n: u64) -> Id {
        arbitrary()
    }
}

impl From<usize> for Id {
    fn from(n: usize) -> (r: Id)
        ensures
            r@ == decimal(n as nat),
    {
        Id::from_usize(n)
    }
}

impl vstd::std_specs::convert::FromSpecImpl<usize> for Id {
    open spec fn obeys_from_spec() -> bool {
        false
    }

    open spec fn from_spec(n: usize) -> Id {
        arbitrary()
    }
}

impl From<Label> for Id {
    fn from(l: Label) -> (r: Id)
        ensures
            r@ == l@,
    {
        Id::from_label(l)
    }
}

impl vstd::std_specs::convert::FromSpecImpl<Label> for Id {
    open spec fn obeys_from_spec() -> bool {
        false
    }

    open spec fn from_spec(l: Label) -> Id {
        arbitrary()
    }
}

impl PartialEq<Id> for Id {
    fn eq(&self, other: &Id) -> (r: bool) {
        same_text(self.inner.as_str(), other.inner.as_str())
    }
}

impl vstd::std_specs::cmp::PartialEqSpecImpl<Id> for Id {
    open spec fn obeys_eq_spec() -> bool {
        true
    }

    open spec fn eq_spec(&self, other: &Id) -> bool {
        self@ == other@
    }
}

impl Eq for Id {
}

impl PartialOrd<Id> for Id {
    fn partial_cmp(&self, other: &Id) -> (r: Option<Ordering>) {
        Some(compare_text(self.inner.as_str(), other.inner.as_str()))
    }
}

impl vstd::std_specs::cmp::PartialOrdSpecImpl<Id> for Id {
    open spec fn obeys_partial_cmp_spec() -> bool {
        true
    }

    open spec fn partial_cmp_spec(&self, other: &Id) -> Option<Ordering> {
        Some(lex_cmp(self@, other@))
    }
}

impl PartialEq<String> for Id {
    fn eq(&self, other: &String) -> (r: bool) {
        same_text(self.inner.as_str(), other.as_str())
    }
}

impl vstd::std_specs::cmp::PartialEqSpecImpl<String> for Id {
    open spec fn obeys_eq_spec() -> bool {
        true
    }

    open spec fn eq_spec(&self, other: &String) -> bool {
        self@ == other@
    }
}

impl PartialEq<str> for Id {
    fn eq(&self, other: &str) -> (r: bool) {
        same_text(self.inner.as_str(), other)
    }
}

impl vstd::std_specs::cmp::PartialEqSpecImpl<str> for Id {
    open spec fn obeys_eq_spec() -> bool {
        true
    }

    open spec fn eq_spec(&self, other: &str) -> bool {
        self@ == other@
    }
}

impl PartialEq<&str> for Id {
    fn eq(&self, other: &&str) -> (r: bool) {
        same_text(self.inner.as_str(), *other)
    }
}

impl vstd::std_specs::cmp::PartialEqSpecImpl<&str> for Id {
    open spec fn obeys_eq_spec() -> bool {
        true
    }

    open spec fn eq_spec(&self, other: &&str) -> bool {
        self@ == (*other)@
    }
}

impl PartialEq<Label> for Id {
    fn eq(&self, other: &Label) -> (r: bool) {
        same_text(self.inner.as_str(), other.id)
    }
}

impl vstd::std_specs::cmp::PartialEqSpecImpl<Label> for Id {
    open spec fn obeys_eq_spec() -> bool {
        true
    }

    open spec fn eq_spec(&self, other: &Label) -> bool {
        self@ == other@
    }
}

impl PartialEq<Id> for &str {
    fn eq(&self, other: &Id) -> (r: bool) {
        same_text(*self, other.inner.as_str())
    }
}

impl vstd::std_specs::cmp::PartialEqSpecImpl<Id> for &str {
    open spec fn obeys_eq_spec() -> bool {
        true
    }

    open spec fn eq_spec(&self, other: &Id) -> bool {
        (*self)@ == other@
    }
}

impl PartialOrd<String> for Id {
    fn partial_cmp(&self, other: &String) -> (r: Option<Ordering>) {
        Some(compare_text(self.inner.as_str(), other.as_str()))
    }
}

impl vstd::std_specs::cmp::PartialOrdSpecImpl<String> for Id {
    open spec fn obeys_partial_cmp_spec() -> bool {
        true
    }

    open spec fn partial_cmp_spec(&self, other: &String) -> Option<Ordering> {
        Some(lex_cmp(self@, other@))
    }
}

impl PartialOrd<str> for Id {
    fn partial_cmp(&self, other: &str) -> (r: Option<Ordering>) {
        Some(compare_text(self.inner.as_str(), other))
    }
}

impl vstd::std_specs::cmp::PartialOrdSpecImpl<str> for Id {
    open spec fn obeys_partial_cmp_spec() -> bool {
        true
    }

    open spec fn partial_cmp_spec(&self, other: &str) -> Option<Ordering> {
        Some(lex_cmp(self@, other@))
    }
}

impl PartialOrd<&str> for Id {
    fn partial_cmp(&self, other: &&str) -> (r: Option<Ordering>) {
        Some(compare_text(self.inner.as_str(), *other))
    }
}

impl vstd::std_specs::cmp::PartialOrdSpecImpl<&str> for Id {
    open spec fn obeys_partial_cmp_spec() -> bool {
        true
    }

    open spec fn partial_cmp_spec(&self, other: &&str) -> Option<Ordering> {
        Some(lex_cmp(self@, (*other)@))
    }
}

impl PartialEq<Label> for Label {
    fn eq(&self, other: &Label) -> (r: bool) {
        same_text(self.id, other.id)
    }
}

impl vstd::std_specs::cmp::PartialEqSpecImpl<Label> for Label {
    open spec fn obeys_eq_spec() -> bool {
        true
    }

    open spec fn eq_spec(&self, other: &Label) -> bool {
        self@ == other@
    }
}

impl Eq for Label {
}

impl PartialOrd<Label> for Label {
    fn partial_cmp(&self, other: &Label) -> (r: Option<Ordering>) {
        Some(compare_text(self.id, other.id))
    }
}

impl vstd::std_specs::cmp::PartialOrdSpecImpl<Label> for Label {
    open spec fn obeys_partial_cmp_spec() -> bool {
        true
    }

    open spec fn partial_cmp_spec(&self, other: &Label) -> Option<Ordering> {
        Some(lex_cmp(self@, other@))
    }
}

impl PartialEq<Id> for Label {
    fn eq(&self, other: &Id) -> (r: bool) {
        same_text(self.id, other.inner.as_str())
    }
}

impl vstd::std_specs::cmp::PartialEqSpecImpl<Id> for Label {
    open spec fn obeys_eq_spec() -> bool {
        true
    }

    open spec fn eq_spec(&self, other: &Id) -> bool {
        self@ == other@
    }
}

/// Equality goes by content: an identifier, a label and a text with the same
/// characters are all equal to one another.
pub proof fn law_content_equality(id: Id, l: Label, s: &str)
    requires
        id@ == s@,
        l@ == s@,
    ensures
        <Id as PartialEqSpec<Label>>::eq_spec(&id, &l),
        <Label as PartialEqSpec<Id>>::eq_spec(&l, &id),
        <Id as PartialEqSpec<&str>>::eq_spec(&id, &s),
        <&str as PartialEqSpec<Id>>::eq_spec(&s, &id),
        <Id as PartialEqSpec<str>>::eq_spec(&id, s),
{
}

/// A constant identifier, fixed in the code, whose text is not checked at run time.
#[derive(Clone, Copy, Debug, Ord)]
pub struct Label {
    id: &'static str,
}

impl View for Label {
    type V = Seq<char>;

    closed spec fn view(&self) -> Seq<char> {
        self.id@
    }
}

impl Label {
    #[verifier::type_invariant]
    spec fn inv(self) -> bool {
        is_valid_id(self.id@)
    }

    /// The text of this label, which obeys the rules of an identifier.
    pub fn as_str(&self) -> (r: &'static str)
        ensures
            r@ == self@,
            is_valid_id(self@),
    {
        proof {
            use_type_invariant(self);
        }
        self.id
    }
}

/// The label of `id`. Its text is not checked: the caller owes that it obeys the
/// rules of an identifier.
pub fn label(id: &'static str) -> (r: Label)
    requires
        is_valid_id(id@),
    ensures
        r@ == id@,
{
    Label { id }
}

} // verus!
