//! The rules that every identifier obeys, and the check that enforces them.

use vstd::prelude::*;
use vstd::string::*;

use crate::decimal::{decimal, decimal_text};

verus! {

/// The number of reserved patterns.
pub const RESERVED_COUNT: usize = 21;

/// An ASCII control character: a code point below 32.
pub open spec fn is_control(c: char) -> bool {
    (c as u32) < 32
}

/// A character with the Unicode `White_Space` property.
pub open spec fn is_white_space(c: char) -> bool {
    let u = c as u32;
    ||| 0x9 <= u <= 0xd
    ||| u == 0x20
    ||| u == 0x85
    ||| u == 0xa0
    ||| u == 0x1680
    ||| 0x2000 <= u <= 0x200a
    ||| u == 0x2028
    ||| u == 0x2029
    ||| u == 0x202f
    ||| u == 0x205f
    ||| u == 0x3000
}

/// The reserved patterns, in the order in which they are checked.
pub open spec fn reserved_at(k: int) -> Seq<char> {
    if k == 0 { seq!['/'] }
    else if k == 1 { seq!['.', '.'] }
    else if k == 2 { seq!['~'] }
    else if k == 3 { seq!['$'] }
    else if k == 4 { seq!['`'] }
    else if k == 5 { seq!['&'] }
    else if k == 6 { seq!['|'] }
    else if k == 7 { seq!['='] }
    else if k == 8 { seq!['^'] }
    else if k == 9 { seq!['{'] }
    else if k == 10 { seq!['}'] }
    else if k == 11 { seq!['<'] }
    else if k == 12 { seq!['>'] }
    else if k == 13 { seq!['\''] }
    else if k == 14 { seq!['"'] }
    else if k == 15 { seq!['?'] }
    else if k == 16 { seq![':'] }
    else if k == 17 { seq!['@'] }
    else if k == 18 { seq!['#'] }
    else if k == 19 { seq!['('] }
    else { seq![')'] }
}

/// The reserved pattern at position `k` of the order in which they are checked.
pub fn reserved_pattern(k: usize) -> (r: &'static str)
    requires
        k < RESERVED_COUNT,
    ensures
        r@ == reserved_at(k as int),
{
    if k == 0 {
        proof {
            reveal_strlit("/");
        }
        "/"
    } else if k == 1 {
        proof {
            reveal_strlit("..");
        }
        ".."
    } else if k == 2 {
        proof {
            reveal_strlit("~");
        }
        "~"
    } else if k == 3 {
        proof {
            reveal_strlit("$");
        }
        "$"
    } else if k == 4 {
        proof {
            reveal_strlit("`");
        }
        "`"
    } else if k == 5 {
        proof {
            reveal_strlit("&");
        }
        "&"
    } else if k == 6 {
        proof {
            reveal_strlit("|");
        }
        "|"
    } else if k == 7 {
        proof {
            reveal_strlit("=");
        }
        "="
    } else if k == 8 {
        proof {
            reveal_strlit("^");
        }
        "^"
    } else if k == 9 {
        proof {
            reveal_strlit("{");
        }
        "{"
    } else if k == 10 {
        proof {
            reveal_strlit("}");
        }
        "}"
    } else if k == 11 {
        proof {
            reveal_strlit("<");
        }
        "<"
    } else if k == 12 {
        proof {
            reveal_strlit(">");
        }
        ">"
    } else if k == 13 {
        proof {
            reveal_strlit("'");
        }
        "'"
    } else if k == 14 {
        proof {
            reveal_strlit("\"");
        }
        "\""
    } else if k == 15 {
        proof {
            reveal_strlit("?");
        }
        "?"
    } else if k == 16 {
        proof {
            reveal_strlit(":");
        }
        ":"
    } else if k == 17 {
        proof {
            reveal_strlit("@");
        }
        "@"
    } else if k == 18 {
        proof {
            reveal_strlit("#");
        }
        "#"
    } else if k == 19 {
        proof {
            reveal_strlit("(");
        }
        "("
    } else {
        proof {
            reveal_strlit(")");
        }
        ")"
    }
}

/// `p` occurs in `s` as a contiguous run of characters.
pub open spec fn contains_sub(s: Seq<char>, p: Seq<char>) -> bool {
    exists|i: int| 0 <= i && i + p.len() <= s.len() && #[trigger] s.subrange(i, i + p.len()) == p
}

pub open spec fn has_control(s: Seq<char>) -> bool {
    exists|i: int| 0 <= i < s.len() && is_control(#[trigger] s[i])
}

pub open spec fn has_reserved(s: Seq<char>) -> bool {
    exists|k: int| 0 <= k < RESERVED_COUNT && #[trigger] contains_sub(s, reserved_at(k))
}

pub open spec fn has_white_space(s: Seq<char>) -> bool {
    exists|i: int| 0 <= i < s.len() && is_white_space(#[trigger] s[i])
}

/// The rules of an identifier: not empty, no control character, no reserved
/// pattern, no white space.
pub open spec fn is_valid_id(s: Seq<char>) -> bool {
    &&& s.len() > 0
    &&& !has_control(s)
    &&& !has_reserved(s)
    &&& !has_white_space(s)
}

/// The index of the first character of `s` that satisfies `f` (`s.len()` if none does).
pub open spec fn first_index(s: Seq<char>, f: spec_fn(char) -> bool) -> int
    decreases s.len(),
{
    if s.len() == 0 {
        0
    } else if f(s[0]) {
        0
    } else {
        1 + first_index(s.drop_first(), f)
    }
}

/// The index of the first control character of `s`.
pub open spec fn first_control(s: Seq<char>) -> int {
    first_index(s, |c: char| is_control(c))
}

/// The index of the first white-space character of `s`.
pub open spec fn first_white_space(s: Seq<char>) -> int {
    first_index(s, |c: char| is_white_space(c))
}

/// The first reserved pattern, from `k` on, that occurs in `s` (`RESERVED_COUNT` if none does).
pub open spec fn first_reserved(s: Seq<char>, k: int) -> int
    decreases RESERVED_COUNT - k,
{
    if k >= RESERVED_COUNT {
        RESERVED_COUNT as int
    } else if contains_sub(s, reserved_at(k)) {
        k
    } else {
        first_reserved(s, k + 1)
    }
}

/// Which rule an invalid identifier breaks first.
#[derive(Debug)]
pub enum Violation {
    Empty,
    Control,
    Reserved,
    WhiteSpace,
}

/// The first rule that `s` breaks, in the order empty, control character,
/// reserved pattern, white space.
pub open spec fn violation(s: Seq<char>) -> Option<Violation> {
    if s.len() == 0 {
        Some(Violation::Empty)
    } else if has_control(s) {
        Some(Violation::Control)
    } else if has_reserved(s) {
        Some(Violation::Reserved)
    } else if has_white_space(s) {
        Some(Violation::WhiteSpace)
    } else {
        None
    }
}

pub open spec fn empty_message() -> Seq<char> {
    "cannot construct an empty identifier"@
}

pub open spec fn control_message(s: Seq<char>, c: char) -> Seq<char> {
    "Id "@ + s + " contains ASCII control characters "@ + decimal((c as u32) as nat)
}

pub open spec fn reserved_message(s: Seq<char>, p: Seq<char>) -> Seq<char> {
    "Id "@ + s + " contains disallowed pattern "@ + p
}

pub open spec fn white_space_message(s: Seq<char>, w: char) -> Seq<char> {
    "Id "@ + s + " is not allowed to contain whitespace \""@ + seq![w] + "\""@
}

/// The message with which `s` is rejected, or `None` where it is a valid identifier.
pub open spec fn rejection(s: Seq<char>) -> Option<Seq<char>> {
    match violation(s) {
        None => None,
        Some(Violation::Empty) => Some(empty_message()),
        Some(Violation::Control) => Some(
            control_message(s, s[first_control(s)]),
        ),
        Some(Violation::Reserved) => Some(reserved_message(s, reserved_at(first_reserved(s, 0)))),
        Some(Violation::WhiteSpace) => Some(
            white_space_message(s, s[first_white_space(s)]),
        ),
    }
}

pub proof fn lemma_first_index(s: Seq<char>, f: spec_fn(char) -> bool, i: int)
    requires
        0 <= i <= s.len(),
        forall|k: int| 0 <= k < i ==> !f(#[trigger] s[k]),
        i < s.len() ==> f(s[i]),
    ensures
        first_index(s, f) == i,
    decreases s.len(),
{
    if s.len() > 0 && i > 0 {
        assert forall|k: int| 0 <= k < i - 1 implies !f(#[trigger] s.drop_first()[k]) by {
            assert(s.drop_first()[k] == s[k + 1]);
        }
        lemma_first_index(s.drop_first(), f, i - 1);
    }
}

pub proof fn lemma_first_reserved(s: Seq<char>, j: int, k: int)
    requires
        0 <= j <= k < RESERVED_COUNT,
        forall|t: int| j <= t < k ==> !#[trigger] contains_sub(s, reserved_at(t)),
        contains_sub(s, reserved_at(k)),
    ensures
        first_reserved(s, j) == k,
    decreases k - j,
{
    if j < k {
        lemma_first_reserved(s, j + 1, k);
    }
}

pub proof fn lemma_first_index_found(s: Seq<char>, f: spec_fn(char) -> bool, i: int)
    requires
        0 <= i < s.len(),
        f(s[i]),
    ensures
        0 <= first_index(s, f) <= i,
        f(s[first_index(s, f)]),
    decreases s.len(),
{
    if !f(s[0]) {
        assert(s.drop_first()[i - 1] == s[i]);
        lemma_first_index_found(s.drop_first(), f, i - 1);
    }
}

pub proof fn lemma_first_reserved_found(s: Seq<char>, j: int, k: int)
    requires
        0 <= j <= k < RESERVED_COUNT,
        contains_sub(s, reserved_at(k)),
    ensures
        j <= first_reserved(s, j) <= k,
        contains_sub(s, reserved_at(first_reserved(s, j))),
    decreases k - j,
{
    if j < k && !contains_sub(s, reserved_at(j)) {
        lemma_first_reserved_found(s, j + 1, k);
    }
}

/// A text is rejected exactly when it breaks a rule. The rules are checked in the
/// order empty, control character, reserved pattern, white space, and the
/// message names the first one broken, with the first offending character or
/// pattern.
pub proof fn law_rejection_order(s: Seq<char>)
    ensures
        rejection(s) is None <==> is_valid_id(s),
        s.len() == 0 ==> rejection(s) == Some(empty_message()),
        s.len() > 0 && has_control(s) ==> {
            let i = first_control(s);
            &&& 0 <= i < s.len()
            &&& is_control(s[i])
            &&& rejection(s) == Some(control_message(s, s[i]))
        },
        s.len() > 0 && !has_control(s) && has_reserved(s) ==> {
            let k = first_reserved(s, 0);
            &&& 0 <= k < RESERVED_COUNT
            &&& contains_sub(s, reserved_at(k))
            &&& rejection(s) == Some(reserved_message(s, reserved_at(k)))
        },
        s.len() > 0 && !has_control(s) && !has_reserved(s) && has_white_space(s) ==> {
            let i = first_white_space(s);
            &&& 0 <= i < s.len()
            &&& is_white_space(s[i])
            &&& rejection(s) == Some(white_space_message(s, s[i]))
        },
{
    if has_control(s) {
        let i = choose|i: int| 0 <= i < s.len() && is_control(#[trigger] s[i]);
        lemma_first_index_found(s, |c: char| is_control(c), i);
    }
    if has_reserved(s) {
        let k = choose|k: int| 0 <= k < RESERVED_COUNT && #[trigger] contains_sub(s, reserved_at(k));
        lemma_first_reserved_found(s, 0, k);
    }
    if has_white_space(s) {
        let i = choose|i: int| 0 <= i < s.len() && is_white_space(#[trigger] s[i]);
        lemma_first_index_found(s, |c: char| is_white_space(c), i);
    }
}

/// An error met while parsing an identifier.
#[derive(Debug)]
pub struct ParseError {
    msg: String,
}

impl View for ParseError {
    type V = Seq<char>;

    closed spec fn view(&self) -> Seq<char> {
        self.msg@
    }
}

impl ParseError {
    /// The message that names the rule that was broken.
    pub fn to_string(&self) -> (r: String)
        ensures
            r@ == self@,
    {
        self.msg.clone()
    }
}

impl From<String> for ParseError {
    fn from(msg: String) -> (r: ParseError)
        ensures
            r@ == msg@,
    {
        ParseError { msg }
    }
}

impl vstd::std_specs::convert::FromSpecImpl<String> for ParseError {
    open spec fn obeys_from_spec() -> bool {
        false
    }

    open spec fn from_spec(msg: String) -> ParseError {
        arbitrary()
    }
}

impl From<&str> for ParseError {
    fn from(msg: &str) -> (r: ParseError)
        ensures
            r@ == msg@,
    {
        ParseError { msg: String::from_str(msg) }
    }
}

impl vstd::std_specs::convert::FromSpecImpl<&str> for ParseError {
    open spec fn obeys_from_spec() -> bool {
        false
    }

    open spec fn from_spec(msg: &str) -> ParseError {
        arbitrary()
    }
}

/// The characters of `s`.
pub fn chars_of(s: &str) -> (r: Vec<char>)
    ensures
        r@ == s@,
{
    let n = s.unicode_len();
    let mut v: Vec<char> = Vec::new();
    let mut i: usize = 0;
    while i < n
        invariant
            n == s@.len(),
            i <= n,
            v@ == s@.subrange(0, i as int),
        decreases n - i,
    {
        v.push(s.get_char(i));
        i += 1;
    }
    assert(v@ == s@);
    v
}

/// Whether `p` occurs in `s` at position `i`.
fn matches_at(s: &Vec<char>, p: &Vec<char>, i: usize) -> (r: bool)
    requires
        i + p@.len() <= s@.len(),
    ensures
        r == (s@.subrange(i as int, i + p@.len()) == p@),
{
    let mut j: usize = 0;
    while j < p.len()
        invariant
            i + p@.len() <= s@.len(),
            j <= p@.len(),
            forall|t: int| 0 <= t < j ==> s@[i + t] == p@[t],
        decreases p@.len() - j,
    {
        assert(i + j < s.len());
        if s[i + j] != p[j] {
            assert(s@.subrange(i as int, i + p@.len())[j as int] != p@[j as int]);
            return false;
        }
        j += 1;
    }
    assert(s@.subrange(i as int, i + p@.len()) == p@);
    true
}

/// Whether `p` occurs in `s`.
pub fn contains_chars(s: &Vec<char>, p: &Vec<char>) -> (r: bool)
    ensures
        r == contains_sub(s@, p@),
{
    if p.len() > s.len() {
        return false;
    }
    if p.len() == 0 {
        assert(s@.subrange(0int, 0int + p@.len()) == p@);
        return true;
    }
    let end = s.len() - p.len() + 1;
    let mut i: usize = 0;
    while i < end
        invariant
            end + p@.len() == s@.len() + 1,
            i <= end,
            forall|k: int| 0 <= k < i ==> #[trigger] s@.subrange(k, k + p@.len()) != p@,
        decreases end - i,
    {
        if matches_at(s, p, i) {
            return true;
        }
        i += 1;
    }
    assert(!contains_sub(s@, p@)) by {
        if contains_sub(s@, p@) {
            let k = choose|k: int|
                0 <= k && k + p@.len() <= s@.len() && #[trigger] s@.subrange(k, k + p@.len()) == p@;
            assert(s@.subrange(k, k + p@.len()) != p@);
        }
    }
    false
}

/// Relies on regex::Regex::find with the pattern `\s`: in Unicode mode it matches
/// exactly one character of the `White_Space` property, and `find` returns the
/// leftmost match, or `None` where there is none.
#[verifier::external_body]
fn find_white_space(s: &str) -> (r: Option<String>)
    ensures
        r is None <==> !has_white_space(s@),
        r matches Some(w) ==> w@ == seq![s@[first_white_space(s@)]],
{
    regex::Regex::new(r"\s").expect("white space pattern").find(s).map(|m| m.as_str().to_string())
}

fn prefixed_message(id: &str, middle: &str, tail: &str) -> (r: String)
    ensures
        r@ == "Id "@ + id@ + middle@ + tail@,
{
    let mut m = String::from_str("Id ");
    m.append(id);
    m.append(middle);
    m.append(tail);
    m
}

/// Checks `id` against the rules of an identifier, in the order empty, control
/// character, reserved pattern, white space, and names the first rule broken.
pub fn validate_id(id: &str) -> (r: Result<(), ParseError>)
    ensures
        r is Ok <==> is_valid_id(id@),
        r matches Err(e) ==> rejection(id@) == Some(e@),
{
    if id.is_empty() {
        return Err(ParseError { msg: String::from_str("cannot construct an empty identifier") });
    }
    let v = chars_of(id);
    let mut i: usize = 0;
    while i < v.len()
        invariant
            v@ == id@,
            i <= v@.len(),
            forall|t: int| 0 <= t < i ==> !is_control(#[trigger] id@[t]),
        decreases v@.len() - i,
    {
        let c = v[i];
        if (c as u32) < 32 {
            proof {
                lemma_first_index(id@, |c: char| is_control(c), i as int);
                assert(first_control(id@) == i as int);
            }
            let code = decimal_text(c as u32 as u64);
            let msg = prefixed_message(id, " contains ASCII control characters ", code.as_str());
            return Err(ParseError { msg });
        }
        i += 1;
    }
    let mut k: usize = 0;
    while k < RESERVED_COUNT
        invariant
            v@ == id@,
            id@.len() > 0,
            !has_control(id@),
            k <= RESERVED_COUNT,
            forall|t: int| 0 <= t < k ==> !#[trigger] contains_sub(id@, reserved_at(t)),
        decreases RESERVED_COUNT - k,
    {
        let p = reserved_pattern(k);
        let pv = chars_of(p);
        if contains_chars(&v, &pv) {
            proof {
                lemma_first_reserved(id@, 0, k as int);
            }
            let msg = prefixed_message(id, " contains disallowed pattern ", p);
            return Err(ParseError { msg });
        }
        k += 1;
    }
    match find_white_space(id) {
        Some(w) => {
            let mut msg = prefixed_message(id, " is not allowed to contain whitespace \"", w.as_str());
            msg.append("\"");
            Err(ParseError { msg })
        },
        None => Ok(()),
    }
}

} // verus!
