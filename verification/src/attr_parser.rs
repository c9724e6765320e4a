//! The attribute matcher language: declarative conditions on attribute
//! values, with a parser for the bracket-delimited grammar and an evaluator
//! for the six comparison operators.

use vstd::prelude::*;
use vstd::string::StrSliceExecFns;

verus! {

/// A comparison operator of the attribute matcher language.
#[derive(Debug, Clone, Copy, PartialEq, Eq, Structural)]
pub enum AttrOperator {
    /// `=`: the element value equals the matcher value exactly.
    Equals,
    /// `~=`: the matcher value appears as a whole whitespace-separated token.
    Includes,
    /// `|=`: equal, or the element value starts with the value plus `-`.
    DashMatch,
    /// `^=`: the element value starts with the matcher value.
    Prefix,
    /// `$=`: the element value ends with the matcher value.
    Suffix,
    /// `*=`: the element value contains the matcher value.
    Substring,
}

/// An operator together with the value it compares against.
#[derive(Debug, Clone, PartialEq, Eq)]
pub struct AttrValue {
    pub op: AttrOperator,
    pub value: String,
}

/// The ghost image of an [`AttrValue`].
#[verifier::ext_equal]
pub struct AttrValueModel {
    pub op: AttrOperator,
    pub value: Seq<char>,
}

impl View for AttrValue {
    type V = AttrValueModel;

    open spec fn view(&self) -> AttrValueModel {
        AttrValueModel { op: self.op, value: self.value@ }
    }
}

/// A parsed attribute condition: a key and an optional value comparison.
#[derive(Debug, Clone, PartialEq, Eq)]
pub struct AttrMatcher {
    pub key: String,
    pub value: Option<AttrValue>,
}

/// The ghost image of an [`AttrMatcher`].
#[verifier::ext_equal]
pub struct AttrMatcherModel {
    pub key: Seq<char>,
    pub value: Option<AttrValueModel>,
}

impl View for AttrMatcher {
    type V = AttrMatcherModel;

    open spec fn view(&self) -> AttrMatcherModel {
        AttrMatcherModel {
            key: self.key@,
            value: match self.value {
                Some(v) => Some(v@),
                None => None,
            },
        }
    }
}

/// The error returned when an attribute condition does not parse; it carries
/// the offending input.
#[derive(Debug, Clone, PartialEq, Eq)]
pub struct AttrMatcherParseError {
    pub input: String,
}

/// The whitespace characters that separate tokens for the `~=` operator.
pub open spec fn is_selector_space(c: char) -> bool {
    c == ' ' || c == '\t' || c == '\n' || c == '\r' || c == '\x0c'
}

/// `s` is a prefix of `e`.
pub open spec fn seq_starts_with(e: Seq<char>, s: Seq<char>) -> bool {
    s.len() <= e.len() && e.subrange(0, s.len() as int) == s
}

/// `s` is a suffix of `e`.
pub open spec fn seq_ends_with(e: Seq<char>, s: Seq<char>) -> bool {
    s.len() <= e.len() && e.subrange(e.len() - s.len(), e.len() as int) == s
}

/// `s` occurs in `e` at position `i`.
pub open spec fn seq_contains_at(e: Seq<char>, s: Seq<char>, i: int) -> bool {
    0 <= i && i + s.len() <= e.len() && e.subrange(i, i + s.len()) == s
}

/// `s` occurs somewhere in `e`.
pub open spec fn seq_contains(e: Seq<char>, s: Seq<char>) -> bool {
    exists|i: int| seq_contains_at(e, s, i)
}

/// `s` occurs in `e` at position `i` as a whole whitespace-separated token.
pub open spec fn token_at(e: Seq<char>, s: Seq<char>, i: int) -> bool {
    &&& seq_contains_at(e, s, i)
    &&& (i == 0 || is_selector_space(e[i - 1]))
    &&& (i + s.len() == e.len() || is_selector_space(e[i + s.len()]))
}

/// `s` is one of the whitespace-separated tokens of `e`.
pub open spec fn has_token(e: Seq<char>, s: Seq<char>) -> bool {
    &&& (forall|k: int| 0 <= k < s.len() ==> !is_selector_space(s[k]))
    &&& exists|i: int| token_at(e, s, i)
}

/// What it means for an element value `e` to satisfy operator `op` with
/// matcher value `s`. An empty element value never matches, and an empty
/// matcher value never matches under `=`, `~=` or `|=`.
pub open spec fn spec_attr_value_match(op: AttrOperator, s: Seq<char>, e: Seq<char>) -> bool {
    e.len() > 0 && match op {
        AttrOperator::Equals => e == s,
        AttrOperator::Includes => s.len() > 0 && has_token(e, s),
        AttrOperator::DashMatch => s.len() > 0 && (e == s || (s.len() < e.len()
            && seq_starts_with(e, s) && e[s.len() as int] == '-')),
        AttrOperator::Prefix => seq_starts_with(e, s),
        AttrOperator::Suffix => seq_ends_with(e, s),
        AttrOperator::Substring => seq_contains(e, s),
    }
}

/// Copies the characters of a string into a vector.
pub fn str_to_chars(s: &str) -> (v: Vec<char>)
    ensures
        v@ == s@,
{
    let n = s.unicode_len();
    let mut v: Vec<char> = Vec::new();
    let mut i: usize = 0;
    while i < n
        invariant
            i <= n,
            n == s@.len(),
            v@ == s@.subrange(0, i as int),
        decreases n - i,
    {
        v.push(s.get_char(i));
        assert(v@ =~= s@.subrange(0, i + 1 as int));
        i = i + 1;
    }
    assert(v@ =~= s@);
    v
}

/// Whether `c` is one of the whitespace characters of the matcher language.
pub(crate) fn is_selector_space_exec(c: char) -> (r: bool)
    ensures
        r == is_selector_space(c),
{
    c == ' ' || c == '\t' || c == '\n' || c == '\r' || c == '\x0c'
}

/// Whether `s` occurs in `e` at position `at`.
pub(crate) fn chars_match_at(e: &Vec<char>, s: &Vec<char>, at: usize) -> (r: bool)
    requires
        at + s@.len() <= e@.len(),
    ensures
        r == seq_contains_at(e@, s@, at as int),
{
    let mut k: usize = 0;
    while k < s.len()
        invariant
            k <= s@.len(),
            at + s@.len() <= e@.len(),
            e.len() == e@.len(),
            s.len() == s@.len(),
            forall|j: int| 0 <= j < k ==> e@[at + j] == s@[j],
        decreases s@.len() - k,
    {
        if e[at + k] != s[k] {
            assert(e@.subrange(at as int, at + s@.len()) != s@) by {
                assert(e@.subrange(at as int, at + s@.len())[k as int] != s@[k as int]);
            }
            return false;
        }
        k = k + 1;
    }
    assert(e@.subrange(at as int, at + s@.len()) =~= s@);
    true
}

/// Whether `s` is a prefix of `e`.
pub(crate) fn chars_starts_with(e: &Vec<char>, s: &Vec<char>) -> (r: bool)
    ensures
        r == seq_starts_with(e@, s@),
{
    if s.len() > e.len() {
        return false;
    }
    let r = chars_match_at(e, s, 0);
    assert(e@.subrange(0, s@.len() as int) == e@.subrange(0, 0 + s@.len() as int));
    r
}

/// Whether `s` is a suffix of `e`.
pub(crate) fn chars_ends_with(e: &Vec<char>, s: &Vec<char>) -> (r: bool)
    ensures
        r == seq_ends_with(e@, s@),
{
    if s.len() > e.len() {
        return false;
    }
    let at = e.len() - s.len();
    let r = chars_match_at(e, s, at);
    assert(e@.subrange(e@.len() - s@.len(), e@.len() as int) == e@.subrange(
        at as int,
        at + s@.len(),
    ));
    r
}

/// Whether two character vectors hold the same characters.
pub(crate) fn chars_eq(a: &Vec<char>, b: &Vec<char>) -> (r: bool)
    ensures
        r == (a@ == b@),
{
    if a.len() != b.len() {
        return false;
    }
    let r = chars_match_at(a, b, 0);
    proof {
        if r {
            assert(a@.subrange(0, 0 + b@.len() as int) =~= a@);
        } else {
            assert(a@.subrange(0, 0 + b@.len() as int) =~= a@);
        }
    }
    r
}

/// Whether `s` occurs somewhere in `e`.
pub(crate) fn chars_contains(e: &Vec<char>, s: &Vec<char>) -> (r: bool)
    ensures
        r == seq_contains(e@, s@),
{
    if s.len() > e.len() {
        assert(forall|i: int| !seq_contains_at(e@, s@, i));
        return false;
    }
    let last = e.len() - s.len();
    let mut i: usize = 0;
    loop
        invariant
            i <= last,
            s@.len() <= e@.len(),
            last == e@.len() - s@.len(),
            forall|j: int| 0 <= j < i ==> !seq_contains_at(e@, s@, j),
        decreases last - i,
    {
        if chars_match_at(e, s, i) {
            return true;
        }
        if i == last {
            assert(forall|j: int| seq_contains_at(e@, s@, j) ==> 0 <= j <= last);
            return false;
        }
        i = i + 1;
    }
}

/// Whether `s` is one of the whitespace-separated tokens of `e`.
pub(crate) fn chars_has_token(e: &Vec<char>, s: &Vec<char>) -> (r: bool)
    ensures
        r == has_token(e@, s@),
{
    let mut k: usize = 0;
    while k < s.len()
        invariant
            k <= s@.len(),
            forall|j: int| 0 <= j < k ==> !is_selector_space(s@[j]),
        decreases s@.len() - k,
    {
        if is_selector_space_exec(s[k]) {
            return false;
        }
        k = k + 1;
    }
    if s.len() > e.len() {
        assert(forall|i: int| !token_at(e@, s@, i));
        return false;
    }
    let last = e.len() - s.len();
    let mut i: usize = 0;
    loop
        invariant
            i <= last,
            s@.len() <= e@.len(),
            last == e@.len() - s@.len(),
            e.len() == e@.len(),
            s.len() == s@.len(),
            forall|j: int| 0 <= j < s@.len() ==> !is_selector_space(s@[j]),
            forall|j: int| 0 <= j < i ==> !token_at(e@, s@, j),
        decreases last - i,
    {
        if chars_match_at(e, s, i) {
            let left_ok = i == 0 || is_selector_space_exec(e[i - 1]);
            let right_ok = i + s.len() == e.len() || is_selector_space_exec(e[i + s.len()]);
            if left_ok && right_ok {
                assert(token_at(e@, s@, i as int));
                return true;
            }
        }
        if i == last {
            assert(forall|j: int| token_at(e@, s@, j) ==> 0 <= j <= last);
            return false;
        }
        i = i + 1;
    }
}

impl AttrValue {
    /// Evaluates this operator and value against an element's attribute
    /// value, as [`spec_attr_value_match`] defines it.
    pub fn is_match(&self, elem_value: &str) -> (r: bool)
        ensures
            r == spec_attr_value_match(self.op, self.value@, elem_value@),
    {
        let e = str_to_chars(elem_value);
        if e.len() == 0 {
            return false;
        }
        let s = str_to_chars(self.value.as_str());
        match self.op {
            AttrOperator::Equals => {
                if e.len() != s.len() {
                    return false;
                }
                let r = chars_match_at(&e, &s, 0);
                assert(e@.subrange(0, 0 + s@.len() as int) =~= e@);
                r
            },
            AttrOperator::Includes => s.len() > 0 && chars_has_token(&e, &s),
            AttrOperator::DashMatch => {
                if s.len() == 0 {
                    return false;
                }
                if e.len() == s.len() {
                    let r = chars_match_at(&e, &s, 0);
                    assert(e@.subrange(0, 0 + s@.len() as int) =~= e@);
                    r
                } else if s.len() < e.len() {
                    chars_starts_with(&e, &s) && e[s.len()] == '-'
                } else {
                    false
                }
            },
            AttrOperator::Prefix => chars_starts_with(&e, &s),
            AttrOperator::Suffix => chars_ends_with(&e, &s),
            AttrOperator::Substring => chars_contains(&e, &s),
        }
    }
}

/// Whitespace accepted around an operator.
pub open spec fn is_op_space(c: char) -> bool {
    c == ' ' || c == '\t' || c == '\n' || c == '\r'
}

/// Characters allowed in a key: ASCII letters, digits and `-`.
pub open spec fn is_key_char(c: char) -> bool {
    let u = c as u32;
    (48 <= u && u <= 57) || (65 <= u && u <= 90) || (97 <= u && u <= 122) || c == '-'
}

/// The first position at or after `i` that does not hold operator whitespace.
pub open spec fn skip_spaces(s: Seq<char>, i: int) -> int
    decreases s.len() - i,
{
    if 0 <= i && i < s.len() && is_op_space(s[i]) {
        skip_spaces(s, i + 1)
    } else {
        i
    }
}

/// The first position at or after `i` that does not hold a key character.
pub open spec fn key_end(s: Seq<char>, i: int) -> int
    decreases s.len() - i,
{
    if 0 <= i && i < s.len() && is_key_char(s[i]) {
        key_end(s, i + 1)
    } else {
        i
    }
}

/// The first position at or after `i` that holds a double quote, or the end.
pub open spec fn quote_end(s: Seq<char>, i: int) -> int
    decreases s.len() - i,
{
    if 0 <= i && i < s.len() && s[i] != '"' {
        quote_end(s, i + 1)
    } else {
        i
    }
}

/// The operator standing exactly at position `j`, with the position after it.
pub open spec fn spec_op_at(s: Seq<char>, j: int) -> Option<(AttrOperator, int)> {
    if 0 <= j && j + 1 < s.len() && s[j + 1] == '=' && s[j] == '~' {
        Some((AttrOperator::Includes, j + 2))
    } else if 0 <= j && j + 1 < s.len() && s[j + 1] == '=' && s[j] == '|' {
        Some((AttrOperator::DashMatch, j + 2))
    } else if 0 <= j && j + 1 < s.len() && s[j + 1] == '=' && s[j] == '^' {
        Some((AttrOperator::Prefix, j + 2))
    } else if 0 <= j && j + 1 < s.len() && s[j + 1] == '=' && s[j] == '$' {
        Some((AttrOperator::Suffix, j + 2))
    } else if 0 <= j && j + 1 < s.len() && s[j + 1] == '=' && s[j] == '*' {
        Some((AttrOperator::Substring, j + 2))
    } else if 0 <= j && j < s.len() && s[j] == '=' {
        Some((AttrOperator::Equals, j + 1))
    } else {
        None
    }
}

/// An operator with surrounding whitespace, starting at position `i`; the
/// returned position stands after the trailing whitespace.
pub open spec fn spec_parse_operator(s: Seq<char>, i: int) -> Option<(AttrOperator, int)> {
    let j = skip_spaces(s, i);
    match spec_op_at(s, j) {
        Some((op, k)) => Some((op, skip_spaces(s, k))),
        None => None,
    }
}

/// The outcome of looking for an optional operator-and-value at a position.
pub enum ValueParse {
    /// No operator stands here: the condition has no value part.
    NoValue,
    /// An operator and a value were read; the position stands after them.
    Value(AttrValueModel, int),
    /// An operator was read but its quoted value never ends: a hard error.
    Failure,
}

/// Parses an optional operator-and-value at position `i`: either nothing,
/// a value (quoted, or the whole rest of the input), or a hard error for an
/// unterminated or empty quoted value.
pub open spec fn spec_parse_opt_value(s: Seq<char>, i: int) -> ValueParse {
    match spec_parse_operator(s, i) {
        None => ValueParse::NoValue,
        Some((op, j)) => {
            if 0 <= j && j < s.len() && s[j] == '"' {
                let q = quote_end(s, j + 1);
                if q == j + 1 {
                    ValueParse::Failure
                } else if q < s.len() {
                    ValueParse::Value(AttrValueModel { op, value: s.subrange(j + 1, q) }, q + 1)
                } else {
                    ValueParse::Failure
                }
            } else {
                ValueParse::Value(
                    AttrValueModel { op, value: s.subrange(j, s.len() as int) },
                    s.len() as int,
                )
            }
        },
    }
}

/// Parses a whole attribute condition, bracketed or bare. `None` is a parse
/// error. Input after the closing bracket, or after a value-less bare key,
/// is ignored.
pub open spec fn spec_parse_attr(s: Seq<char>) -> Option<AttrMatcherModel> {
    if s.len() > 0 && s[0] == '[' {
        let ke = key_end(s, 1);
        if ke == 1 {
            None
        } else {
            match spec_parse_opt_value(s, ke) {
                ValueParse::Failure => None,
                ValueParse::NoValue => if ke < s.len() && s[ke] == ']' {
                    Some(AttrMatcherModel { key: s.subrange(1, ke), value: None })
                } else {
                    None
                },
                ValueParse::Value(v, j) => if j < s.len() && s[j] == ']' {
                    Some(AttrMatcherModel { key: s.subrange(1, ke), value: Some(v) })
                } else {
                    None
                },
            }
        }
    } else {
        let ke = key_end(s, 0);
        if ke == 0 {
            None
        } else {
            match spec_parse_opt_value(s, ke) {
                ValueParse::Failure => None,
                ValueParse::NoValue => Some(
                    AttrMatcherModel { key: s.subrange(0, ke), value: None },
                ),
                ValueParse::Value(v, _) => Some(
                    AttrMatcherModel { key: s.subrange(0, ke), value: Some(v) },
                ),
            }
        }
    }
}

/// Whether `c` is whitespace accepted around an operator.
fn is_op_space_exec(c: char) -> (r: bool)
    ensures
        r == is_op_space(c),
{
    c == ' ' || c == '\t' || c == '\n' || c == '\r'
}

/// Whether `c` may stand in a key.
fn is_key_char_exec(c: char) -> (r: bool)
    ensures
        r == is_key_char(c),
{
    let u = c as u32;
    (48 <= u && u <= 57) || (65 <= u && u <= 90) || (97 <= u && u <= 122) || c == '-'
}

/// Walks past operator whitespace.
fn skip_spaces_exec(v: &Vec<char>, i: usize) -> (r: usize)
    requires
        i <= v@.len(),
    ensures
        r as int == skip_spaces(v@, i as int),
        i <= r <= v@.len(),
{
    let mut cur = i;
    while cur < v.len() && is_op_space_exec(v[cur])
        invariant
            i <= cur <= v@.len(),
            v.len() == v@.len(),
            skip_spaces(v@, i as int) == skip_spaces(v@, cur as int),
        decreases v@.len() - cur,
    {
        cur = cur + 1;
    }
    cur
}

/// Walks past key characters.
fn key_end_exec(v: &Vec<char>, i: usize) -> (r: usize)
    requires
        i <= v@.len(),
    ensures
        r as int == key_end(v@, i as int),
        i <= r <= v@.len(),
{
    let mut cur = i;
    while cur < v.len() && is_key_char_exec(v[cur])
        invariant
            i <= cur <= v@.len(),
            v.len() == v@.len(),
            key_end(v@, i as int) == key_end(v@, cur as int),
        decreases v@.len() - cur,
    {
        cur = cur + 1;
    }
    cur
}

/// Walks to the next double quote, or to the end.
fn quote_end_exec(v: &Vec<char>, i: usize) -> (r: usize)
    requires
        i <= v@.len(),
    ensures
        r as int == quote_end(v@, i as int),
        i <= r <= v@.len(),
{
    let mut cur = i;
    while cur < v.len() && v[cur] != '"'
        invariant
            i <= cur <= v@.len(),
            v.len() == v@.len(),
            quote_end(v@, i as int) == quote_end(v@, cur as int),
        decreases v@.len() - cur,
    {
        cur = cur + 1;
    }
    cur
}

/// Reads the operator standing exactly at position `j`.
fn op_at_exec(v: &Vec<char>, j: usize) -> (r: Option<(AttrOperator, usize)>)
    requires
        j <= v@.len(),
    ensures
        match r {
            Some((op, k)) => spec_op_at(v@, j as int) == Some((op, k as int)) && k <= v@.len(),
            None => spec_op_at(v@, j as int) is None,
        },
{
    if j < v.len() {
        if j + 1 < v.len() && v[j + 1] == '=' {
            if v[j] == '~' {
                return Some((AttrOperator::Includes, j + 2));
            }
            if v[j] == '|' {
                return Some((AttrOperator::DashMatch, j + 2));
            }
            if v[j] == '^' {
                return Some((AttrOperator::Prefix, j + 2));
            }
            if v[j] == '$' {
                return Some((AttrOperator::Suffix, j + 2));
            }
            if v[j] == '*' {
                return Some((AttrOperator::Substring, j + 2));
            }
        }
        if v[j] == '=' {
            return Some((AttrOperator::Equals, j + 1));
        }
    }
    None
}

/// Parses an operator with its surrounding whitespace, as the matcher
/// grammar allows between a key and a value.
pub(crate) fn parse_attr_operator_at(v: &Vec<char>, i: usize) -> (r: Option<(AttrOperator, usize)>)
    requires
        i <= v@.len(),
    ensures
        match r {
            Some((op, k)) => spec_parse_operator(v@, i as int) == Some((op, k as int)) && k
                <= v@.len(),
            None => spec_parse_operator(v@, i as int) is None,
        },
{
    let j = skip_spaces_exec(v, i);
    match op_at_exec(v, j) {
        Some((op, k)) => Some((op, skip_spaces_exec(v, k))),
        None => None,
    }
}

/// Parses an operator from the front of a string: the form the grammar uses
/// between a key and a value.
pub fn parse_attr_operator(input: &str) -> (r: Option<AttrOperator>)
    ensures
        match r {
            Some(op) => exists|k: int| spec_parse_operator(input@, 0) == Some((op, k)),
            None => spec_parse_operator(input@, 0) is None,
        },
{
    let v = str_to_chars(input);
    match parse_attr_operator_at(&v, 0) {
        Some((op, _)) => Some(op),
        None => None,
    }
}


/// Parses an optional operator-and-value at position `i`. `Err(())` is the
/// hard error for an unterminated or empty quoted value.
fn parse_opt_value(input: &str, v: &Vec<char>, i: usize) -> (r: Result<(Option<AttrValue>, usize), ()>)
    requires
        v@ == input@,
        i <= v@.len(),
    ensures
        match r {
            Ok((ov, j)) => match ov {
                None => spec_parse_opt_value(v@, i as int) is NoValue && j == i,
                Some(av) => spec_parse_opt_value(v@, i as int) == ValueParse::Value(
                    av@,
                    j as int,
                ) && j <= v@.len(),
            },
            Err(_) => spec_parse_opt_value(v@, i as int) is Failure,
        },
{
    match parse_attr_operator_at(v, i) {
        None => Ok((None, i)),
        Some((op, j)) => {
            if j < v.len() && v[j] == '"' {
                let q = quote_end_exec(v, j + 1);
                if q == j + 1 {
                    Err(())
                } else if q < v.len() {
                    let value = input.substring_char(j + 1, q).to_owned();
                    Ok((Some(AttrValue { op, value }), q + 1))
                } else {
                    Err(())
                }
            } else {
                let value = input.substring_char(j, v.len()).to_owned();
                Ok((Some(AttrValue { op, value }), v.len()))
            }
        },
    }
}

impl AttrMatcher {
    /// Parses an attribute condition, bracketed or bare, per the matcher
    /// grammar. A malformed condition is reported as an error carrying the
    /// offending input, so that a policy cannot be built from it.
    pub fn parse(input: &str) -> (r: Result<AttrMatcher, AttrMatcherParseError>)
        ensures
            match r {
                Ok(m) => spec_parse_attr(input@) == Some(m@),
                Err(e) => spec_parse_attr(input@) is None && e.input@ == input@,
            },
    {
        let v = str_to_chars(input);
        if v.len() > 0 && v[0] == '[' {
            let ke = key_end_exec(&v, 1);
            if ke == 1 {
                return Err(AttrMatcherParseError { input: input.to_owned() });
            }
            match parse_opt_value(input, &v, ke) {
                Err(_) => Err(AttrMatcherParseError { input: input.to_owned() }),
                Ok((None, _)) => {
                    if ke < v.len() && v[ke] == ']' {
                        let key = input.substring_char(1, ke).to_owned();
                        Ok(AttrMatcher { key, value: None })
                    } else {
                        Err(AttrMatcherParseError { input: input.to_owned() })
                    }
                },
                Ok((Some(av), j)) => {
                    if j < v.len() && v[j] == ']' {
                        let key = input.substring_char(1, ke).to_owned();
                        Ok(AttrMatcher { key, value: Some(av) })
                    } else {
                        Err(AttrMatcherParseError { input: input.to_owned() })
                    }
                },
            }
        } else {
            let ke = key_end_exec(&v, 0);
            if ke == 0 {
                return Err(AttrMatcherParseError { input: input.to_owned() });
            }
            match parse_opt_value(input, &v, ke) {
                Err(_) => Err(AttrMatcherParseError { input: input.to_owned() }),
                Ok((None, _)) => {
                    let key = input.substring_char(0, ke).to_owned();
                    Ok(AttrMatcher { key, value: None })
                },
                Ok((Some(av), _)) => {
                    let key = input.substring_char(0, ke).to_owned();
                    Ok(AttrMatcher { key, value: Some(av) })
                },
            }
        }
    }
}

} // verus!
