//! Ready-made checkers for the plugin policy: name, namespace, attribute and
//! content matchers, and the catch-all enums that let them stand together in
//! one checker list.

use vstd::prelude::*;

use super::base::{AttrChecker, NodeChecker};
use crate::attr_parser::{
    chars_eq, chars_starts_with, seq_starts_with, spec_attr_value_match, str_to_chars, AttrValue,
};
use crate::policy::base::{name_in, name_in_list, names_view};
use crate::policy::builder::intern_strings;
use crate::tree::{
    spec_attr_value_of, spec_text_node, string_eq_str, Attr, AttrModel, Node, NodeModel,
};

verus! {

/// The ASCII-lowercase image of one character.
pub open spec fn spec_lower_char(c: char) -> char {
    match c {
        'A' => 'a',
        'B' => 'b',
        'C' => 'c',
        'D' => 'd',
        'E' => 'e',
        'F' => 'f',
        'G' => 'g',
        'H' => 'h',
        'I' => 'i',
        'J' => 'j',
        'K' => 'k',
        'L' => 'l',
        'M' => 'm',
        'N' => 'n',
        'O' => 'o',
        'P' => 'p',
        'Q' => 'q',
        'R' => 'r',
        'S' => 's',
        'T' => 't',
        'U' => 'u',
        'V' => 'v',
        'W' => 'w',
        'X' => 'x',
        'Y' => 'y',
        'Z' => 'z',
        _ => c,
    }
}

/// The ASCII-lowercase image of a character sequence.
pub open spec fn spec_lower(s: Seq<char>) -> Seq<char> {
    s.map_values(|c: char| spec_lower_char(c))
}

/// Lowers one ASCII letter.
fn lower_char(c: char) -> (r: char)
    ensures
        r == spec_lower_char(c),
{
    match c {
        'A' => 'a',
        'B' => 'b',
        'C' => 'c',
        'D' => 'd',
        'E' => 'e',
        'F' => 'f',
        'G' => 'g',
        'H' => 'h',
        'I' => 'i',
        'J' => 'j',
        'K' => 'k',
        'L' => 'l',
        'M' => 'm',
        'N' => 'n',
        'O' => 'o',
        'P' => 'p',
        'Q' => 'q',
        'R' => 'r',
        'S' => 's',
        'T' => 't',
        'U' => 'u',
        'V' => 'v',
        'W' => 'w',
        'X' => 'x',
        'Y' => 'y',
        'Z' => 'z',
        _ => c,
    }
}

/// Lowers every ASCII letter of a character vector.
fn lower_chars(v: &Vec<char>) -> (out: Vec<char>)
    ensures
        out@ == spec_lower(v@),
{
    let mut out: Vec<char> = Vec::new();
    let mut i: usize = 0;
    while i < v.len()
        invariant
            i <= v@.len(),
            out@ == spec_lower(v@).take(i as int),
        decreases v@.len() - i,
    {
        out.push(lower_char(v[i]));
        proof {
            assert(out@ =~= spec_lower(v@).take(i + 1));
        }
        i = i + 1;
    }
    proof {
        assert(spec_lower(v@).take(i as int) =~= spec_lower(v@));
    }
    out
}

/// Matches element nodes with one specific local name.
#[derive(Clone)]
pub struct LocalNameMatcher(pub String);

impl LocalNameMatcher {
    /// A matcher for elements whose local name is `name`.
    pub fn new(name: &str) -> (r: Self)
        ensures
            r.0@ == name@,
    {
        LocalNameMatcher(name.to_owned())
    }
}

impl NodeChecker for LocalNameMatcher {
    open spec fn spec_is_match(&self, n: NodeModel) -> bool {
        n is Element && n.elem().name == self.0@
    }

    fn is_match(&self, node: &Node) -> (r: bool) {
        match node {
            Node::Element(e) => string_eq_str(&e.name, self.0.as_str()),
            _ => false,
        }
    }
}

/// Matches element nodes whose local name stands in a list.
#[derive(Clone)]
pub struct LocalNamesMatcher(pub Vec<String>);

impl LocalNamesMatcher {
    /// A matcher for elements whose local name is one of `names`.
    pub fn new(names: &[&str]) -> (r: Self)
        ensures
            names_view(r.0@) == crate::policy::builder::strs_view(names@),
    {
        LocalNamesMatcher(intern_strings(names))
    }
}

impl NodeChecker for LocalNamesMatcher {
    open spec fn spec_is_match(&self, n: NodeModel) -> bool {
        n is Element && name_in(names_view(self.0@), n.elem().name)
    }

    fn is_match(&self, node: &Node) -> (r: bool) {
        match node {
            Node::Element(e) => name_in_list(&self.0, &e.name),
            _ => false,
        }
    }
}

/// Matches element nodes in one specific namespace.
#[derive(Clone)]
pub struct NamespaceMatcher(pub String);

impl NamespaceMatcher {
    /// A matcher for elements whose namespace is `namespace`.
    pub fn new(namespace: &str) -> (r: Self)
        ensures
            r.0@ == namespace@,
    {
        NamespaceMatcher(namespace.to_owned())
    }
}

impl NodeChecker for NamespaceMatcher {
    open spec fn spec_is_match(&self, n: NodeModel) -> bool {
        n is Element && n.elem().ns == self.0@
    }

    fn is_match(&self, node: &Node) -> (r: bool) {
        match node {
            Node::Element(e) => string_eq_str(&e.ns, self.0.as_str()),
            _ => false,
        }
    }
}

/// Matches attributes by name, optionally only on elements of one name.
#[derive(Clone)]
pub struct AttrMatcher {
    /// The element this matcher applies to; `None` applies it everywhere.
    pub element_scope: Option<String>,
    /// The attribute names that match.
    pub attr_names: Vec<String>,
}

impl AttrMatcher {
    /// A matcher for the attributes named in `attr_names`, scoped to
    /// elements named `element_scope` where that is given.
    pub fn new(element_scope: Option<&str>, attr_names: &[&str]) -> (r: Self)
        ensures
            match element_scope {
                Some(s) => r.element_scope is Some && r.element_scope->0@ == s@,
                None => r.element_scope is None,
            },
            names_view(r.attr_names@) == crate::policy::builder::strs_view(attr_names@),
    {
        AttrMatcher {
            element_scope: match element_scope {
                Some(s) => Some(s.to_owned()),
                None => None,
            },
            attr_names: intern_strings(attr_names),
        }
    }
}

impl AttrChecker for AttrMatcher {
    open spec fn spec_is_match_attr(&self, n: NodeModel, a: AttrModel) -> bool {
        match self.element_scope {
            None => name_in(names_view(self.attr_names@), a.name),
            Some(scope) => n is Element && n.elem().name == scope@ && name_in(
                names_view(self.attr_names@),
                a.name,
            ),
        }
    }

    fn is_match_attr(&self, node: &Node, attr: &Attr) -> (r: bool) {
        match &self.element_scope {
            None => name_in_list(&self.attr_names, &attr.name),
            Some(scope) => {
                let scoped = match node {
                    Node::Element(e) => string_eq_str(&e.name, scope.as_str()),
                    _ => false,
                };
                scoped && name_in_list(&self.attr_names, &attr.name)
            },
        }
    }
}

/// Matches attributes by name on elements of one namespace.
#[derive(Clone)]
pub struct NsAttrMatcher {
    /// The namespace of the elements this matcher applies to.
    pub ns: String,
    /// The attribute names that match.
    pub attr_names: Vec<String>,
}

impl NsAttrMatcher {
    /// A matcher for the attributes named in `attr_names` on elements in
    /// namespace `ns`.
    pub fn new(ns: &str, attr_names: &[&str]) -> (r: Self)
        ensures
            r.ns@ == ns@,
            names_view(r.attr_names@) == crate::policy::builder::strs_view(attr_names@),
    {
        NsAttrMatcher { ns: ns.to_owned(), attr_names: intern_strings(attr_names) }
    }
}

impl AttrChecker for NsAttrMatcher {
    open spec fn spec_is_match_attr(&self, n: NodeModel, a: AttrModel) -> bool {
        n is Element && n.elem().ns == self.ns@ && name_in(names_view(self.attr_names@), a.name)
    }

    fn is_match_attr(&self, node: &Node, attr: &Attr) -> (r: bool) {
        let in_ns = match node {
            Node::Element(e) => string_eq_str(&e.ns, self.ns.as_str()),
            _ => false,
        };
        in_ns && name_in_list(&self.attr_names, &attr.name)
    }
}

/// Matches an element of one name by one of its attribute values, through an
/// operator of the attribute matcher language; `negate` flips the value test
/// while still requiring the attribute to be present.
#[derive(Clone)]
pub struct AttrValueMatcher {
    /// The element name this matcher applies to.
    pub element: String,
    /// The attribute whose value is tested.
    pub attr: String,
    /// The operator and value the attribute value is tested against.
    pub value: AttrValue,
    /// Whether the value test is flipped.
    pub negate: bool,
}

impl AttrValueMatcher {
    /// A matcher for elements named `element` whose attribute `attr` is
    /// present and satisfies (or, with `negate`, fails) the value test.
    pub fn new(element: &str, attr: &str, value: AttrValue, negate: bool) -> (r: Self)
        ensures
            r.element@ == element@,
            r.attr@ == attr@,
            r.value == value,
            r.negate == negate,
    {
        AttrValueMatcher { element: element.to_owned(), attr: attr.to_owned(), value, negate }
    }
}

impl AttrValueMatcher {
    /// Builds the matcher from a condition written in the attribute matcher
    /// language, e.g. `[href^="https://"]` scoped to elements named
    /// `element`. A condition that does not parse, or parses to a bare key
    /// without an operator and value, is rejected here, at construction
    /// time, so that no policy can be built from it.
    pub fn from_condition(element: &str, condition: &str, negate: bool) -> (r: Result<
        AttrValueMatcher,
        crate::attr_parser::AttrMatcherParseError,
    >)
        ensures
            match r {
                Ok(m) => {
                    &&& crate::attr_parser::spec_parse_attr(condition@) is Some
                    &&& crate::attr_parser::spec_parse_attr(condition@)->0.value is Some
                    &&& m.element@ == element@
                    &&& m.attr@ == crate::attr_parser::spec_parse_attr(condition@)->0.key
                    &&& m.value@ == crate::attr_parser::spec_parse_attr(condition@)->0.value->0
                    &&& m.negate == negate
                },
                Err(e) => {
                    &&& (crate::attr_parser::spec_parse_attr(condition@) is None
                        || crate::attr_parser::spec_parse_attr(condition@)->0.value is None)
                    &&& e.input@ == condition@
                },
            },
    {
        match crate::attr_parser::AttrMatcher::parse(condition) {
            Err(e) => Err(e),
            Ok(m) => {
                match m.value {
                    None => Err(crate::attr_parser::AttrMatcherParseError {
                        input: condition.to_owned(),
                    }),
                    Some(v) => Ok(AttrValueMatcher {
                        element: element.to_owned(),
                        attr: m.key,
                        value: v,
                        negate,
                    }),
                }
            },
        }
    }
}

impl NodeChecker for AttrValueMatcher {
    open spec fn spec_is_match(&self, n: NodeModel) -> bool {
        n is Element && n.elem().name == self.element@ && match spec_attr_value_of(
            n.elem().attrs,
            self.attr@,
        ) {
            Some(ev) => self.negate != spec_attr_value_match(self.value.op, self.value.value@, ev),
            None => false,
        }
    }

    fn is_match(&self, node: &Node) -> (r: bool) {
        let name_ok = match node {
            Node::Element(e) => string_eq_str(&e.name, self.element.as_str()),
            _ => false,
        };
        if !name_ok {
            return false;
        }
        match node.attr(self.attr.as_str()) {
            Some(v) => {
                let m = self.value.is_match(v.as_str());
                if self.negate {
                    !m
                } else {
                    m
                }
            },
            None => false,
        }
    }
}

/// Matches elements of one name whose subtree holds any text.
#[derive(Clone)]
pub struct NonEmptyTextMatcher(pub String);

impl NonEmptyTextMatcher {
    /// A matcher for elements named `name` with non-empty text content.
    pub fn new(name: &str) -> (r: Self)
        ensures
            r.0@ == name@,
    {
        NonEmptyTextMatcher(name.to_owned())
    }
}

impl NodeChecker for NonEmptyTextMatcher {
    open spec fn spec_is_match(&self, n: NodeModel) -> bool {
        n is Element && n.elem().name == self.0@ && spec_text_node(n).len() > 0
    }

    fn is_match(&self, node: &Node) -> (r: bool) {
        let name_ok = match node {
            Node::Element(e) => string_eq_str(&e.name, self.0.as_str()),
            _ => false,
        };
        if !name_ok {
            return false;
        }
        let t = node.text();
        !t.as_str().is_empty()
    }
}

/// Matches attributes whose lowercased name starts with a prefix, with a
/// list of exceptions: the shape of an event-handler attribute filter.
#[derive(Clone)]
pub struct AttrNamePrefixMatcher {
    /// The lowercase prefix a matching attribute name starts with.
    pub prefix: String,
    /// Lowercase attribute names that never match.
    pub exceptions: Vec<String>,
}

impl AttrNamePrefixMatcher {
    /// A matcher for attributes whose ASCII-lowercased name starts with
    /// `prefix` and is none of `exceptions`.
    pub fn new(prefix: &str, exceptions: &[&str]) -> (r: Self)
        ensures
            r.prefix@ == prefix@,
            names_view(r.exceptions@) == crate::policy::builder::strs_view(exceptions@),
    {
        AttrNamePrefixMatcher { prefix: prefix.to_owned(), exceptions: intern_strings(exceptions) }
    }
}

impl AttrChecker for AttrNamePrefixMatcher {
    open spec fn spec_is_match_attr(&self, n: NodeModel, a: AttrModel) -> bool {
        seq_starts_with(spec_lower(a.name), self.prefix@) && !name_in(
            names_view(self.exceptions@),
            spec_lower(a.name),
        )
    }

    fn is_match_attr(&self, node: &Node, attr: &Attr) -> (r: bool) {
        let lowered = lower_chars(&str_to_chars(attr.name.as_str()));
        let prefix = str_to_chars(self.prefix.as_str());
        if !chars_starts_with(&lowered, &prefix) {
            return false;
        }
        let mut i: usize = 0;
        while i < self.exceptions.len()
            invariant
                i <= self.exceptions@.len(),
                lowered@ == spec_lower(attr@.name),
                forall|j: int|
                    0 <= j < i ==> names_view(self.exceptions@)[j] != spec_lower(attr@.name),
            decreases self.exceptions@.len() - i,
        {
            let ex = str_to_chars(self.exceptions[i].as_str());
            if chars_eq(&lowered, &ex) {
                assert(names_view(self.exceptions@)[i as int] == spec_lower(attr@.name));
                return false;
            }
            i = i + 1;
        }
        assert(!name_in(names_view(self.exceptions@), spec_lower(attr@.name)));
        true
    }
}

/// Matches attributes on elements of one namespace whose lowercased name
/// does not start with a forbidden prefix: under the restrictive directive
/// this keeps the safe attributes of that namespace.
#[derive(Clone)]
pub struct NsSafeAttrMatcher {
    /// The namespace of the elements this matcher applies to.
    pub ns: String,
    /// The lowercase prefix that marks an attribute as unsafe.
    pub deny_prefix: String,
}

impl NsSafeAttrMatcher {
    /// A matcher for attributes on elements in namespace `ns` whose
    /// ASCII-lowercased name does not start with `deny_prefix`.
    pub fn new(ns: &str, deny_prefix: &str) -> (r: Self)
        ensures
            r.ns@ == ns@,
            r.deny_prefix@ == deny_prefix@,
    {
        NsSafeAttrMatcher { ns: ns.to_owned(), deny_prefix: deny_prefix.to_owned() }
    }
}

impl AttrChecker for NsSafeAttrMatcher {
    open spec fn spec_is_match_attr(&self, n: NodeModel, a: AttrModel) -> bool {
        n is Element && n.elem().ns == self.ns@ && !seq_starts_with(
            spec_lower(a.name),
            self.deny_prefix@,
        )
    }

    fn is_match_attr(&self, node: &Node, attr: &Attr) -> (r: bool) {
        let in_ns = match node {
            Node::Element(e) => string_eq_str(&e.ns, self.ns.as_str()),
            _ => false,
        };
        if !in_ns {
            return false;
        }
        let lowered = lower_chars(&str_to_chars(attr.name.as_str()));
        let prefix = str_to_chars(self.deny_prefix.as_str());
        !chars_starts_with(&lowered, &prefix)
    }
}

/// The ghost image of a list of character vectors.
pub open spec fn char_lists_view(s: Seq<Vec<char>>) -> Seq<Seq<char>> {
    s.map_values(|v: Vec<char>| v@)
}

/// The ASCII-lowercase images of a list of strings.
pub open spec fn lowered_names(s: Seq<String>) -> Seq<Seq<char>> {
    s.map_values(|v: String| spec_lower(v@))
}

/// The index of the first phrase, at or after index `k` of the list, that
/// occurs in `text` at position `i`.
pub open spec fn spec_phrase_at(text: Seq<char>, phrases: Seq<Seq<char>>, k: int, i: int) -> Option<
    int,
>
    decreases phrases.len() - k,
{
    if k < 0 || k >= phrases.len() {
        None
    } else if crate::attr_parser::seq_contains_at(text, phrases[k], i) {
        Some(k)
    } else {
        spec_phrase_at(text, phrases, k + 1, i)
    }
}

/// The number of phrase occurrences in `text` from position `i` on, scanning
/// left to right: at each position the first phrase of the list that occurs
/// there counts once and the scan jumps past it; otherwise the scan moves on
/// by one character.
pub open spec fn spec_phrase_count(text: Seq<char>, phrases: Seq<Seq<char>>, i: int) -> nat
    decreases text.len() - i,
{
    if i < 0 || i >= text.len() {
        0
    } else {
        match spec_phrase_at(text, phrases, 0, i) {
            Some(k) => {
                let step = if phrases[k].len() == 0 {
                    1
                } else {
                    phrases[k].len() as int
                };
                let next = if i + step <= text.len() {
                    i + step
                } else {
                    text.len() as int
                };
                1 + spec_phrase_count(text, phrases, next)
            },
            None => spec_phrase_count(text, phrases, i + 1),
        }
    }
}

/// Finds the first phrase of the list that occurs in `text` at position `i`.
fn phrase_first_at(text: &Vec<char>, phrases: &Vec<Vec<char>>, i: usize) -> (r: Option<usize>)
    requires
        i < text@.len(),
    ensures
        match r {
            Some(k) => k < phrases@.len() && spec_phrase_at(text@, char_lists_view(phrases@), 0, i as int)
                == Some(k as int),
            None => spec_phrase_at(text@, char_lists_view(phrases@), 0, i as int) is None,
        },
{
    let ghost pv = char_lists_view(phrases@);
    let mut k: usize = 0;
    while k < phrases.len()
        invariant
            k <= phrases@.len(),
            pv == char_lists_view(phrases@),
            i < text.len(),
            text.len() == text@.len(),
            spec_phrase_at(text@, pv, 0, i as int) == spec_phrase_at(text@, pv, k as int, i as int),
        decreases phrases@.len() - k,
    {
        let ph = &phrases[k];
        if ph.len() <= text.len() - i {
            if crate::attr_parser::chars_match_at(text, ph, i) {
                return Some(k);
            }
        } else {
            proof {
                assert(!crate::attr_parser::seq_contains_at(text@, pv[k as int], i as int));
            }
        }
        k = k + 1;
    }
    None
}

/// Counts phrase occurrences in `text`, per [`spec_phrase_count`].
fn count_phrase_matches(text: &Vec<char>, phrases: &Vec<Vec<char>>) -> (count: usize)
    ensures
        count == spec_phrase_count(text@, char_lists_view(phrases@), 0),
{
    let ghost pv = char_lists_view(phrases@);
    let mut count: usize = 0;
    let mut i: usize = 0;
    while i < text.len()
        invariant
            i <= text@.len(),
            count <= i,
            pv == char_lists_view(phrases@),
            spec_phrase_count(text@, pv, 0) == count + spec_phrase_count(text@, pv, i as int),
        decreases text@.len() - i,
    {
        match phrase_first_at(text, phrases, i) {
            Some(k) => {
                let plen = phrases[k].len();
                let adv = if plen == 0 {
                    1
                } else {
                    plen
                };
                let next = if adv >= text.len() - i {
                    text.len()
                } else {
                    i + adv
                };
                count = count + 1;
                proof {
                    assert(count + spec_phrase_count(text@, pv, next as int) == spec_phrase_count(
                        text@,
                        pv,
                        0,
                    ));
                }
                i = next;
            },
            None => {
                i = i + 1;
            },
        }
    }
    proof {
        assert(spec_phrase_count(text@, pv, i as int) == 0);
    }
    count
}

/// Matches elements of one name whose text content holds at least a
/// threshold number of occurrences from a phrase list, compared
/// ASCII-case-insensitively.
#[derive(Clone)]
pub struct PhraseCountMatcher {
    /// The element name this matcher applies to.
    pub element_scope: String,
    /// The phrases counted, tried in order at each position.
    pub phrases: Vec<String>,
    /// How many occurrences make the matcher fire.
    pub threshold: usize,
}

impl PhraseCountMatcher {
    /// A matcher for elements named `element_scope` whose text content holds
    /// at least `threshold` occurrences of the given phrases.
    pub fn new(phrases: &[&str], threshold: usize, element_scope: &str) -> (r: Self)
        ensures
            r.element_scope@ == element_scope@,
            names_view(r.phrases@) == crate::policy::builder::strs_view(phrases@),
            r.threshold == threshold,
    {
        PhraseCountMatcher {
            element_scope: element_scope.to_owned(),
            phrases: intern_strings(phrases),
            threshold,
        }
    }
}

impl NodeChecker for PhraseCountMatcher {
    open spec fn spec_is_match(&self, n: NodeModel) -> bool {
        &&& n is Element
        &&& n.elem().name == self.element_scope@
        &&& spec_text_node(n).len() > 0
        &&& spec_phrase_count(spec_lower(spec_text_node(n)), lowered_names(self.phrases@), 0)
            >= self.threshold
    }

    fn is_match(&self, node: &Node) -> (r: bool) {
        let name_ok = match node {
            Node::Element(e) => string_eq_str(&e.name, self.element_scope.as_str()),
            _ => false,
        };
        if !name_ok {
            return false;
        }
        let t = node.text();
        if t.as_str().is_empty() {
            return false;
        }
        let lowered = lower_chars(&str_to_chars(t.as_str()));
        let mut low_phrases: Vec<Vec<char>> = Vec::new();
        let mut i: usize = 0;
        while i < self.phrases.len()
            invariant
                i <= self.phrases@.len(),
                char_lists_view(low_phrases@) == lowered_names(self.phrases@).take(i as int),
            decreases self.phrases@.len() - i,
        {
            let ghost prev = low_phrases@;
            low_phrases.push(lower_chars(&str_to_chars(self.phrases[i].as_str())));
            proof {
                assert(char_lists_view(low_phrases@) =~= char_lists_view(prev).push(
                    spec_lower(self.phrases@[i as int]@),
                ));
                assert(char_lists_view(low_phrases@) =~= lowered_names(self.phrases@).take(i + 1));
            }
            i = i + 1;
        }
        proof {
            assert(lowered_names(self.phrases@).take(i as int) =~= lowered_names(self.phrases@));
        }
        let count = count_phrase_matches(&lowered, &low_phrases);
        count >= self.threshold
    }
}

/// Any of the ready-made node checkers, so that different kinds can stand in
/// one checker list.
#[derive(Clone)]
pub enum AnyNodeChecker {
    LocalName(LocalNameMatcher),
    LocalNames(LocalNamesMatcher),
    Namespace(NamespaceMatcher),
    AttrValue(AttrValueMatcher),
    NonEmptyText(NonEmptyTextMatcher),
    PhraseCount(PhraseCountMatcher),
}

impl NodeChecker for AnyNodeChecker {
    open spec fn spec_is_match(&self, n: NodeModel) -> bool {
        match self {
            AnyNodeChecker::LocalName(m) => m.spec_is_match(n),
            AnyNodeChecker::LocalNames(m) => m.spec_is_match(n),
            AnyNodeChecker::Namespace(m) => m.spec_is_match(n),
            AnyNodeChecker::AttrValue(m) => m.spec_is_match(n),
            AnyNodeChecker::NonEmptyText(m) => m.spec_is_match(n),
            AnyNodeChecker::PhraseCount(m) => m.spec_is_match(n),
        }
    }

    fn is_match(&self, node: &Node) -> (r: bool) {
        match self {
            AnyNodeChecker::LocalName(m) => m.is_match(node),
            AnyNodeChecker::LocalNames(m) => m.is_match(node),
            AnyNodeChecker::Namespace(m) => m.is_match(node),
            AnyNodeChecker::AttrValue(m) => m.is_match(node),
            AnyNodeChecker::NonEmptyText(m) => m.is_match(node),
            AnyNodeChecker::PhraseCount(m) => m.is_match(node),
        }
    }
}

/// Any of the ready-made attribute checkers, so that different kinds can
/// stand in one checker list.
#[derive(Clone)]
pub enum AnyAttrChecker {
    AttrNames(AttrMatcher),
    NsAttrNames(NsAttrMatcher),
    NamePrefix(AttrNamePrefixMatcher),
    NsSafe(NsSafeAttrMatcher),
}

impl AttrChecker for AnyAttrChecker {
    open spec fn spec_is_match_attr(&self, n: NodeModel, a: AttrModel) -> bool {
        match self {
            AnyAttrChecker::AttrNames(m) => m.spec_is_match_attr(n, a),
            AnyAttrChecker::NsAttrNames(m) => m.spec_is_match_attr(n, a),
            AnyAttrChecker::NamePrefix(m) => m.spec_is_match_attr(n, a),
            AnyAttrChecker::NsSafe(m) => m.spec_is_match_attr(n, a),
        }
    }

    fn is_match_attr(&self, node: &Node, attr: &Attr) -> (r: bool) {
        match self {
            AnyAttrChecker::AttrNames(m) => m.is_match_attr(node, attr),
            AnyAttrChecker::NsAttrNames(m) => m.is_match_attr(node, attr),
            AnyAttrChecker::NamePrefix(m) => m.is_match_attr(node, attr),
            AnyAttrChecker::NsSafe(m) => m.is_match_attr(node, attr),
        }
    }
}

} // verus!
