//! The builder that accumulates rules and finalizes them into an immutable
//! [`Policy`].

use vstd::prelude::*;

use core::marker::PhantomData;

use super::base::{names_view, rules_view, AttributeRule, AttributeRuleModel, Policy};
use crate::traits::SanitizeDirective;
use crate::Restrictive;

verus! {

/// The ghost image of a borrowed list of names.
pub open spec fn strs_view(v: Seq<&str>) -> Seq<Seq<char>> {
    v.map_values(|s: &str| s@)
}

/// A builder for a [`Policy`]: accumulates exclude rules, remove rules and
/// attribute rules, each optionally scoped to one element name, and
/// finalizes them with [`PolicyBuilder::build`].
#[derive(Debug)]
pub struct PolicyBuilder<T: SanitizeDirective = Restrictive> {
    attrs_to_exclude: Vec<AttributeRule>,
    elements_to_exclude: Vec<String>,
    elements_to_remove: Vec<String>,
    _directive: PhantomData<T>,
}

impl<T: SanitizeDirective> PolicyBuilder<T> {
    /// The element names excluded so far.
    pub closed spec fn spec_excluded(&self) -> Seq<Seq<char>> {
        names_view(self.elements_to_exclude@)
    }

    /// The element names removed so far.
    pub closed spec fn spec_removed(&self) -> Seq<Seq<char>> {
        names_view(self.elements_to_remove@)
    }

    /// The attribute rules so far.
    pub closed spec fn spec_attr_rules(&self) -> Seq<AttributeRuleModel> {
        rules_view(self.attrs_to_exclude@)
    }
}

/// Copies borrowed names into owned strings.
pub(crate) fn intern_strings(elements: &[&str]) -> (out: Vec<String>)
    ensures
        names_view(out@) == strs_view(elements@),
{
    let mut out: Vec<String> = Vec::new();
    let mut i: usize = 0;
    while i < elements.len()
        invariant
            i <= elements@.len(),
            names_view(out@) == strs_view(elements@).take(i as int),
        decreases elements@.len() - i,
    {
        let ghost prev = out@;
        out.push(elements[i].to_owned());
        proof {
            assert(names_view(out@) =~= names_view(prev).push(elements@[i as int]@));
            assert(names_view(out@) =~= strs_view(elements@).take(i + 1));
        }
        i = i + 1;
    }
    assert(strs_view(elements@).take(i as int) =~= strs_view(elements@));
    out
}

impl<T: SanitizeDirective> Default for PolicyBuilder<T> {
    /// An empty builder: no rules in any category.
    fn default() -> (r: Self)
        ensures
            r.spec_excluded() == Seq::<Seq<char>>::empty(),
            r.spec_removed() == Seq::<Seq<char>>::empty(),
            r.spec_attr_rules() == Seq::<AttributeRuleModel>::empty(),
    {
        let r = PolicyBuilder {
            attrs_to_exclude: Vec::new(),
            elements_to_exclude: Vec::new(),
            elements_to_remove: Vec::new(),
            _directive: PhantomData,
        };
        proof {
            assert(r.spec_excluded() =~= Seq::<Seq<char>>::empty());
            assert(r.spec_removed() =~= Seq::<Seq<char>>::empty());
            assert(r.spec_attr_rules() =~= Seq::<AttributeRuleModel>::empty());
        }
        r
    }
}

impl<T: SanitizeDirective> PolicyBuilder<T> {
    /// An empty builder: no rules in any category.
    pub fn new() -> (r: Self)
        ensures
            r.spec_excluded() == Seq::<Seq<char>>::empty(),
            r.spec_removed() == Seq::<Seq<char>>::empty(),
            r.spec_attr_rules() == Seq::<AttributeRuleModel>::empty(),
    {
        Self::default()
    }

    /// Excludes the named elements from the directive's default treatment:
    /// removed (with children kept) under [`crate::Permissive`], kept under
    /// [`crate::Restrictive`].
    pub fn exclude_elements(self, elements: &[&str]) -> (r: Self)
        ensures
            r.spec_excluded() == self.spec_excluded() + strs_view(elements@),
            r.spec_removed() == self.spec_removed(),
            r.spec_attr_rules() == self.spec_attr_rules(),
    {
        let mut this = self;
        let mut named = intern_strings(elements);
        let ghost prev = this.elements_to_exclude@;
        let ghost named_v = named@;
        this.elements_to_exclude.append(&mut named);
        proof {
            assert(names_view(prev + named_v) =~= names_view(prev) + names_view(named_v));
        }
        this
    }

    /// Names elements to remove from the tree outright, children included.
    pub fn remove_elements(self, elements: &[&str]) -> (r: Self)
        ensures
            r.spec_removed() == self.spec_removed() + strs_view(elements@),
            r.spec_excluded() == self.spec_excluded(),
            r.spec_attr_rules() == self.spec_attr_rules(),
    {
        let mut this = self;
        let mut named = intern_strings(elements);
        let ghost prev = this.elements_to_remove@;
        let ghost named_v = named@;
        this.elements_to_remove.append(&mut named);
        proof {
            assert(names_view(prev + named_v) =~= names_view(prev) + names_view(named_v));
        }
        this
    }

    /// Adds an attribute rule that reaches every element: the named
    /// attributes are removed under [`crate::Permissive`] and are the ones
    /// kept under [`crate::Restrictive`].
    pub fn exclude_attrs(self, attrs: &[&str]) -> (r: Self)
        ensures
            r.spec_attr_rules() == self.spec_attr_rules().push(
                AttributeRuleModel { element: None, attributes: strs_view(attrs@) },
            ),
            r.spec_excluded() == self.spec_excluded(),
            r.spec_removed() == self.spec_removed(),
    {
        let mut this = self;
        let rule = AttributeRule { element: None, attributes: intern_strings(attrs) };
        let ghost prev = this.attrs_to_exclude@;
        let ghost rule_v = rule@;
        this.attrs_to_exclude.push(rule);
        proof {
            assert(rules_view(prev.push(rule)) =~= rules_view(prev).push(rule_v));
        }
        this
    }

    /// Adds an attribute rule scoped to one element name.
    pub fn exclude_element_attrs(self, element: &str, attrs: &[&str]) -> (r: Self)
        ensures
            r.spec_attr_rules() == self.spec_attr_rules().push(
                AttributeRuleModel { element: Some(element@), attributes: strs_view(attrs@) },
            ),
            r.spec_excluded() == self.spec_excluded(),
            r.spec_removed() == self.spec_removed(),
    {
        let mut this = self;
        let rule = AttributeRule {
            element: Some(element.to_owned()),
            attributes: intern_strings(attrs),
        };
        let ghost prev = this.attrs_to_exclude@;
        let ghost rule_v = rule@;
        this.attrs_to_exclude.push(rule);
        proof {
            assert(rules_view(prev.push(rule)) =~= rules_view(prev).push(rule_v));
        }
        this
    }

    /// Merges an existing [`Policy`] of the same directive into the builder,
    /// consuming it: its rule lists are appended to the builder's.
    pub fn merge(self, other: Policy<T>) -> (r: Self)
        ensures
            r.spec_excluded() == self.spec_excluded() + other.spec_excluded(),
            r.spec_removed() == self.spec_removed() + other.spec_removed(),
            r.spec_attr_rules() == self.spec_attr_rules() + other.spec_attr_rules(),
    {
        let mut this = self;
        proof {
            super::base::lemma_policy_parts(&other);
        }
        let Policy { mut attrs_to_exclude, mut elements_to_exclude, mut elements_to_remove, .. } =
            other;
        let ghost pe = this.elements_to_exclude@;
        let ghost pr = this.elements_to_remove@;
        let ghost pa = this.attrs_to_exclude@;
        let ghost oe = elements_to_exclude@;
        let ghost or = elements_to_remove@;
        let ghost oa = attrs_to_exclude@;
        this.elements_to_exclude.append(&mut elements_to_exclude);
        this.elements_to_remove.append(&mut elements_to_remove);
        this.attrs_to_exclude.append(&mut attrs_to_exclude);
        proof {
            assert(names_view(pe + oe) =~= names_view(pe) + names_view(oe));
            assert(names_view(pr + or) =~= names_view(pr) + names_view(or));
            assert(rules_view(pa + oa) =~= rules_view(pa) + rules_view(oa));
        }
        this
    }

    /// Finalizes the accumulated rules into an immutable [`Policy`].
    pub fn build(self) -> (r: Policy<T>)
        ensures
            r.spec_excluded() == self.spec_excluded(),
            r.spec_removed() == self.spec_removed(),
            r.spec_attr_rules() == self.spec_attr_rules(),
    {
        let r = Policy {
            attrs_to_exclude: self.attrs_to_exclude,
            elements_to_exclude: self.elements_to_exclude,
            elements_to_remove: self.elements_to_remove,
            _directive: PhantomData,
        };
        proof {
            super::base::lemma_policy_parts(&r);
        }
        r
    }
}

} // verus!
