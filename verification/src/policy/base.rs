//! The name-list policy: ordered lists of element names and attribute rules,
//! immutable once built.

use vstd::prelude::*;

use core::marker::PhantomData;

use crate::directives::{
    normalize_node, normalize_vec, sanitize_children_of, sanitize_vec, spec_sanitize_subtree,
    spec_sanitized_children,
};
use crate::traits::{Directive, SanitizeDirective, SanitizePolicy};
use crate::tree::{nodes_view, Attr, AttrModel, Document, Node, NodeModel};
use crate::{Permissive, Restrictive};

verus! {

/// An excluding rule for attributes: the names it lists, optionally scoped
/// to one element name.
///
/// Under the permissive directive the listed attributes are removed; under
/// the restrictive directive only listed attributes are kept.
#[derive(Debug, Clone)]
pub struct AttributeRule {
    /// The element this rule applies to; `None` applies it to every element.
    pub element: Option<String>,
    /// The attribute names the rule lists.
    pub attributes: Vec<String>,
}

/// The ghost image of an [`AttributeRule`].
#[verifier::ext_equal]
pub struct AttributeRuleModel {
    pub element: Option<Seq<char>>,
    pub attributes: Seq<Seq<char>>,
}

/// The ghost image of a list of names.
pub open spec fn names_view(v: Seq<String>) -> Seq<Seq<char>> {
    v.map_values(|s: String| s@)
}

/// Whether `name` stands in `list`.
pub open spec fn name_in(list: Seq<Seq<char>>, name: Seq<char>) -> bool {
    exists|i: int| 0 <= i < list.len() && list[i] == name
}

impl View for AttributeRule {
    type V = AttributeRuleModel;

    open spec fn view(&self) -> AttributeRuleModel {
        AttributeRuleModel {
            element: match self.element {
                Some(ref e) => Some(e@),
                None => None,
            },
            attributes: names_view(self.attributes@),
        }
    }
}

/// The ghost image of a list of attribute rules.
pub open spec fn rules_view(v: Seq<AttributeRule>) -> Seq<AttributeRuleModel> {
    v.map_values(|r: AttributeRule| r@)
}

/// Whether a rule reaches an element of the given name: it is unscoped, or
/// scoped to exactly that name.
pub open spec fn rule_applies(r: AttributeRuleModel, name: Seq<char>) -> bool {
    match r.element {
        None => true,
        Some(e) => e == name,
    }
}

/// A policy of name lists: which elements are excluded from the directive's
/// default treatment, which are removed outright, and which attributes its
/// attribute rules name. Built once by [`crate::PolicyBuilder`], then only
/// read.
#[derive(Debug)]
pub struct Policy<T: SanitizeDirective = Restrictive> {
    pub(crate) attrs_to_exclude: Vec<AttributeRule>,
    pub(crate) elements_to_exclude: Vec<String>,
    pub(crate) elements_to_remove: Vec<String>,
    pub(crate) _directive: PhantomData<T>,
}

impl<T: SanitizeDirective> Policy<T> {
    /// The element names excluded from the directive's default treatment.
    pub closed spec fn spec_excluded(&self) -> Seq<Seq<char>> {
        names_view(self.elements_to_exclude@)
    }

    /// The element names removed outright.
    pub closed spec fn spec_removed(&self) -> Seq<Seq<char>> {
        names_view(self.elements_to_remove@)
    }

    /// The attribute rules.
    pub closed spec fn spec_attr_rules(&self) -> Seq<AttributeRuleModel> {
        rules_view(self.attrs_to_exclude@)
    }
}

/// Ties a policy's ghost accessors to its fields, for the crate's own
/// proofs.
pub(crate) proof fn lemma_policy_parts<T: SanitizeDirective>(p: &Policy<T>)
    ensures
        p.spec_excluded() == names_view(p.elements_to_exclude@),
        p.spec_removed() == names_view(p.elements_to_remove@),
        p.spec_attr_rules() == rules_view(p.attrs_to_exclude@),
{
}

/// Whether `name` stands in `list` of strings.
pub(crate) fn name_in_list(list: &Vec<String>, name: &String) -> (r: bool)
    ensures
        r == name_in(names_view(list@), name@),
{
    let mut i: usize = 0;
    while i < list.len()
        invariant
            i <= list@.len(),
            forall|j: int| 0 <= j < i ==> names_view(list@)[j] != name@,
        decreases list@.len() - i,
    {
        if list[i] == *name {
            assert(names_view(list@)[i as int] == name@);
            return true;
        }
        i = i + 1;
    }
    false
}

impl<T: SanitizeDirective> SanitizePolicy for Policy<T> {
    open spec fn spec_exclude(&self, n: NodeModel) -> bool {
        n is Element && name_in(self.spec_excluded(), n.elem().name)
    }

    open spec fn spec_remove(&self, n: NodeModel) -> bool {
        n is Element && name_in(self.spec_removed(), n.elem().name)
    }

    open spec fn spec_exclude_attr(&self, n: NodeModel, a: AttrModel) -> bool {
        n is Element && exists|i: int|
            0 <= i < self.spec_attr_rules().len() && rule_applies(
                #[trigger] self.spec_attr_rules()[i],
                n.elem().name,
            ) && name_in(self.spec_attr_rules()[i].attributes, a.name)
    }

    open spec fn spec_has_attr_rules(&self) -> bool {
        self.spec_attr_rules().len() > 0
    }

    open spec fn spec_is_empty(&self) -> bool {
        self.spec_excluded().len() == 0 && self.spec_removed().len() == 0
            && self.spec_attr_rules().len() == 0
    }

    fn should_exclude(&self, node: &Node) -> (r: bool) {
        match node {
            Node::Element(e) => name_in_list(&self.elements_to_exclude, &e.name),
            _ => false,
        }
    }

    fn should_remove(&self, node: &Node) -> (r: bool) {
        match node {
            Node::Element(e) => name_in_list(&self.elements_to_remove, &e.name),
            _ => false,
        }
    }

    fn should_exclude_attr(&self, node: &Node, attr: &Attr) -> (r: bool) {
        match node {
            Node::Element(e) => {
                let rules = &self.attrs_to_exclude;
                let mut i: usize = 0;
                while i < rules.len()
                    invariant
                        i <= rules@.len(),
                        self.spec_attr_rules() == rules_view(rules@),
                        forall|j: int|
                            0 <= j < i ==> !(rule_applies(
                                #[trigger] self.spec_attr_rules()[j],
                                node@.elem().name,
                            ) && name_in(self.spec_attr_rules()[j].attributes, attr@.name)),
                        node@ is Element,
                        node@.elem().name == e.name@,
                        rules@ == self.attrs_to_exclude@,
                    decreases rules@.len() - i,
                {
                    let rule = &rules[i];
                    let applies = match &rule.element {
                        None => true,
                        Some(scope) => *scope == e.name,
                    };
                    if applies && name_in_list(&rule.attributes, &attr.name) {
                        assert(rule_applies(self.spec_attr_rules()[i as int], node@.elem().name)
                            && name_in(self.spec_attr_rules()[i as int].attributes, attr@.name));
                        return true;
                    }
                    i = i + 1;
                }
                assert(!self.spec_exclude_attr(node@, attr@));
                false
            },
            _ => false,
        }
    }

    fn has_attrs_to_exclude(&self) -> (r: bool) {
        self.attrs_to_exclude.len() > 0
    }

    fn is_empty(&self) -> (r: bool) {
        self.elements_to_exclude.len() == 0 && self.elements_to_remove.len() == 0
            && self.attrs_to_exclude.len() == 0
    }

    proof fn lemma_empty_matches_nothing(&self, n: NodeModel, a: AttrModel) {
    }
}

impl<T: SanitizeDirective> Policy<T> {
    /// Sanitizes the subtree under `node` in place: the node itself stands,
    /// its descendants are rewritten per the directive, and adjacent text
    /// nodes left by unwrapping are merged. An empty permissive policy does
    /// not touch the tree at all.
    pub fn sanitize_node(&self, node: &mut Node)
        ensures
            final(node)@ == spec_sanitize_subtree(self, T::spec_kind(), old(node)@),
    {
        if T::kind() == Directive::Permissive && self.is_empty() {
            return;
        }
        T::sanitize_node(self, node);
        normalize_node(node);
    }

    /// Sanitizes a whole document in place.
    pub fn sanitize_document(&self, doc: &mut Document)
        ensures
            final(doc)@ == spec_sanitized_children(self, T::spec_kind(), old(doc)@),
    {
        if T::kind() == Directive::Permissive && self.is_empty() {
            return;
        }
        let mut tmp: Vec<Node> = Vec::new();
        core::mem::swap(&mut doc.children, &mut tmp);
        let s = sanitize_vec(self, T::kind(), tmp);
        let n = normalize_vec(s);
        doc.children = n;
    }

    /// Sanitizes each node of a pre-selected set in place, as
    /// [`Policy::sanitize_node`] does one.
    pub fn sanitize_selection(&self, nodes: &mut Vec<Node>)
        ensures
            final(nodes)@.len() == old(nodes)@.len(),
            forall|i: int|
                0 <= i < old(nodes)@.len() ==> #[trigger] final(nodes)@[i]@
                    == spec_sanitize_subtree(self, T::spec_kind(), old(nodes)@[i]@),
    {
        let ghost orig = nodes@;
        let mut i: usize = 0;
        while i < nodes.len()
            invariant
                i <= orig.len(),
                nodes@.len() == orig.len(),
                forall|j: int| i <= j < orig.len() ==> nodes@[j] == orig[j],
                forall|j: int|
                    0 <= j < i ==> #[trigger] nodes@[j]@ == spec_sanitize_subtree(
                        self,
                        T::spec_kind(),
                        orig[j]@,
                    ),
            decreases orig.len() - i,
        {
            let mut x = nodes.remove(i);
            self.sanitize_node(&mut x);
            nodes.insert(i, x);
            i = i + 1;
        }
    }
}

impl<T: SanitizeDirective> Policy<T> {
    /// Creates a new [`crate::PolicyBuilder`] with no rules.
    pub fn builder() -> (r: crate::policy::builder::PolicyBuilder<T>)
        ensures
            r.spec_excluded() == Seq::<Seq<char>>::empty(),
            r.spec_removed() == Seq::<Seq<char>>::empty(),
            r.spec_attr_rules() == Seq::<super::base::AttributeRuleModel>::empty(),
    {
        crate::policy::builder::PolicyBuilder::new()
    }
}

/// Alias for [`Policy`] under the [`Permissive`] directive (default-allow).
pub type PermissivePolicy = Policy<Permissive>;

/// Alias for [`PermissivePolicy`]: allows all elements and attributes by
/// default.
pub type AllowAllPolicy = Policy<Permissive>;

/// Alias for [`Policy`] under the [`Restrictive`] directive (default-deny).
pub type RestrictivePolicy = Policy<Restrictive>;

/// Alias for [`RestrictivePolicy`]: denies all elements and attributes by
/// default.
pub type DenyAllPolicy = Policy<Restrictive>;

} // verus!
