//! The traits that tie a policy to the directive engine: a directive selects
//! the default behaviour, a policy answers the per-node and per-attribute
//! questions the engine asks.

use vstd::prelude::*;

use crate::tree::{Attr, AttrModel, Node, NodeModel};

verus! {

/// The two sanitization modes: default-allow and default-deny.
#[derive(Debug, Clone, Copy, PartialEq, Eq, Structural)]
pub enum Directive {
    /// Keep everything that no rule names.
    Permissive,
    /// Unwrap everything that no rule names, except protected roots.
    Restrictive,
}

/// A sanitization policy: the questions the directive engine asks of a node
/// or an attribute. Rule evaluation is a short-circuiting OR over the
/// policy's rule lists, and each executable method returns exactly what its
/// ghost counterpart states.
pub trait SanitizePolicy: Sized {
    /// Whether the node matches an exclude rule.
    spec fn spec_exclude(&self, n: NodeModel) -> bool;

    /// Whether the node matches a remove rule.
    spec fn spec_remove(&self, n: NodeModel) -> bool;

    /// Whether the attribute, on the given node, matches an attribute rule.
    spec fn spec_exclude_attr(&self, n: NodeModel, a: AttrModel) -> bool;

    /// Whether the policy has any attribute rules at all.
    spec fn spec_has_attr_rules(&self) -> bool;

    /// Whether the policy has no rules in any category.
    spec fn spec_is_empty(&self) -> bool;

    /// Whether node `node` should be excluded from the directive's default
    /// treatment.
    fn should_exclude(&self, node: &Node) -> (r: bool)
        ensures
            r == self.spec_exclude(node@),
    ;

    /// Whether node `node` should be removed outright, subtree included.
    fn should_remove(&self, node: &Node) -> (r: bool)
        ensures
            r == self.spec_remove(node@),
    ;

    /// Whether attribute `attr` of node `node` matches an attribute rule.
    fn should_exclude_attr(&self, node: &Node, attr: &Attr) -> (r: bool)
        ensures
            r == self.spec_exclude_attr(node@, attr@),
    ;

    /// Whether the policy has attribute rules.
    fn has_attrs_to_exclude(&self) -> (r: bool)
        ensures
            r == self.spec_has_attr_rules(),
    ;

    /// Whether the policy has no rules in any category.
    fn is_empty(&self) -> (r: bool)
        ensures
            r == self.spec_is_empty(),
    ;

    /// An empty policy matches nothing: no exclude rule, no remove rule, no
    /// attribute rule.
    proof fn lemma_empty_matches_nothing(&self, n: NodeModel, a: AttrModel)
        requires
            self.spec_is_empty(),
        ensures
            !self.spec_exclude(n),
            !self.spec_remove(n),
            !self.spec_exclude_attr(n, a),
            !self.spec_has_attr_rules(),
    ;
}

/// A sanitization directive: the compile-time selector of one of the two
/// rewrite algorithms.
pub trait SanitizeDirective: Sized {
    /// The directive tag this type stands for.
    spec fn spec_kind() -> Directive;

    /// The directive tag this type stands for.
    fn kind() -> (d: Directive)
        ensures
            d == Self::spec_kind(),
    ;

    /// Rewrites the children of `node` in place, per this directive and the
    /// policy. Normalization of adjacent text nodes is a separate pass.
    fn sanitize_node<P: SanitizePolicy>(policy: &P, node: &mut Node)
        ensures
            final(node)@ == crate::directives::spec_pass_subtree(
                policy,
                Self::spec_kind(),
                old(node)@,
            ),
    ;

    /// Replaces the attributes of `node` with what this directive's
    /// attribute filtering keeps.
    fn sanitize_node_attrs<P: SanitizePolicy>(policy: &P, node: &mut Node)
        ensures
            final(node)@ == crate::directives::spec_filter_attrs_subtree(
                policy,
                Self::spec_kind(),
                old(node)@,
            ),
    ;
}

} // verus!
