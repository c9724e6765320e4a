//! The plugin policy: ordered lists of caller-supplied checkers, one list
//! per rule category, evaluated as a short-circuiting OR.

use vstd::prelude::*;

use core::marker::PhantomData;

use crate::directives::{
    normalize_node, normalize_vec, sanitize_vec, spec_sanitize_subtree, spec_sanitized_children,
};
use crate::plugin_policy::preset::{AnyAttrChecker, AnyNodeChecker};
use crate::traits::{Directive, SanitizeDirective, SanitizePolicy};
use crate::tree::{Attr, AttrModel, Document, Node, NodeModel};
use crate::{Permissive, Restrictive};

verus! {

/// A pluggable predicate over nodes. An implementer decides whether a node
/// is excluded from the directive's default treatment, or removed outright,
/// and must answer exactly what its ghost predicate states.
pub trait NodeChecker: Sized {
    /// What the checker holds of a node.
    spec fn spec_is_match(&self, n: NodeModel) -> bool;

    /// Whether the node matches.
    fn is_match(&self, node: &Node) -> (r: bool)
        ensures
            r == self.spec_is_match(node@),
    ;
}

/// A pluggable predicate over an attribute of a node. Under the permissive
/// directive a match means the attribute is removed; under the restrictive
/// directive a match means it is kept.
pub trait AttrChecker: Sized {
    /// What the checker holds of an attribute on a node.
    spec fn spec_is_match_attr(&self, n: NodeModel, a: AttrModel) -> bool;

    /// Whether the attribute matches on this node.
    fn is_match_attr(&self, node: &Node, attr: &Attr) -> (r: bool)
        ensures
            r == self.spec_is_match_attr(node@, attr@),
    ;
}

/// Whether any checker of the list matches the node.
pub open spec fn any_node_match<C: NodeChecker>(checkers: Seq<C>, n: NodeModel) -> bool {
    exists|i: int| 0 <= i < checkers.len() && (#[trigger] checkers[i]).spec_is_match(n)
}

/// Whether any checker of the list matches the attribute on the node.
pub open spec fn any_attr_match<C: AttrChecker>(checkers: Seq<C>, n: NodeModel, a: AttrModel) -> bool {
    exists|i: int| 0 <= i < checkers.len() && (#[trigger] checkers[i]).spec_is_match_attr(n, a)
}

/// Runs the checkers of a list over a node, in order, short-circuiting on
/// the first match.
fn run_node_checkers<C: NodeChecker>(checkers: &Vec<C>, node: &Node) -> (r: bool)
    ensures
        r == any_node_match(checkers@, node@),
{
    let mut i: usize = 0;
    while i < checkers.len()
        invariant
            i <= checkers@.len(),
            forall|j: int| 0 <= j < i ==> !(#[trigger] checkers@[j]).spec_is_match(node@),
        decreases checkers@.len() - i,
    {
        if checkers[i].is_match(node) {
            return true;
        }
        i = i + 1;
    }
    false
}

/// Runs the attribute checkers of a list, in order, short-circuiting on the
/// first match.
fn run_attr_checkers<C: AttrChecker>(checkers: &Vec<C>, node: &Node, attr: &Attr) -> (r: bool)
    ensures
        r == any_attr_match(checkers@, node@, attr@),
{
    let mut i: usize = 0;
    while i < checkers.len()
        invariant
            i <= checkers@.len(),
            forall|j: int|
                0 <= j < i ==> !(#[trigger] checkers@[j]).spec_is_match_attr(node@, attr@),
        decreases checkers@.len() - i,
    {
        if checkers[i].is_match_attr(node, attr) {
            return true;
        }
        i = i + 1;
    }
    false
}

/// A policy of pluggable checkers: one ordered list per rule category,
/// immutable once built by [`crate::plugin_policy::PluginPolicyBuilder`].
pub struct PluginPolicy<
    T: SanitizeDirective = Restrictive,
    EC: NodeChecker = AnyNodeChecker,
    RC: NodeChecker = AnyNodeChecker,
    AC: AttrChecker = AnyAttrChecker,
> {
    pub(crate) exclude_checkers: Vec<EC>,
    pub(crate) remove_checkers: Vec<RC>,
    pub(crate) attr_exclude_checkers: Vec<AC>,
    pub(crate) _directive: PhantomData<T>,
}

impl<T: SanitizeDirective, EC: NodeChecker, RC: NodeChecker, AC: AttrChecker> PluginPolicy<
    T,
    EC,
    RC,
    AC,
> {
    /// The exclude checkers, in evaluation order.
    pub closed spec fn spec_excluders(&self) -> Seq<EC> {
        self.exclude_checkers@
    }

    /// The remove checkers, in evaluation order.
    pub closed spec fn spec_removers(&self) -> Seq<RC> {
        self.remove_checkers@
    }

    /// The attribute checkers, in evaluation order.
    pub closed spec fn spec_attr_checkers(&self) -> Seq<AC> {
        self.attr_exclude_checkers@
    }
}

/// Ties a plugin policy's ghost accessors to its fields, for the crate's own
/// proofs.
pub(crate) proof fn lemma_plugin_policy_parts<
    T: SanitizeDirective,
    EC: NodeChecker,
    RC: NodeChecker,
    AC: AttrChecker,
>(p: &PluginPolicy<T, EC, RC, AC>)
    ensures
        p.spec_excluders() == p.exclude_checkers@,
        p.spec_removers() == p.remove_checkers@,
        p.spec_attr_checkers() == p.attr_exclude_checkers@,
{
}

impl<T: SanitizeDirective, EC: NodeChecker, RC: NodeChecker, AC: AttrChecker> SanitizePolicy
    for PluginPolicy<T, EC, RC, AC> {
    open spec fn spec_exclude(&self, n: NodeModel) -> bool {
        any_node_match(self.spec_excluders(), n)
    }

    open spec fn spec_remove(&self, n: NodeModel) -> bool {
        any_node_match(self.spec_removers(), n)
    }

    open spec fn spec_exclude_attr(&self, n: NodeModel, a: AttrModel) -> bool {
        any_attr_match(self.spec_attr_checkers(), n, a)
    }

    open spec fn spec_has_attr_rules(&self) -> bool {
        self.spec_attr_checkers().len() > 0
    }

    open spec fn spec_is_empty(&self) -> bool {
        self.spec_excluders().len() == 0 && self.spec_removers().len() == 0
            && self.spec_attr_checkers().len() == 0
    }

    fn should_exclude(&self, node: &Node) -> (r: bool) {
        run_node_checkers(&self.exclude_checkers, node)
    }

    fn should_remove(&self, node: &Node) -> (r: bool) {
        run_node_checkers(&self.remove_checkers, node)
    }

    fn should_exclude_attr(&self, node: &Node, attr: &Attr) -> (r: bool) {
        run_attr_checkers(&self.attr_exclude_checkers, node, attr)
    }

    fn has_attrs_to_exclude(&self) -> (r: bool) {
        self.attr_exclude_checkers.len() > 0
    }

    fn is_empty(&self) -> (r: bool) {
        self.exclude_checkers.len() == 0 && self.remove_checkers.len() == 0
            && self.attr_exclude_checkers.len() == 0
    }

    proof fn lemma_empty_matches_nothing(&self, n: NodeModel, a: AttrModel) {
    }
}

impl<T: SanitizeDirective, EC: NodeChecker, RC: NodeChecker, AC: AttrChecker> PluginPolicy<
    T,
    EC,
    RC,
    AC,
> {
    /// Creates a new [`crate::plugin_policy::PluginPolicyBuilder`] with no
    /// checkers.
    pub fn builder() -> (r: crate::plugin_policy::builder::PluginPolicyBuilder<T, EC, RC, AC>)
        ensures
            r.spec_excluders() == Seq::<EC>::empty(),
            r.spec_removers() == Seq::<RC>::empty(),
            r.spec_attr_checkers() == Seq::<AC>::empty(),
    {
        crate::plugin_policy::builder::PluginPolicyBuilder::new()
    }

    /// Sanitizes the subtree under `node` in place: the node itself stands,
    /// its descendants are rewritten per the directive, and adjacent text
    /// nodes left by unwrapping are merged. An empty permissive policy does
    /// not touch the tree at all.
    pub fn sanitize_node(&self, node: &mut Node)
        ensures
            final(node)@ == spec_sanitize_subtree(self, T::spec_kind(), old(node)@),
    {
        if T::kind() == Directive::Permissive && self.is_empty() {
            return;
        }
        T::sanitize_node(self, node);
        normalize_node(node);
    }

    /// Sanitizes a whole document in place.
    pub fn sanitize_document(&self, doc: &mut Document)
        ensures
            final(doc)@ == spec_sanitized_children(self, T::spec_kind(), old(doc)@),
    {
        if T::kind() == Directive::Permissive && self.is_empty() {
            return;
        }
        let mut tmp: Vec<Node> = Vec::new();
        core::mem::swap(&mut doc.children, &mut tmp);
        let s = sanitize_vec(self, T::kind(), tmp);
        let n = normalize_vec(s);
        doc.children = n;
    }

    /// Sanitizes each node of a pre-selected set in place, as
    /// [`PluginPolicy::sanitize_node`] does one.
    pub fn sanitize_selection(&self, nodes: &mut Vec<Node>)
        ensures
            final(nodes)@.len() == old(nodes)@.len(),
            forall|i: int|
                0 <= i < old(nodes)@.len() ==> #[trigger] final(nodes)@[i]@
                    == spec_sanitize_subtree(self, T::spec_kind(), old(nodes)@[i]@),
    {
        let ghost orig = nodes@;
        let mut i: usize = 0;
        while i < nodes.len()
            invariant
                i <= orig.len(),
                nodes@.len() == orig.len(),
                forall|j: int| i <= j < orig.len() ==> nodes@[j] == orig[j],
                forall|j: int|
                    0 <= j < i ==> #[trigger] nodes@[j]@ == spec_sanitize_subtree(
                        self,
                        T::spec_kind(),
                        orig[j]@,
                    ),
            decreases orig.len() - i,
        {
            let mut x = nodes.remove(i);
            self.sanitize_node(&mut x);
            nodes.insert(i, x);
            i = i + 1;
        }
    }
}

/// Alias for [`PluginPolicy`] under the [`Permissive`] directive
/// (default-allow).
pub type PermissivePluginPolicy = PluginPolicy<Permissive>;

/// Alias for [`PluginPolicy`] under the [`Restrictive`] directive
/// (default-deny).
pub type RestrictivePluginPolicy = PluginPolicy<Restrictive>;

} // verus!
