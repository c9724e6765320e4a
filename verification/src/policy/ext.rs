//! A convenience trait that lets a node or a whole document be sanitized
//! with `value.sanitize(&policy)`.

use vstd::prelude::*;

use super::base::Policy;
use crate::directives::{spec_sanitize_subtree, spec_sanitized_children};
use crate::traits::SanitizeDirective;
use crate::tree::{Document, Node};

verus! {

/// Sanitization as a method on the tree value itself.
pub trait SanitizeExt {
    /// Sanitizes this value in place with the given policy.
    fn sanitize<T: SanitizeDirective>(&mut self, policy: &Policy<T>);
}

impl SanitizeExt for Node {
    /// Sanitizes the subtree under this node, as
    /// [`Policy::sanitize_node`] does.
    fn sanitize<T: SanitizeDirective>(&mut self, policy: &Policy<T>)
        ensures
            final(self)@ == spec_sanitize_subtree(policy, T::spec_kind(), old(self)@),
    {
        policy.sanitize_node(self);
    }
}

impl SanitizeExt for Document {
    /// Sanitizes the whole document, as [`Policy::sanitize_document`] does.
    fn sanitize<T: SanitizeDirective>(&mut self, policy: &Policy<T>)
        ensures
            final(self)@ == spec_sanitized_children(policy, T::spec_kind(), old(self)@),
    {
        policy.sanitize_document(self);
    }
}

} // verus!
