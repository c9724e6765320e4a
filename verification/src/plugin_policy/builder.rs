//! The builder that accumulates checkers and finalizes them into an
//! immutable [`PluginPolicy`].

use vstd::prelude::*;

use core::marker::PhantomData;

use super::base::{AttrChecker, NodeChecker, PluginPolicy};
use super::preset::{AnyAttrChecker, AnyNodeChecker};
use crate::traits::SanitizeDirective;
use crate::Restrictive;

verus! {

/// A builder for a [`PluginPolicy`]: accumulates exclude, remove and
/// attribute checkers, and finalizes them with
/// [`PluginPolicyBuilder::build`].
pub struct PluginPolicyBuilder<
    T: SanitizeDirective = Restrictive,
    EC: NodeChecker = AnyNodeChecker,
    RC: NodeChecker = AnyNodeChecker,
    AC: AttrChecker = AnyAttrChecker,
> {
    exclude_checkers: Vec<EC>,
    remove_checkers: Vec<RC>,
    attr_exclude_checkers: Vec<AC>,
    _directive: PhantomData<T>,
}

impl<T: SanitizeDirective, EC: NodeChecker, RC: NodeChecker, AC: AttrChecker> PluginPolicyBuilder<
    T,
    EC,
    RC,
    AC,
> {
    /// The exclude checkers so far.
    pub closed spec fn spec_excluders(&self) -> Seq<EC> {
        self.exclude_checkers@
    }

    /// The remove checkers so far.
    pub closed spec fn spec_removers(&self) -> Seq<RC> {
        self.remove_checkers@
    }

    /// The attribute checkers so far.
    pub closed spec fn spec_attr_checkers(&self) -> Seq<AC> {
        self.attr_exclude_checkers@
    }
}

impl<T: SanitizeDirective, EC: NodeChecker, RC: NodeChecker, AC: AttrChecker> Default
    for PluginPolicyBuilder<T, EC, RC, AC> {
    /// An empty builder: no checkers in any category.
    fn default() -> (r: Self)
        ensures
            r.spec_excluders() == Seq::<EC>::empty(),
            r.spec_removers() == Seq::<RC>::empty(),
            r.spec_attr_checkers() == Seq::<AC>::empty(),
    {
        let r = PluginPolicyBuilder {
            exclude_checkers: Vec::new(),
            remove_checkers: Vec::new(),
            attr_exclude_checkers: Vec::new(),
            _directive: PhantomData,
        };
        proof {
            assert(r.spec_excluders() =~= Seq::<EC>::empty());
            assert(r.spec_removers() =~= Seq::<RC>::empty());
            assert(r.spec_attr_checkers() =~= Seq::<AC>::empty());
        }
        r
    }
}

impl<T: SanitizeDirective, EC: NodeChecker, RC: NodeChecker, AC: AttrChecker> PluginPolicyBuilder<
    T,
    EC,
    RC,
    AC,
> {
    /// An empty builder: no checkers in any category.
    pub fn new() -> (r: Self)
        ensures
            r.spec_excluders() == Seq::<EC>::empty(),
            r.spec_removers() == Seq::<RC>::empty(),
            r.spec_attr_checkers() == Seq::<AC>::empty(),
    {
        Self::default()
    }

    /// Adds a checker whose matches are excluded from the directive's
    /// default treatment.
    pub fn exclude(self, checker: EC) -> (r: Self)
        ensures
            r.spec_excluders() == self.spec_excluders().push(checker),
            r.spec_removers() == self.spec_removers(),
            r.spec_attr_checkers() == self.spec_attr_checkers(),
    {
        let mut this = self;
        this.exclude_checkers.push(checker);
        this
    }

    /// Adds a checker whose matches are removed outright, children included.
    pub fn remove(self, checker: RC) -> (r: Self)
        ensures
            r.spec_removers() == self.spec_removers().push(checker),
            r.spec_excluders() == self.spec_excluders(),
            r.spec_attr_checkers() == self.spec_attr_checkers(),
    {
        let mut this = self;
        this.remove_checkers.push(checker);
        this
    }

    /// Adds an attribute checker: its matches are removed under
    /// [`crate::Permissive`], and are the attributes kept under
    /// [`crate::Restrictive`].
    pub fn exclude_attr(self, checker: AC) -> (r: Self)
        ensures
            r.spec_attr_checkers() == self.spec_attr_checkers().push(checker),
            r.spec_excluders() == self.spec_excluders(),
            r.spec_removers() == self.spec_removers(),
    {
        let mut this = self;
        this.attr_exclude_checkers.push(checker);
        this
    }

    /// Finalizes the accumulated checkers into an immutable
    /// [`PluginPolicy`].
    pub fn build(self) -> (r: PluginPolicy<T, EC, RC, AC>)
        ensures
            r.spec_excluders() == self.spec_excluders(),
            r.spec_removers() == self.spec_removers(),
            r.spec_attr_checkers() == self.spec_attr_checkers(),
    {
        let r = PluginPolicy {
            exclude_checkers: self.exclude_checkers,
            remove_checkers: self.remove_checkers,
            attr_exclude_checkers: self.attr_exclude_checkers,
            _directive: PhantomData,
        };
        proof {
            super::base::lemma_plugin_policy_parts(&r);
        }
        r
    }
}

} // verus!
