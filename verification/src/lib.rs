//! In-place sanitization of markup trees driven by declarative policies.
//!
//! A caller builds an immutable policy — element rules, attribute rules and a
//! directive (permissive or restrictive) — and runs it against a tree of
//! nodes. The engine removes or unwraps elements, strips attributes, and
//! merges adjacent text nodes, all with machine-checked contracts.

pub mod attr_parser;
pub mod directives;
pub mod laws;
pub mod plugin_policy;
pub mod policy;
pub mod preset;
pub mod traits;
pub mod tree;

pub use directives::{Permissive, Restrictive};
pub use plugin_policy::{PluginPolicy, PluginPolicyBuilder};
pub use policy::{
    AllowAllPolicy, DenyAllPolicy, PermissivePolicy, Policy, PolicyBuilder, RestrictivePolicy,
    SanitizeExt,
};
pub use tree::{Attr, Document, Element, Node};
