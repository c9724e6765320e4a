//! The name-list policy, its builder, and the sanitize extension trait.

pub mod builder;
pub mod base;
pub mod ext;

pub use builder::PolicyBuilder;
pub use base::{AllowAllPolicy, DenyAllPolicy, PermissivePolicy, RestrictivePolicy};
pub use base::{AttributeRule, Policy};
pub use ext::SanitizeExt;
