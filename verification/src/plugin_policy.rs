//! The plugin policy: caller-supplied checkers behind the
//! [`base::NodeChecker`] and [`base::AttrChecker`] traits, with ready-made
//! matchers under [`preset`].

pub mod base;
pub mod builder;
pub mod preset;

pub use base::{AttrChecker, NodeChecker, PluginPolicy};
pub use base::{PermissivePluginPolicy, RestrictivePluginPolicy};
pub use builder::PluginPolicyBuilder;
