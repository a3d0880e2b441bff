//! OAuth 2.0 client-credentials issuer: configuration rules, the per-provider
//! token cache with proactive refresh and stale fallback, and the handling of
//! token endpoint replies.

pub mod config;
pub mod config_guarantees;
pub mod endpoint;
pub mod foreign;
pub mod guarantees;
pub mod laws;
pub mod name_map;
pub mod plugin;
pub mod text;
pub mod text_guarantees;
pub mod token;

pub use config::{ConfigError, OAuthConfig, ProviderConfig};
pub use plugin::OAuthClientCredentialsPlugin;
