//! Verified core of Isla: the memory repository's summary segment tree,
//! context selection and audience filtering; the rules and decisions its
//! services take around their storage calls; the vault's scope patterns; the
//! agent's bounded turn and tool routing; and the Telegram adapter's
//! message rules.
pub mod config;
pub mod decimal;
pub mod entities;
pub mod personality;
pub mod plugin_registrar;
pub mod scopes;
pub mod services;
pub mod telegram;
