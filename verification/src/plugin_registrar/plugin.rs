//! Core plugin record and the per-plugin metadata / dependency rows.
//!
//! Maps to tables `plugin_reg.plugin`, `plugin_reg.plugin_metadata`, and
//! `plugin_reg.plugin_dependency`.
use vstd::prelude::*;
verus! {

/// A registered plugin.
///
/// One row per plugin instance. The [`id`](Self::id) is the cluster-issued
/// identity used as the AMQP correlation principal and as the foreign key
/// target for every other table in `plugin_reg`.
#[derive(Debug, Clone)]
pub struct PluginEntity {
    /// Cluster-issued plugin identity.
    pub id: u128,
    /// Stable machine name (e.g. `gmail`). Unique across the cluster.
    pub name: String,
    /// When the plugin first registered with the cluster.
    pub registered_at: i128,
    /// Authorization scopes the plugin is allowed to act under.
    pub scope_range: Vec<String>,
    /// Human-readable description shown in operator surfaces.
    pub description: String,
    /// Shared secret used to sign JWTs the plugin presents to the cluster.
    pub jwt_secret: String,
    /// Public key (or raw key material) used by plugin to verify
    /// signed messages sent by the cluster.
    pub server_message_signature_key: Vec<u8>,
    /// AMQP exchange name the cluster uses to publish messages addressed to
    /// this plugin.
    pub message_exchange: String,
}

/// Optional, mostly-cosmetic metadata for a plugin. One row per plugin.
#[derive(Debug, Clone)]
pub struct PluginMetadataEntity {
    pub plugin_id: u128,
    pub display_name: String,
    pub author: String,
    pub author_url: Option<String>,
    pub repository: Option<String>,
    pub license: Option<String>,
    pub version: String,
}

/// A "this plugin requires that plugin" declaration.
///
/// Used by service discovery to refuse to bring a plugin online until its
/// declared dependencies are themselves registered and healthy.
#[derive(Debug, Clone)]
pub struct PluginDependencyEntity {
    pub id: i64,
    pub plugin_id: u128,
    /// Name (`plugin.name`) of the required plugin.
    pub require_plugin: String,
    /// SemVer range string the required plugin's version must satisfy.
    pub require_version: String,
}

/// A tool declaration supplied at registration time, before the plugin row
/// exists. Used by [`RegisterPluginRow`] to fan out into `plugin_reg.plugin_tool`.
#[derive(Debug, Clone)]
pub struct NewPluginTool {
    /// Tool name as the LLM sees it; unique per plugin.
    pub name: String,
    /// Human-readable name for operator surfaces.
    pub display_name: String,
    /// Tool description shown to the LLM.
    pub description: String,
    /// JSON Schema describing the tool's input parameters.
    pub parameters_schema: String,
    /// AMQP routing key the cluster uses to dispatch tool-use calls.
    pub routing_key: String,
}

/// A skill declaration supplied at registration time. Used by
/// [`RegisterPluginRow`] to fan out into `plugin_reg.plugin_skill`.
#[derive(Debug, Clone)]
pub struct NewPluginSkill {
    /// Skill name; unique per plugin.
    pub name: String,
    pub display_name: String,
    pub description: String,
    /// Contents of the skill's main file (typically a `SKILL.md`).
    pub main_file_text: String,
}

/// Fetch a plugin by its cluster-issued [`id`](PluginEntity::id).
#[derive(Debug, Clone, Copy, PartialEq, Eq, Structural)]
pub struct FindPluginById {
    pub id: u128,
}

/// Fetch a plugin by its unique machine [`name`](PluginEntity::name).
#[derive(Debug, Clone)]
pub struct FindPluginByName {
    pub name: String,
}

/// Paginated list of registered plugins, newest first.
#[derive(Debug, Clone, Copy, PartialEq, Eq, Structural)]
pub struct ListPlugins {
    pub limit: i64,
    pub offset: i64,
}

/// Fetch only the JWT signing secret for a plugin, by id.
///
/// Used by the plugin-auth layer to verify per-message plugin tokens.
#[derive(Debug, Clone, Copy, PartialEq, Eq, Structural)]
pub struct FindPluginJwtSecret {
    pub plugin_id: u128,
}

/// Delete a plugin by id. Cascades to every dependent row in `plugin_reg`.
#[derive(Debug, Clone, Copy, PartialEq, Eq, Structural)]
pub struct DeletePlugin {
    pub id: u128,
}

/// Atomically register a plugin and all of its declared sub-records.
///
/// Inserts the core plugin row, optional metadata, and the dependency,
/// namespace, tool, and skill rows supplied in the corresponding vectors. The
/// whole insert runs in one transaction, so a failure on any row rolls back
/// the entire registration.
#[derive(Debug, Clone)]
pub struct RegisterPluginRow {
    pub id: u128,
    pub name: String,
    pub scope_range: Vec<String>,
    pub description: String,
    pub jwt_secret: String,
    pub server_message_signature_key: Vec<u8>,
    pub message_exchange: String,
    pub metadata: Option<PluginMetadataEntity>,
    /// `(require_plugin, require_version)` pairs.
    pub dependencies: Vec<(String, String)>,
    /// Each namespace as its ordered segment list.
    pub namespaces: Vec<Vec<String>>,
    pub tools: Vec<NewPluginTool>,
    pub skills: Vec<NewPluginSkill>,
}

} // verus!
