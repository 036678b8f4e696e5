//! Tools a plugin exposes to the LLM.
//!
//! Maps to table `plugin_reg.plugin_tool`.
use vstd::prelude::*;
verus! {

/// A single tool a plugin advertises.
///
/// At tool-use time, the AI caller looks up the row for the chosen
/// `(plugin, tool name)` pair and publishes the call onto the plugin's
/// message exchange using [`routing_key`](Self::routing_key).
#[derive(Debug, Clone)]
pub struct PluginToolEntity {
    pub id: i64,
    pub plugin_id: u128,
    /// Tool name as the LLM sees it; unique per plugin.
    pub name: String,
    /// Human-readable name for operator surfaces.
    pub display_name: String,
    /// Tool description shown to the LLM.
    pub description: String,
    /// JSON Schema describing the tool's input parameters.
    pub parameters_schema: String,
    /// AMQP routing key the cluster uses to dispatch tool-use calls to this
    /// tool's handler inside the plugin.
    pub routing_key: String,
}

/// All tools advertised by a single plugin.
#[derive(Debug, Clone, Copy, PartialEq, Eq, Structural)]
pub struct ListPluginTools {
    pub plugin_id: u128,
}

/// Every tool across every registered plugin (the cluster-wide tool catalog).
#[derive(Debug, Clone, Copy, Default)]
pub struct ListAllPluginTools;

} // verus!
