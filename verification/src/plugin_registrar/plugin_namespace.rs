//! Namespace claims for a registered plugin.
//!
//! Maps to table `plugin_reg.plugin_namespace`.
use vstd::prelude::*;
verus! {

/// One namespace claimed by a plugin.
///
/// Namespaces are dotted identifiers such as `office.gmail` or
/// `life.accuweather`; in the database they are stored as the segment array
/// (`{"office", "gmail"}`) so the registrar can match by prefix without
/// having to parse the dotted form. A plugin may claim more than one
/// namespace.
#[derive(Debug, Clone)]
pub struct PluginNamespaceEntity {
    pub id: i64,
    pub plugin_id: u128,
    /// Namespace segments, in order. E.g. `["office", "gmail"]`.
    pub name: Vec<String>,
}

/// Resolve which plugin (if any) claims the given namespace segment list.
#[derive(Debug, Clone)]
pub struct FindPluginIdByNamespace {
    /// Namespace segments, in order. E.g. `["office", "gmail"]`.
    pub segments: Vec<String>,
}

} // verus!
