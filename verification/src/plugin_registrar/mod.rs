//! Records of the plugin registrar: registered plugins, their metadata and
//! dependencies, the namespaces they claim, the tools and skills they ship,
//! and the structured-memory queries they answer.
//!
//! Plugins are out-of-process and talk to the cluster over the message bus;
//! these are the rows the registrar keeps about them. A UUID is held as its
//! 128-bit value, a point in time as Unix nanoseconds, and a JSON document as
//! its text.
pub mod plugin;
pub mod plugin_memory;
pub mod plugin_namespace;
pub mod plugin_skills;
pub mod plugin_tool;
