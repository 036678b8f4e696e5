//! Routes a model-emitted tool call to whoever can satisfy it.
//!
//! Two destinations exist:
//!
//! - **Internal** namespaces (e.g. `interface`, whose `send_message` tool lives
//!   in the `interface` module) are handled in-cluster.
//! - **Plugin** namespaces (e.g. `office.gmail`) are dispatched to the owning
//!   plugin.
use vstd::prelude::*;

verus! {

/// Dispatches each tool call to the internal handler or the plugin handler
/// based on its namespace.
#[derive(Debug, Clone)]
pub struct ToolRouterService<I, P> {
    /// Namespaces served in-cluster. Anything not listed is treated as a plugin.
    pub internal_namespaces: Vec<String>,
    /// Handler for internal namespaces.
    pub internal: I,
    /// Handler for plugin namespaces.
    pub plugin: P,
}

/// Who serves a tool call.
#[derive(Debug, Clone, Copy, PartialEq, Eq, Structural)]
pub enum ToolDestination {
    Internal,
    Plugin,
}

/// Whether `namespace` is one of `namespaces`.
pub open spec fn listed(namespaces: Seq<String>, namespace: Seq<char>) -> bool {
    exists|i: int| 0 <= i < namespaces.len() && (#[trigger] namespaces[i])@ == namespace
}

impl<I, P> ToolRouterService<I, P> {
    /// The destination of a call in `namespace`: internal exactly when the
    /// namespace is listed as internal.
    pub fn destination(&self, namespace: &String) -> (d: ToolDestination)
        ensures
            d == ToolDestination::Internal <==> listed(self.internal_namespaces@, namespace@),
    {
        let mut k: usize = 0;
        while k < self.internal_namespaces.len()
            invariant
                k <= self.internal_namespaces@.len(),
                forall|i: int| 0 <= i < k ==> (#[trigger] self.internal_namespaces@[i])@ != namespace@,
            decreases self.internal_namespaces@.len() - k,
        {
            if self.internal_namespaces[k] == *namespace {
                return ToolDestination::Internal;
            }
            k += 1;
        }
        ToolDestination::Plugin
    }
}

} // verus!
