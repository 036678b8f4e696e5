//! The agent side of the personality module: the bounded turn loop that calls
//! the model and routes its tool calls, and the router that picks who serves a
//! tool call.
pub mod agent;
pub mod persona_cache;
pub mod tool_router;
