pub mod actions;
pub mod bindings;
pub mod buffers;
pub mod calls;
pub mod completeness;
pub mod confirmation;
pub mod discovery;
pub mod gateway;
pub mod history;
pub mod items;
pub mod json;
pub mod metadata;
pub mod names;
pub mod paths;
pub mod projection;
pub mod protocol;
pub mod rows;
pub mod rpc;
pub mod session;
pub mod subagents;
pub mod sync;
pub mod table;
pub mod text;
pub mod thread;
pub mod upkeep;
pub mod wire;
