//! Tool registry, reasoning loop and run tracking for autonomous agents.
//!
//! Three pieces work together. The registry turns the entries of a tools
//! directory into uniform tool descriptors, answers tag- and
//! category-filtered queries over them, and prepares the process of each
//! tool invocation; a capability view scopes it to a set of tags. The loop
//! drives one agent through reasoning, tool calls and observations to an
//! answer or a failure. Handoff contexts and runs let a host chain agents
//! and follow long executions through pollable event logs.
//!
//! The library decides and computes; it never reads a directory, starts a
//! process or waits. Its functions carry contracts that Verus checks. The
//! few calls into std and other crates whose behaviour is taken on trust
//! say so in their doc comments.

pub mod background;
pub mod error;
pub mod handoffs;
pub mod json;
pub mod react;
pub mod security_tools;
pub mod supervision;
pub mod text;
pub mod tools;

pub use background::{
    BackgroundExecutor, PaginatedEvents, Run, RunEvent, RunEventType, RunId, RunStatus, SeqId,
};
pub use error::Error;
pub use handoffs::HandoffContext;
pub use react::{LoopAction, LoopPhase, ModelReply, Observation, ReActLoop, ReActStep, ToolCall};
pub use security_tools::{
    ListSecurityTools, RunSecurityTool, SecurityCategory, SecurityTool, SecurityToolRegistry,
    TaggedSecurityTools,
};
pub use tools::{ProcessOutcome, ToolOutput};
