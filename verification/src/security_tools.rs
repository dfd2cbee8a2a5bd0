//! Discovery, description and capability-scoped dispatch of security tools.

pub mod capability;
pub mod category;
pub mod descriptor;
pub mod matching;
pub mod queries;
pub mod discovery;
pub mod dispatch;
pub mod registry;
pub mod schema;

pub use category::SecurityCategory;
pub use descriptor::{Launch, SecurityTool, ToolArg, ToolMetadata};
pub use registry::SecurityToolRegistry;
pub use discovery::{PackagedEntry, ShellEntry, ToolSource};
pub use capability::{
    ListSecurityTools, RunSecurityTool, TaggedListSecurityTools, TaggedRunSecurityTool,
    TaggedSecurityTools, ToolStep,
};
pub use schema::{JsonSchema, ParamKind, ParamSchema};
