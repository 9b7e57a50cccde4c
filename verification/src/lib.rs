//! The decision core of `wardenctl`, the operator command line of Agent
//! Warden: argument records, what is asked of the services, and the text and
//! exit codes of the reports, each with a proved contract. Where a report says
//! that the service's own response is printed as JSON, the program around this
//! library prints it.

pub mod agents;
pub mod config;
pub mod json;
pub mod mcp_bridge;
pub mod migrate;
pub mod paths;
pub mod policy_lab;
pub mod policy_library;
pub mod policy_scaffold;
pub mod registry;
pub mod regulatory;
pub mod report;
pub mod text;
pub mod time;
