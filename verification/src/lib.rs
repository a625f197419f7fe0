//! The parts of an agent harness: `bot-harness` runs one task with any agent
//! that speaks the Agent Client Protocol, records the protocol stream,
//! answers permission requests from a policy and keeps to a timeout and a
//! budget; `devspace` manages the disposable runners that it works on; and a
//! scripted agent stands in for a real one.

pub mod agents;
pub mod devspace;
pub mod digest;
pub mod duration;
pub mod fake_agent;
pub mod invariants;
pub mod json;
pub mod lifecycle;
pub mod message;
pub mod moment;
pub mod path;
pub mod policy;
pub mod run;
pub mod summary;
pub mod table;
pub mod text;
pub mod toolcall;
pub mod views;
