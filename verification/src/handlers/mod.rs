//! The handlers: what each does with its input, and what it says of its runs.

pub mod agent_history;
pub mod agent_run;
pub mod ai_agent;
pub mod child;
pub mod immediate;
pub mod process;
pub mod timers;
