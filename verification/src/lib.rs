pub mod commands;
pub mod gc;
pub mod git;
pub mod engine;
pub mod errors;
pub mod launchpad;
pub mod messages;
pub mod state;
pub mod subprocess;
pub mod text;
