//! State keeping for a bot that queues approved pull requests, has them
//! built one at a time per repository, and merges those whose build passed.

pub mod api;
pub mod ci;
pub mod config;
pub mod errors;
pub mod pullrequest;
pub mod queue;
pub mod server;
pub mod signature;
pub mod text;
pub mod webhook;

pub use errors::{VolfError, VolfResult};
pub use pullrequest::{parse_commands, Pull};
