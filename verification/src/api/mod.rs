//! Requests to the platform's REST interface, up to the point where they go
//! out: where each request goes, what it carries, and what the answer's
//! status means.

pub mod client;
pub mod pulls;
pub mod repos;
