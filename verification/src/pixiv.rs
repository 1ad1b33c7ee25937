//! What the illustration service is asked and what it answers.

pub mod client;
pub mod error;
pub mod response;
pub mod types;
