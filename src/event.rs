//! Messages exchanged with clients: what they send, and what the server sends.

pub mod client;
pub mod server;
