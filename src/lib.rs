//! Message-protocol handling and view-state reconciliation for a single-room
//! realtime chat client.

pub mod json;

pub mod envelope;
pub mod chat;
