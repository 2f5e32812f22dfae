//! Agent-to-agent communication: the HTTP interface's messages and the
//! discovery of agents on the local network.
pub mod discovery;
pub mod server;
