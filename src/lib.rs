//! One node of a gossip-based broadcast protocol: a deduplicating value
//! store, a message dispatcher with exact reply rules, and random-fanout
//! dissemination of newly learned values.
pub mod gossip;
pub mod laws;
pub mod message;
pub mod node;
pub mod store;

pub use message::{accept_init, reply, Body, Fields, HandleError, Message, Type};
pub use node::{Node, NodeView, Outcome};
pub use store::Store;
