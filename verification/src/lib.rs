//! Nodes for a message-passing test harness: the envelope types, the node
//! interface, and the node kinds built on them.

pub mod broadcast;
pub mod broadcast_runs;
pub mod echo;
pub mod message;
pub mod node;
pub mod topology;
pub mod unique_id;

pub use message::{Body, BodyView, Message, MessageView};
pub use node::GenericNode;
