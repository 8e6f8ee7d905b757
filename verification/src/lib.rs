//! An OSC parameter tree that can be queried: the address space of nodes,
//! the typed values behind its leaves, the dispatch of OSC packets against
//! it, and the decisions of the push channel that reports its changes.

pub mod osc;
pub mod wire;
pub mod value;
pub mod scalar;
pub mod param;
pub mod path;
pub mod node;
pub mod graph;
pub mod dispatch;
pub mod websocket;
pub mod subscription;
pub mod broadcast;
pub mod destination;
pub mod root;
