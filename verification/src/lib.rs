//! A graph layer over any keyed store.
//!
//! A store maps keys to nodes, and a node carries an adjacency list: the
//! keys that its out-edges lead to, in order. An edge is nothing but an
//! entry in the list of its source, so it may lead to a key under which no
//! node is stored, and removing a node leaves the edges that lead to it.
//!
//! - [`node`] says what a stored value must offer to be a node.
//! - [`graph`] holds the contract of the store and the edge operations that
//!   come with it: directed and in both directions, to add and to remove.
//! - [`adjacency`] holds the work on one adjacency list.
//! - [`keys`] says what is taken for granted of keys.
//! - [`error`] is the error of the edge operations.
//! - [`laws`] states what holds of every store and every run of the
//!   operations.

pub mod adjacency;
pub mod error;
pub mod graph;
pub mod keys;
pub mod laws;
pub mod node;

pub use error::ClusterError;
pub use graph::Cluster;
pub use node::Node;
