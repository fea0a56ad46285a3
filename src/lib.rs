//! Incremental exploration of a graph of linked pages: a deduplicating graph
//! store, a coordinator for streamed link discoveries, a navigation cursor over
//! the tree of expanded roots, and the synchronisation rules between the graph
//! and a force-directed layout.

pub mod text;
pub mod url;
pub mod node;
pub mod topology;
pub mod graph;
pub mod cursor;
pub mod fetch;
pub mod layout;
pub mod exploration;
