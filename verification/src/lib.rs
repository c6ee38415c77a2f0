//! The network topology of a fleet of hosts: which machines there are, what
//! listens on them, and how they are connected.
//!
//! The library decides and computes; it asks nothing of the network itself.
//! `crawl` walks from host to host over what it is handed, `records` reads
//! what a host reports, `exclude` and `network` decide what is left out,
//! `model` holds what was found, and `graph` turns it into clusters, nodes
//! and edges. `address`, `text` and `pattern` serve the others.

pub mod address;
pub mod crawl;
pub mod exclude;
pub mod graph;
pub mod model;
pub mod network;
pub mod pattern;
pub mod records;
pub mod text;
