//! Convergence-layer registry and multicast neighbour discovery for a
//! delay-tolerant networking node, with their contracts proved by Verus.

pub mod cla;
pub mod discovery;
pub mod peers;
pub mod text;
