//! Plain engine value types: positions, rectangles and the sparse set.

pub mod positions;
pub mod sparseset;
pub mod network;
pub mod encoding;
