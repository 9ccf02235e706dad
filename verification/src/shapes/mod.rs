//! What the renderer needs to know of a primitive without doing geometry:
//! its identity, and the selection steps of the per-shape intersection tests.

pub mod id;
pub mod cube;
pub mod cylinder;
