//! A terminal game engine: input decoding, text layout, sprites, camera
//! culling, a sparse-set object store and the small value types they share.

pub mod clock;
pub mod cells;
pub mod types;
pub mod render;
pub mod input;
pub mod error;
pub mod context;
pub mod ui;
pub mod scenes;
