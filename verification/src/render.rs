//! Drawing: colored characters and text, glyphs, sprites, text boxes, the
//! camera that decides what is on screen, and render unit identities.

pub mod escape;
pub mod color;
pub mod character;
pub mod text;
pub mod glyph;
pub mod canvas;
pub mod layer;
pub mod camera;
pub mod sprite;
pub mod textbox;
pub mod object;
pub mod renderer;
