//! Falling-sand simulation core: the cell grid, the gravity rules that move
//! sand through it, the integer side of particle colouring, and the rules of
//! the colormap editor.

pub mod arrays;
pub mod colormap_editor;
pub mod colors;
pub mod grid;
pub mod simulation;
