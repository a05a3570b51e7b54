//! The layout and navigation engine of a tiled image viewer.
//!
//! Open images are shown as tiles in a grid that is as square as the number of
//! tiles allows. The crate arranges the tiles, moves the selection between
//! them, reorders them, and decides what each key stroke does. Drawing,
//! decoding and the window itself belong to the program around it.

pub mod app;
pub mod grid;
pub mod image;
pub mod input;
pub mod layout;
pub mod open_file_dialog;
pub mod util;
pub mod view;
