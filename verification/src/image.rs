//! What the viewer keeps of a decoded image.

use vstd::prelude::*;

verus! {

/// A picture that has been decoded and handed to the renderer.
#[derive(Debug, Clone, PartialEq, Eq)]
pub struct Image {
    /// The absolute path of the file the picture was read from.
    pub path: String,
    /// The renderer's handle of the uploaded texture.
    pub renderer_id: usize,
    /// Width of the picture in pixels.
    pub width: usize,
    /// Height of the picture in pixels.
    pub height: usize,
}

} // verus!
