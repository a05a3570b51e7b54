//! A tile: one open image and its place in the window.

use crate::image::Image;
use vstd::prelude::*;

verus! {

/// How the renderer samples the texture of a tile.
#[derive(Debug, Copy, Clone, PartialEq, Eq, Structural)]
pub enum FilterMethod {
    Nearest,
    Linear,
}

/// One tile of the window.
///
/// The rectangle is written by the layout, the `selected` flag by the
/// navigation. A frozen tile shows a past state of its file and is no longer
/// found under the file's path.
#[derive(Debug, Clone, PartialEq, Eq)]
pub struct View {
    /// Creation number: no two tiles of one viewer share it.
    pub id: u32,
    pub x: i32,
    pub y: i32,
    pub width: i32,
    pub height: i32,
    pub image: Image,
    pub filter_method: FilterMethod,
    pub selected: bool,
    pub frozen: bool,
    /// Whether a change of the file freezes this tile and opens a new one.
    pub history_enabled: bool,
}

impl View {
    /// This tile with another rectangle.
    pub open spec fn placed_at(self, x: i32, y: i32, width: i32, height: i32) -> View {
        View { x, y, width, height, ..self }
    }

    /// This tile with another `selected` flag.
    pub open spec fn marked(self, selected: bool) -> View {
        View { selected, ..self }
    }

    /// A tile as it is created: 400 by 400 pixels at the origin, nearest
    /// sampling, neither selected nor frozen.
    pub open spec fn fresh(id: u32, image: Image, enable_history: bool) -> View {
        View {
            id,
            x: 0,
            y: 0,
            width: 400,
            height: 400,
            image,
            filter_method: FilterMethod::Nearest,
            selected: false,
            frozen: false,
            history_enabled: enable_history,
        }
    }

    /// A fresh tile for `image`.
    pub fn new(id: u32, image: Image, enable_history: bool) -> (view: View)
        ensures
            view == View::fresh(id, image, enable_history),
    {
        View {
            id,
            x: 0,
            y: 0,
            width: 400,
            height: 400,
            image,
            filter_method: FilterMethod::Nearest,
            selected: false,
            frozen: false,
            history_enabled: enable_history,
        }
    }

    pub fn is_frozen(&self) -> (frozen: bool)
        ensures
            frozen == self.frozen,
    {
        self.frozen
    }

    /// Freezes the tile. There is no way back.
    pub fn freeze(&mut self)
        ensures
            *final(self) == (View { frozen: true, ..*old(self) }),
    {
        self.frozen = true;
    }

    /// Records the sampling method. Telling the renderer is the caller's part.
    pub fn set_filter_menthod(&mut self, filter_method: FilterMethod)
        ensures
            *final(self) == (View { filter_method, ..*old(self) }),
    {
        self.filter_method = filter_method;
    }

    /// Whether a reload request reaches the file: a frozen tile keeps the
    /// picture it has. On `true` the caller reads the file again.
    pub fn reload(&self) -> (read: bool)
        ensures
            read == !self.frozen,
    {
        !self.frozen
    }
}

} // verus!
