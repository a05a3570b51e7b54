//! Keys, the commands they are bound to, and what the viewer asks of the
//! program around it.

use crate::layout::LayoutDirection;
use crate::view::FilterMethod;
use vstd::prelude::*;

verus! {

/// The keys the viewer tells apart. Every other key is `Other`.
#[derive(Debug, Copy, Clone, PartialEq, Eq, Structural)]
pub enum Key {
    Up,
    Down,
    Left,
    Right,
    A,
    H,
    I,
    J,
    K,
    L,
    M,
    N,
    O,
    P,
    R,
    V,
    W,
    F5,
    LAlt,
    Other,
}

/// The modifier keys held down with a key.
#[derive(Debug, Copy, Clone, PartialEq, Eq, Structural)]
pub struct KeyMod {
    /// A control key is held.
    pub ctrl: bool,
    /// A shift key is held.
    pub shift: bool,
    /// One control key is held and no other modifier of any kind.
    pub only_ctrl: bool,
}

/// What a key stroke means.
#[derive(Debug, Copy, Clone, PartialEq, Eq, Structural)]
pub enum Binding {
    /// Move the selection one step.
    MoveSelection(i32, i32),
    /// Move the selected tile one step.
    SwapSelection(i32, i32),
    /// Read the selected tile's file again.
    Reload,
    /// Sample the selected tile with this method.
    Filter(FilterMethod),
    /// Fix the lean of the grid.
    Direction(LayoutDirection),
    /// Let the lean of the grid follow the window.
    AutoDirection,
    /// Close the selected tile.
    CloseView,
    /// Ask for a file to open.
    OpenFile,
    /// Enter or leave full screen.
    ToggleMaximized,
    /// The key stroke means nothing to the viewer.
    Unbound,
}

/// What is left for the program to do after the viewer has handled a key.
#[derive(Debug, Copy, Clone, PartialEq, Eq, Structural)]
pub enum Request {
    /// Nothing.
    Nothing,
    /// Read the file of this tile again.
    Reload(usize),
    /// Tell the renderer how to sample the texture of this tile.
    ApplyFilter(usize, FilterMethod),
    /// Put the window into full screen, or take it out.
    SetFullscreen(bool),
    /// Close the selected tile when the frame is done.
    CloseView,
    /// Open the file dialog when the frame is done.
    OpenFileDialog,
}

/// The viewer's answer to a key stroke.
#[derive(Debug, Copy, Clone, PartialEq, Eq, Structural)]
pub struct KeyOutcome {
    /// Whether the key stroke was bound to a command.
    pub handled: bool,
    pub request: Request,
}

/// What the window reports.
#[derive(Debug, Copy, Clone, PartialEq, Eq, Structural)]
pub enum InputEvent {
    /// The window is to be closed.
    Quit,
    /// A key went down, or repeats while it is held.
    KeyDown { key: Key, keymod: KeyMod, repeat: bool },
    /// Anything else.
    Other,
}

/// The viewer's answer to an event.
#[derive(Debug, Copy, Clone, PartialEq, Eq, Structural)]
pub struct Dispatch {
    /// Whether the program ends.
    pub quit: bool,
    /// Whether the event goes on to the widgets.
    pub forward: bool,
    pub outcome: KeyOutcome,
}

/// The step of an arrow key: left and up are negative.
pub open spec fn cursor_step(key: Key) -> Option<(i32, i32)> {
    match key {
        Key::Up => Some((0i32, -1i32)),
        Key::Down => Some((0i32, 1i32)),
        Key::Left => Some((-1i32, 0i32)),
        Key::Right => Some((1i32, 0i32)),
        _ => None,
    }
}

/// The step of a letter of the right hand's home block: `I` above `J`, `K`
/// and `L` stands for up, left, down and right.
pub open spec fn letter_step(key: Key) -> Option<(i32, i32)> {
    match key {
        Key::I => Some((0i32, -1i32)),
        Key::K => Some((0i32, 1i32)),
        Key::J => Some((-1i32, 0i32)),
        Key::L => Some((1i32, 0i32)),
        _ => None,
    }
}

/// The command of a key held with control alone, steps apart.
pub open spec fn control_command(key: Key) -> Binding {
    match key {
        Key::R => Binding::Reload,
        Key::L => Binding::Filter(FilterMethod::Linear),
        Key::N => Binding::Filter(FilterMethod::Nearest),
        Key::H => Binding::Direction(LayoutDirection::Horizontal),
        Key::V => Binding::Direction(LayoutDirection::Vertical),
        Key::A => Binding::AutoDirection,
        Key::W => Binding::CloseView,
        Key::O => Binding::OpenFile,
        Key::M => Binding::ToggleMaximized,
        _ => Binding::Unbound,
    }
}

/// The key map. Steps move the selection, and with shift they move the tile:
/// the letters step when no control key is held, the arrows when one is.
/// The other commands are on control and a letter; `F5` alone reloads.
pub open spec fn binding(key: Key, keymod: KeyMod) -> Binding {
    let step = if keymod.ctrl {
        cursor_step(key)
    } else {
        letter_step(key)
    };
    match step {
        Some((dx, dy)) => if keymod.shift {
            Binding::SwapSelection(dx, dy)
        } else {
            Binding::MoveSelection(dx, dy)
        },
        None => if keymod.shift {
            Binding::Unbound
        } else if keymod.ctrl {
            control_command(key)
        } else if key == Key::F5 {
            Binding::Reload
        } else {
            Binding::Unbound
        },
    }
}

/// Looks a key stroke up in the key map.
pub fn key_binding(key: Key, keymod: KeyMod) -> (bound: Binding)
    ensures
        bound == binding(key, keymod),
{
    if keymod.ctrl && keymod.shift {
        match key {
            Key::Up => Binding::SwapSelection(0, -1),
            Key::Down => Binding::SwapSelection(0, 1),
            Key::Left => Binding::SwapSelection(-1, 0),
            Key::Right => Binding::SwapSelection(1, 0),
            _ => Binding::Unbound,
        }
    } else if keymod.ctrl {
        match key {
            Key::R => Binding::Reload,
            Key::L => Binding::Filter(FilterMethod::Linear),
            Key::N => Binding::Filter(FilterMethod::Nearest),
            Key::H => Binding::Direction(LayoutDirection::Horizontal),
            Key::V => Binding::Direction(LayoutDirection::Vertical),
            Key::A => Binding::AutoDirection,
            Key::W => Binding::CloseView,
            Key::O => Binding::OpenFile,
            Key::M => Binding::ToggleMaximized,
            Key::Up => Binding::MoveSelection(0, -1),
            Key::Down => Binding::MoveSelection(0, 1),
            Key::Left => Binding::MoveSelection(-1, 0),
            Key::Right => Binding::MoveSelection(1, 0),
            _ => Binding::Unbound,
        }
    } else if keymod.shift {
        match key {
            Key::I => Binding::SwapSelection(0, -1),
            Key::K => Binding::SwapSelection(0, 1),
            Key::J => Binding::SwapSelection(-1, 0),
            Key::L => Binding::SwapSelection(1, 0),
            _ => Binding::Unbound,
        }
    } else {
        match key {
            Key::F5 => Binding::Reload,
            Key::I => Binding::MoveSelection(0, -1),
            Key::K => Binding::MoveSelection(0, 1),
            Key::J => Binding::MoveSelection(-1, 0),
            Key::L => Binding::MoveSelection(1, 0),
            _ => Binding::Unbound,
        }
    }
}

/// Every step of the key map is a unit step along one axis.
pub proof fn lemma_binding_steps(key: Key, keymod: KeyMod)
    ensures
        match binding(key, keymod) {
            Binding::MoveSelection(dx, dy) | Binding::SwapSelection(dx, dy) => {
                &&& -1 <= dx <= 1
                &&& -1 <= dy <= 1
                &&& (dx == 0) != (dy == 0)
            },
            _ => true,
        },
{
}

} // verus!
