//! The viewer: the open tiles in their order, the selected tile, and the
//! settings that the keys change.
//!
//! [`App`] holds the state; [`AppState`] is its mathematical picture, and
//! every method says which picture follows from which.

use crate::grid::{
    cell_rect, lemma_next_index_in_range, lemma_next_index_inverse, next_index, raw_index,
};
use crate::image::Image;
use crate::input::{
    binding, key_binding, Binding, Dispatch, InputEvent, Key, KeyMod, KeyOutcome, Request,
};
use crate::layout::{is_placed, GridLayout, Layout, LayoutDirection, MAX_VIEWS};
use crate::view;
use crate::view::FilterMethod;
use vstd::arithmetic::div_mod::{lemma_mod_self_0, lemma_small_mod};
use vstd::prelude::*;

verus! {

/// `<[T]>::swap` of the standard library exchanges the elements at `a` and
/// `b` and leaves the rest of the slice as it is; with `a == b` nothing
/// changes. It panics when an index is out of bounds, which `requires` rules
/// out. Stated from its documentation, not proved.
pub assume_specification<T>[ <[T]>::swap ](slice: &mut [T], a: usize, b: usize)
    requires
        a < old(slice)@.len(),
        b < old(slice)@.len(),
    ensures
        final(slice)@ == old(slice)@.update(a as int, old(slice)@[b as int]).update(
            b as int,
            old(slice)@[a as int],
        ),
;

/// Whether `view` is the live tile of the file at `path`.
pub open spec fn shows(view: view::View, path: Seq<char>) -> bool {
    !view.frozen && view.image.path@ == path
}

/// The first tile at or behind `from` that shows `path`.
pub open spec fn first_showing(views: Seq<view::View>, path: Seq<char>, from: int) -> Option<int>
    decreases views.len() - from,
{
    if from < 0 || from >= views.len() {
        None
    } else if shows(views[from], path) {
        Some(from)
    } else {
        first_showing(views, path, from + 1)
    }
}

/// What `first_showing` finds is the first such tile, and it finds nothing
/// only where there is none.
pub proof fn lemma_first_showing(views: Seq<view::View>, path: Seq<char>, from: int)
    requires
        0 <= from,
    ensures
        match first_showing(views, path, from) {
            Some(i) => {
                &&& from <= i < views.len()
                &&& shows(views[i], path)
                &&& forall|j: int| from <= j < i ==> !shows(#[trigger] views[j], path)
            },
            None => forall|j: int| from <= j < views.len() ==> !shows(#[trigger] views[j], path),
        },
    decreases views.len() - from,
{
    if from < views.len() && !shows(views[from], path) {
        lemma_first_showing(views, path, from + 1);
    }
}

/// The state of the viewer as a value of mathematics.
pub struct AppState {
    /// The tiles in reading order.
    pub views: Seq<view::View>,
    /// The creation number that the next tile gets.
    pub next_view_id: int,
    pub layout_direction: LayoutDirection,
    /// Whether the direction follows the shape of the window.
    pub auto_layout_dir: bool,
    pub show_titlebars: bool,
    /// The number of the selected tile.
    pub selected: int,
    pub maximized: bool,
    /// The message that waits to be shown, if any.
    pub error_msg: Option<Seq<char>>,
}

impl AppState {
    /// The viewer before the first image.
    pub open spec fn initial() -> AppState {
        AppState {
            views: Seq::empty(),
            next_view_id: 0,
            layout_direction: LayoutDirection::Vertical,
            auto_layout_dir: true,
            show_titlebars: false,
            selected: 0,
            maximized: false,
            error_msg: None,
        }
    }

    /// What holds of every state the viewer reaches: the selection points at
    /// a tile wherever there is one, creation numbers are used once, and no
    /// file has two live tiles.
    pub open spec fn wf(self) -> bool {
        &&& self.views.len() <= MAX_VIEWS
        &&& 0 <= self.next_view_id <= u32::MAX
        &&& if self.views.len() == 0 {
            self.selected == 0
        } else {
            0 <= self.selected < self.views.len()
        }
        &&& forall|i: int|
            0 <= i < self.views.len() ==> (#[trigger] self.views[i]).id < self.next_view_id
        &&& forall|i: int, j: int|
            0 <= i < j < self.views.len() ==> (#[trigger] self.views[i]).id != (
            #[trigger] self.views[j]).id
        &&& forall|i: int, j: int|
            0 <= i < j < self.views.len() && !(#[trigger] self.views[i]).frozen && !(
            #[trigger] self.views[j]).frozen ==> self.views[i].image.path@
                != self.views[j].image.path@
    }

    /// No tile carries the `selected` flag yet, and the selection rests on
    /// the first place: the state between `new` and `start`.
    pub open spec fn unmarked(self) -> bool {
        &&& self.selected == 0
        &&& forall|i: int| 0 <= i < self.views.len() ==> !(#[trigger] self.views[i]).selected
    }

    /// The selected tile, and no other, carries the `selected` flag.
    pub open spec fn selection_marked(self) -> bool {
        forall|i: int|
            0 <= i < self.views.len() ==> (#[trigger] self.views[i]).selected == (i
                == self.selected)
    }

    /// The state after an image was read, or could not be read. An image
    /// whose file has a live tile changes nothing; any other gets a new tile
    /// at the end. A failure leaves its message.
    pub open spec fn open_image(self, loaded: Result<Image, String>, enable_history: bool) -> AppState {
        match loaded {
            Ok(image) => match first_showing(self.views, image.path@, 0) {
                Some(_) => self,
                None => AppState {
                    views: self.views.push(
                        view::View::fresh(self.next_view_id as u32, image, enable_history),
                    ),
                    next_view_id: self.next_view_id + 1,
                    ..self
                },
            },
            Err(msg) => AppState { error_msg: Some(msg@), ..self },
        }
    }

    /// The tile that shows the image after `open_image`, if there is one.
    pub open spec fn open_image_index(self, loaded: Result<Image, String>) -> Option<int> {
        match loaded {
            Ok(image) => match first_showing(self.views, image.path@, 0) {
                Some(i) => Some(i),
                None => Some(self.views.len() as int),
            },
            Err(_) => None,
        }
    }

    /// The state in which the first tile, if there is one, carries the flag.
    pub open spec fn started(self) -> AppState {
        if self.views.len() > 0 {
            AppState { views: self.views.update(0, self.views[0].marked(true)), ..self }
        } else {
            self
        }
    }

    /// The state after the selection went to tile `index`: the flag leaves
    /// the tile that was selected and goes to `index`.
    pub open spec fn select(self, index: int) -> AppState {
        let cleared = self.views.update(self.selected, self.views[self.selected].marked(false));
        AppState {
            views: cleared.update(index, cleared[index].marked(true)),
            selected: index,
            ..self
        }
    }

    /// The tile one step `(dx, dy)` away from the selected one.
    pub open spec fn target(self, dx: int, dy: int) -> int {
        next_index(self.views.len() as int, self.selected, dx, dy, self.layout_direction)
    }

    /// The state after the selection moved one step.
    pub open spec fn move_selection(self, dx: int, dy: int) -> AppState {
        if 0 <= self.selected < self.views.len() {
            self.select(self.target(dx, dy))
        } else {
            self
        }
    }

    /// The state after the selected tile changed places with the tile one
    /// step away. The selection goes with the tile.
    pub open spec fn swap_selection(self, dx: int, dy: int) -> AppState {
        if 0 <= self.selected < self.views.len() {
            let target = self.target(dx, dy);
            AppState {
                views: self.views.update(self.selected, self.views[target]).update(
                    target,
                    self.views[self.selected],
                ),
                selected: target,
                ..self
            }
        } else {
            self
        }
    }

    /// Whether the selected tile may be closed: it exists and is not the
    /// last one.
    pub open spec fn can_remove(self) -> bool {
        0 <= self.selected < self.views.len() && self.views.len() > 1
    }

    /// The state after the selected tile was closed. The tile behind it moves
    /// up and is selected; behind the last tile the selection starts again at
    /// the first.
    pub open spec fn remove_selected(self) -> AppState {
        if self.can_remove() {
            let rest = self.views.remove(self.selected);
            let selected = self.selected % (rest.len() as int);
            AppState { views: rest.update(selected, rest[selected].marked(true)), selected, ..self }
        } else {
            self
        }
    }

    /// The state after the file at `path` changed on disk. Only a live tile
    /// that keeps a history reacts: it is frozen.
    pub open spec fn file_changed(self, path: Seq<char>) -> AppState {
        match self.frozen_by(path) {
            Some(i) => AppState {
                views: self.views.update(i, (view::View { frozen: true, ..self.views[i] })),
                ..self
            },
            None => self,
        }
    }

    /// The tile that a change of the file at `path` freezes, if any.
    pub open spec fn frozen_by(self, path: Seq<char>) -> Option<int> {
        match first_showing(self.views, path, 0) {
            Some(i) => if self.views[i].history_enabled {
                Some(i)
            } else {
                None
            },
            None => None,
        }
    }

    /// The state after the sampling method of the selected tile was set.
    pub open spec fn set_filter_method(self, method: FilterMethod) -> AppState {
        if 0 <= self.selected < self.views.len() {
            AppState {
                views: self.views.update(
                    self.selected,
                    (view::View { filter_method: method, ..self.views[self.selected] }),
                ),
                ..self
            }
        } else {
            self
        }
    }

    /// The state after the selected tile began or ceased to keep a history.
    pub open spec fn toggle_history(self) -> AppState {
        if 0 <= self.selected < self.views.len() {
            AppState {
                views: self.views.update(
                    self.selected,
                    (view::View {
                        history_enabled: !self.views[self.selected].history_enabled,
                        ..self.views[self.selected]
                    }),
                ),
                ..self
            }
        } else {
            self
        }
    }

    /// The state after the window's shape was compared with the images':
    /// while the direction follows the window, a window wider than the images
    /// lays them out side by side.
    pub open spec fn auto_layout(self, window_wider: bool) -> AppState {
        if self.auto_layout_dir {
            AppState {
                layout_direction: if window_wider {
                    LayoutDirection::Horizontal
                } else {
                    LayoutDirection::Vertical
                },
                ..self
            }
        } else {
            self
        }
    }

    /// The state after a command was carried out, as far as the viewer
    /// carries it out itself.
    pub open spec fn apply(self, bound: Binding) -> AppState {
        match bound {
            Binding::MoveSelection(dx, dy) => self.move_selection(dx as int, dy as int),
            Binding::SwapSelection(dx, dy) => self.swap_selection(dx as int, dy as int),
            Binding::Filter(method) => self.set_filter_method(method),
            Binding::Direction(direction) => AppState {
                auto_layout_dir: false,
                layout_direction: direction,
                ..self
            },
            Binding::AutoDirection => AppState { auto_layout_dir: true, ..self },
            _ => self,
        }
    }

    /// What a command leaves to the program. A reload is asked for only where
    /// a tile is selected that is not frozen.
    pub open spec fn request(self, bound: Binding) -> Request {
        let has_selected = 0 <= self.selected < self.views.len();
        match bound {
            Binding::Reload => if has_selected && !self.views[self.selected].frozen {
                Request::Reload(self.selected as usize)
            } else {
                Request::Nothing
            },
            Binding::Filter(method) => if has_selected {
                Request::ApplyFilter(self.selected as usize, method)
            } else {
                Request::Nothing
            },
            Binding::ToggleMaximized => Request::SetFullscreen(!self.maximized),
            Binding::CloseView => Request::CloseView,
            Binding::OpenFile => Request::OpenFileDialog,
            _ => Request::Nothing,
        }
    }

    /// The answer to a command.
    pub open spec fn outcome(self, bound: Binding) -> KeyOutcome {
        KeyOutcome { handled: bound != Binding::Unbound, request: self.request(bound) }
    }

    /// Whether an event ends the program: the window closes, or `P` is
    /// pressed with one control key and nothing else.
    pub open spec fn is_quit(event: InputEvent) -> bool {
        match event {
            InputEvent::Quit => true,
            InputEvent::KeyDown { key, keymod, .. } => key == Key::P && keymod.only_ctrl,
            InputEvent::Other => false,
        }
    }

    /// Whether an event flips the title bars: the left alt key goes down
    /// while no dialog is open. Its repeats do not count.
    pub open spec fn is_titlebar_toggle(event: InputEvent, dialog_open: bool) -> bool {
        &&& !AppState::is_quit(event)
        &&& !dialog_open
        &&& event matches InputEvent::KeyDown { key, repeat, .. }
        &&& key == Key::LAlt
        &&& !repeat
    }

    /// The command an event stands for: key strokes count while no dialog is
    /// open, unless they end the program or flip the title bars.
    pub open spec fn command(event: InputEvent, dialog_open: bool) -> Binding {
        if AppState::is_quit(event) || dialog_open || AppState::is_titlebar_toggle(
            event,
            dialog_open,
        ) {
            Binding::Unbound
        } else {
            match event {
                InputEvent::KeyDown { key, keymod, .. } => binding(key, keymod),
                _ => Binding::Unbound,
            }
        }
    }

    /// The state after an event.
    pub open spec fn dispatch_event(self, event: InputEvent, dialog_open: bool) -> AppState {
        if AppState::is_titlebar_toggle(event, dialog_open) {
            AppState { show_titlebars: !self.show_titlebars, ..self }
        } else {
            self.apply(AppState::command(event, dialog_open))
        }
    }

    /// The answer to an event. Every event but the two the viewer keeps to
    /// itself goes on to the widgets.
    pub open spec fn dispatch(self, event: InputEvent, dialog_open: bool) -> Dispatch {
        Dispatch {
            quit: AppState::is_quit(event),
            forward: !AppState::is_quit(event) && !AppState::is_titlebar_toggle(
                event,
                dialog_open,
            ),
            outcome: self.outcome(AppState::command(event, dialog_open)),
        }
    }
}

/// Moving the selected tile one step and then one step back puts every tile
/// where it was and the selection on the tile it was on, provided the first
/// step ends on the cell it aimed at.
pub proof fn lemma_swap_selection_inverse(state: AppState, dx: int, dy: int)
    requires
        state.wf(),
        -1 <= dx <= 1,
        -1 <= dy <= 1,
        raw_index(state.views.len() as int, state.selected, dx, dy, state.layout_direction)
            < state.views.len(),
    ensures
        state.swap_selection(dx, dy).swap_selection(-dx, -dy) == state,
{
    if 0 <= state.selected < state.views.len() {
        let n = state.views.len() as int;
        lemma_next_index_in_range(n, state.selected, dx, dy, state.layout_direction);
        lemma_next_index_inverse(n, state.selected, dx, dy, state.layout_direction);
        let there = state.swap_selection(dx, dy);
        let back = there.swap_selection(-dx, -dy);
        assert(there.views.len() == n);
        assert(back.selected == state.selected);
        assert(back.views =~= state.views);
    }
}

/// A step of the selection keeps the order of the tiles, and with the empty
/// step the selection stays where it is.
pub proof fn lemma_move_selection_keeps_order(state: AppState, dx: int, dy: int)
    requires
        state.wf(),
        -1 <= dx <= 1,
        -1 <= dy <= 1,
    ensures
        state.move_selection(dx, dy).views.len() == state.views.len(),
        forall|i: int|
            0 <= i < state.views.len() ==> (#[trigger] state.move_selection(dx, dy).views[i])
                == state.views[i].marked(state.move_selection(dx, dy).views[i].selected),
        dx == 0 && dy == 0 ==> state.move_selection(dx, dy).selected == state.selected,
{
    if 0 <= state.selected < state.views.len() {
        let n = state.views.len() as int;
        lemma_next_index_in_range(n, state.selected, dx, dy, state.layout_direction);
        if dx == 0 && dy == 0 {
            crate::grid::lemma_next_index_identity(n, state.selected, state.layout_direction);
        }
    }
}

/// The viewer.
pub struct App {
    views: Vec<view::View>,
    next_view_id: u32,
    layout: GridLayout,
    layout_direction: LayoutDirection,
    auto_layout_dir: bool,
    show_titlebars: bool,
    selected: usize,
    maximized: bool,
    error_msg: Option<String>,
}

impl View for App {
    type V = AppState;

    closed spec fn view(&self) -> AppState {
        AppState {
            views: self.views@,
            next_view_id: self.next_view_id as int,
            layout_direction: self.layout_direction,
            auto_layout_dir: self.auto_layout_dir,
            show_titlebars: self.show_titlebars,
            selected: self.selected as int,
            maximized: self.maximized,
            error_msg: match self.error_msg {
                Some(msg) => Some(msg@),
                None => None,
            },
        }
    }
}

impl App {
    /// A viewer without tiles. The grid leans to the vertical until the
    /// window's shape says otherwise.
    pub fn new() -> (app: App)
        ensures
            app@ == AppState::initial(),
            app@.wf(),
            app@.unmarked(),
    {
        App {
            views: Vec::new(),
            next_view_id: 0,
            layout: GridLayout::new(),
            layout_direction: LayoutDirection::Vertical,
            auto_layout_dir: true,
            show_titlebars: false,
            selected: 0,
            maximized: false,
            error_msg: None,
        }
    }

    pub fn views(&self) -> (views: &Vec<view::View>)
        ensures
            views@ == self@.views,
    {
        &self.views
    }

    pub fn selected(&self) -> (selected: usize)
        ensures
            selected == self@.selected,
    {
        self.selected
    }

    pub fn next_view_id(&self) -> (id: u32)
        ensures
            id == self@.next_view_id,
    {
        self.next_view_id
    }

    pub fn layout_direction(&self) -> (direction: LayoutDirection)
        ensures
            direction == self@.layout_direction,
    {
        self.layout_direction
    }

    pub fn auto_layout_dir(&self) -> (auto: bool)
        ensures
            auto == self@.auto_layout_dir,
    {
        self.auto_layout_dir
    }

    pub fn show_titlebars(&self) -> (shown: bool)
        ensures
            shown == self@.show_titlebars,
    {
        self.show_titlebars
    }

    pub fn maximized(&self) -> (maximized: bool)
        ensures
            maximized == self@.maximized,
    {
        self.maximized
    }

    pub fn error_msg(&self) -> (msg: Option<&String>)
        ensures
            match msg {
                Some(text) => self@.error_msg == Some(text@),
                None => self@.error_msg is None,
            },
    {
        self.error_msg.as_ref()
    }

    /// The live tile of the file at `path`: the first tile that is not frozen
    /// and whose image was read from there.
    pub fn find_image_by_path(&self, path: &str) -> (found: Option<usize>)
        ensures
            match found {
                Some(i) => first_showing(self@.views, path@, 0) == Some(i as int),
                None => first_showing(self@.views, path@, 0) is None,
            },
    {
        let wanted = path.to_owned();
        let mut i: usize = 0;
        while i < self.views.len()
            invariant
                i <= self.views@.len(),
                wanted@ == path@,
                first_showing(self.views@, path@, 0) == first_showing(self.views@, path@, i as int),
            decreases self.views@.len() - i,
        {
            if !self.views[i].is_frozen() && self.views[i].image.path == wanted {
                return Some(i);
            }
            i = i + 1;
        }
        None
    }

    /// Takes in what came of reading an image. On success the image's tile is
    /// returned: the live tile its file already has, or else a new tile at
    /// the end, with the next creation number. On failure the message is
    /// kept for display.
    pub fn open_image(&mut self, loaded: Result<Image, String>, enable_history: bool) -> (opened:
        Result<usize, ()>)
        requires
            old(self)@.wf(),
            old(self)@.views.len() < MAX_VIEWS,
            old(self)@.next_view_id < u32::MAX,
        ensures
            final(self)@ == old(self)@.open_image(loaded, enable_history),
            final(self)@.wf(),
            match opened {
                Ok(i) => old(self)@.open_image_index(loaded) == Some(i as int),
                Err(_) => old(self)@.open_image_index(loaded) is None,
            },
            old(self)@.unmarked() ==> final(self)@.unmarked(),
            old(self)@.selection_marked() && old(self)@.views.len() > 0
                ==> final(self)@.selection_marked(),
    {
        match loaded {
            Ok(image) => {
                match self.find_image_by_path(image.path.as_str()) {
                    Some(index) => Ok(index),
                    None => {
                        proof {
                            lemma_first_showing(self@.views, image.path@, 0);
                        }
                        let id = self.next_view_id;
                        self.next_view_id = id + 1;
                        self.views.push(view::View::new(id, image, enable_history));
                        Ok(self.views.len() - 1)
                    },
                }
            },
            Err(msg) => {
                self.error_msg = Some(msg);
                Err(())
            },
        }
    }

    /// Marks the first tile as selected, if there is a tile. To be called
    /// once, when all images of the start are open.
    pub fn start(&mut self)
        requires
            old(self)@.wf(),
        ensures
            final(self)@ == old(self)@.started(),
            final(self)@.wf(),
            old(self)@.unmarked() ==> final(self)@.selection_marked(),
    {
        if self.views.len() > 0 {
            self.views[0].selected = true;
        }
        proof {
            assert(self@.views =~= old(self)@.started().views);
        }
    }

    /// Selects tile `index`.
    pub fn select(&mut self, index: usize)
        requires
            old(self)@.wf(),
            index < old(self)@.views.len(),
        ensures
            final(self)@ == old(self)@.select(index as int),
            final(self)@.wf(),
            old(self)@.selection_marked() ==> final(self)@.selection_marked(),
    {
        self.views[self.selected].selected = false;
        self.selected = index;
        self.views[self.selected].selected = true;
        proof {
            assert(self@.views =~= old(self)@.select(index as int).views);
        }
    }

    /// Moves the selection one step: each of `dx` and `dy` is -1, 0 or 1.
    /// Without tiles nothing happens.
    pub fn move_selection(&mut self, dx: i32, dy: i32)
        requires
            old(self)@.wf(),
            -1 <= dx <= 1,
            -1 <= dy <= 1,
        ensures
            final(self)@ == old(self)@.move_selection(dx as int, dy as int),
            final(self)@.wf(),
            old(self)@.selection_marked() ==> final(self)@.selection_marked(),
    {
        if self.selected < self.views.len() {
            let next = self.layout.get_next_index(
                self.views.len(),
                self.selected,
                dx,
                dy,
                self.layout_direction,
            );
            self.select(next);
        }
    }

    /// Exchanges the selected tile with the tile one step away and keeps it
    /// selected: each of `dx` and `dy` is -1, 0 or 1. Without tiles nothing
    /// happens.
    pub fn swap_selection(&mut self, dx: i32, dy: i32)
        requires
            old(self)@.wf(),
            -1 <= dx <= 1,
            -1 <= dy <= 1,
        ensures
            final(self)@ == old(self)@.swap_selection(dx as int, dy as int),
            final(self)@.wf(),
            old(self)@.selection_marked() ==> final(self)@.selection_marked(),
    {
        if self.selected < self.views.len() {
            let next = self.layout.get_next_index(
                self.views.len(),
                self.selected,
                dx,
                dy,
                self.layout_direction,
            );
            self.views.swap(self.selected, next);
            self.selected = next;
            proof {
                assert(self@.views =~= old(self)@.swap_selection(dx as int, dy as int).views);
            }
        }
    }

    /// Closes the selected tile, unless it is the only one, and says whether
    /// it did.
    pub fn remove_selected(&mut self) -> (removed: bool)
        requires
            old(self)@.wf(),
        ensures
            removed == old(self)@.can_remove(),
            final(self)@ == old(self)@.remove_selected(),
            removed ==> final(self)@.selected == if old(self)@.selected + 1 == old(
                self,
            )@.views.len() {
                0
            } else {
                old(self)@.selected
            },
            final(self)@.wf(),
            old(self)@.selection_marked() ==> final(self)@.selection_marked(),
    {
        if self.selected < self.views.len() && self.views.len() > 1 {
            self.views.remove(self.selected);
            proof {
                if self.selected < self.views@.len() {
                    lemma_small_mod(self.selected as nat, self.views@.len());
                } else {
                    lemma_mod_self_0(self.views@.len() as int);
                }
            }
            self.selected = self.selected % self.views.len();
            self.views[self.selected].selected = true;
            proof {
                assert(self@.views =~= old(self)@.remove_selected().views);
            }
            true
        } else {
            false
        }
    }

    /// Gives every tile its rectangle in a window of `width` by `height`
    /// pixels. Without tiles nothing happens.
    pub fn layout_views(&mut self, width: i32, height: i32)
        requires
            old(self)@.wf(),
        ensures
            final(self)@ == (AppState { views: final(self)@.views, ..old(self)@ }),
            final(self)@.views.len() == old(self)@.views.len(),
            forall|i: int|
                0 <= i < old(self)@.views.len() ==> is_placed(
                    old(self)@.views[i],
                    #[trigger] final(self)@.views[i],
                    cell_rect(
                        old(self)@.views.len() as int,
                        i,
                        width as int,
                        height as int,
                        old(self)@.layout_direction,
                    ),
                ),
            final(self)@.wf(),
            old(self)@.selection_marked() ==> final(self)@.selection_marked(),
    {
        if self.views.len() > 0 {
            self.layout.layout(self.views.as_mut_slice(), width, height, self.layout_direction);
        }
    }

    /// Reacts to a change of the file at `path`. A live tile of that file
    /// that keeps a history is frozen and its number returned: the caller
    /// then reads the file and opens the result with history enabled. In
    /// every other case nothing changes.
    pub fn file_changed(&mut self, path: &str) -> (frozen: Option<usize>)
        requires
            old(self)@.wf(),
        ensures
            final(self)@ == old(self)@.file_changed(path@),
            final(self)@.wf(),
            match frozen {
                Some(i) => old(self)@.frozen_by(path@) == Some(i as int),
                None => old(self)@.frozen_by(path@) is None,
            },
            old(self)@.selection_marked() ==> final(self)@.selection_marked(),
    {
        match self.find_image_by_path(path) {
            Some(index) => {
                proof {
                    lemma_first_showing(self@.views, path@, 0);
                }
                if self.views[index].history_enabled {
                    self.views[index].frozen = true;
                    proof {
                        assert(self@.views =~= old(self)@.file_changed(path@).views);
                    }
                    Some(index)
                } else {
                    None
                }
            },
            None => None,
        }
    }

    /// Sets the sampling method of the selected tile, if there is one, and
    /// says whether it did. Telling the renderer is the caller's part.
    pub fn set_filter_method(&mut self, method: FilterMethod) -> (set: bool)
        requires
            old(self)@.wf(),
        ensures
            set == (old(self)@.selected < old(self)@.views.len()),
            final(self)@ == old(self)@.set_filter_method(method),
            final(self)@.wf(),
            old(self)@.selection_marked() ==> final(self)@.selection_marked(),
    {
        if self.selected < self.views.len() {
            self.views[self.selected].set_filter_menthod(method);
            proof {
                assert(self@.views =~= old(self)@.set_filter_method(method).views);
            }
            true
        } else {
            false
        }
    }

    /// Lets the selected tile, if there is one, begin or cease to keep a
    /// history.
    pub fn toggle_history(&mut self)
        requires
            old(self)@.wf(),
        ensures
            final(self)@ == old(self)@.toggle_history(),
            final(self)@.wf(),
            old(self)@.selection_marked() ==> final(self)@.selection_marked(),
    {
        if self.selected < self.views.len() {
            let enabled = self.views[self.selected].history_enabled;
            self.views[self.selected].history_enabled = !enabled;
            proof {
                assert(self@.views =~= old(self)@.toggle_history().views);
            }
        }
    }

    /// Chooses the direction from the shape of the window, while the
    /// direction follows the window: `window_wider` says that the window is
    /// wider, for its height, than the images are on average.
    pub fn auto_layout(&mut self, window_wider: bool)
        ensures
            final(self)@ == old(self)@.auto_layout(window_wider),
            old(self)@.wf() ==> final(self)@.wf(),
    {
        if self.auto_layout_dir {
            self.layout_direction = if window_wider {
                LayoutDirection::Horizontal
            } else {
                LayoutDirection::Vertical
            };
        }
    }

    /// Records whether the window is in full screen, as the window reports it.
    pub fn set_maximized(&mut self, maximized: bool)
        ensures
            final(self)@ == (AppState { maximized, ..old(self)@ }),
    {
        self.maximized = maximized;
    }

    /// Keeps a message for display. It takes the place of an earlier one.
    pub fn set_error(&mut self, msg: String)
        ensures
            final(self)@ == (AppState { error_msg: Some(msg@), ..old(self)@ }),
    {
        self.error_msg = Some(msg);
    }

    /// Forgets the message, once it has been shown and dismissed.
    pub fn clear_error(&mut self)
        ensures
            final(self)@ == (AppState { error_msg: None, ..old(self)@ }),
    {
        self.error_msg = None;
    }

    /// Carries out a command and says what is left for the program to do.
    fn apply_binding(&mut self, bound: Binding) -> (outcome: KeyOutcome)
        requires
            old(self)@.wf(),
            bound matches Binding::MoveSelection(dx, dy) ==> -1 <= dx <= 1 && -1 <= dy <= 1,
            bound matches Binding::SwapSelection(dx, dy) ==> -1 <= dx <= 1 && -1 <= dy <= 1,
        ensures
            final(self)@ == old(self)@.apply(bound),
            outcome == old(self)@.outcome(bound),
            final(self)@.wf(),
            old(self)@.selection_marked() ==> final(self)@.selection_marked(),
    {
        let has_selected = self.selected < self.views.len();
        let request = match bound {
            Binding::MoveSelection(dx, dy) => {
                self.move_selection(dx, dy);
                Request::Nothing
            },
            Binding::SwapSelection(dx, dy) => {
                self.swap_selection(dx, dy);
                Request::Nothing
            },
            Binding::Reload => {
                if has_selected && self.views[self.selected].reload() {
                    Request::Reload(self.selected)
                } else {
                    Request::Nothing
                }
            },
            Binding::Filter(method) => {
                if self.set_filter_method(method) {
                    Request::ApplyFilter(self.selected, method)
                } else {
                    Request::Nothing
                }
            },
            Binding::Direction(direction) => {
                self.auto_layout_dir = false;
                self.layout_direction = direction;
                Request::Nothing
            },
            Binding::AutoDirection => {
                self.auto_layout_dir = true;
                Request::Nothing
            },
            Binding::CloseView => Request::CloseView,
            Binding::OpenFile => Request::OpenFileDialog,
            Binding::ToggleMaximized => Request::SetFullscreen(!self.maximized),
            Binding::Unbound => Request::Nothing,
        };
        let handled = match bound {
            Binding::Unbound => false,
            _ => true,
        };
        KeyOutcome { handled, request }
    }

    /// Handles a key stroke: looks it up in the key map and carries out its
    /// command. What the viewer cannot do itself it hands back as a request.
    pub fn handle_event(&mut self, key: Key, keymod: KeyMod) -> (outcome: KeyOutcome)
        requires
            old(self)@.wf(),
        ensures
            final(self)@ == old(self)@.apply(binding(key, keymod)),
            outcome == old(self)@.outcome(binding(key, keymod)),
            final(self)@.wf(),
            old(self)@.selection_marked() ==> final(self)@.selection_marked(),
    {
        let bound = key_binding(key, keymod);
        proof {
            crate::input::lemma_binding_steps(key, keymod);
        }
        self.apply_binding(bound)
    }

    /// Handles an event of the window. `dialog_open` says whether the file
    /// dialog is open: while it is, key strokes go to the dialog alone.
    pub fn dispatch_event(&mut self, event: InputEvent, dialog_open: bool) -> (answer: Dispatch)
        requires
            old(self)@.wf(),
        ensures
            final(self)@ == old(self)@.dispatch_event(event, dialog_open),
            answer == old(self)@.dispatch(event, dialog_open),
            final(self)@.wf(),
            old(self)@.selection_marked() ==> final(self)@.selection_marked(),
    {
        let idle = KeyOutcome { handled: false, request: Request::Nothing };
        match event {
            InputEvent::Quit => Dispatch { quit: true, forward: false, outcome: idle },
            InputEvent::KeyDown { key, keymod, repeat } => {
                let is_p = match key {
                    Key::P => true,
                    _ => false,
                };
                let is_alt = match key {
                    Key::LAlt => true,
                    _ => false,
                };
                if is_p && keymod.only_ctrl {
                    Dispatch { quit: true, forward: false, outcome: idle }
                } else if dialog_open {
                    Dispatch { quit: false, forward: true, outcome: idle }
                } else if is_alt && !repeat {
                    self.show_titlebars = !self.show_titlebars;
                    Dispatch { quit: false, forward: false, outcome: idle }
                } else {
                    let outcome = self.handle_event(key, keymod);
                    Dispatch { quit: false, forward: true, outcome }
                }
            },
            InputEvent::Other => Dispatch { quit: false, forward: true, outcome: idle },
        }
    }
}

} // verus!
