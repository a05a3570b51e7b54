//! The file dialog: the entries of one directory in a list, one of them
//! selected.
//!
//! The dialog keeps the list and decides what a key or a click means. Reading
//! a directory and joining paths is left to the caller, who hands in the
//! entries and gets back the number of the item to act on.

use vstd::prelude::*;
use vstd::string::StringExecFns;

verus! {

/// The largest number of items a list holds.
pub const MAX_ITEMS: usize = 0x3fff_ffff;

/// An entry of a directory, as the file system reports it.
#[derive(Debug, Clone, PartialEq, Eq)]
pub struct Entry {
    /// The last component of the entry's path.
    pub name: String,
    pub is_dir: bool,
}

/// The keys the dialog reacts to.
#[derive(Debug, Copy, Clone, PartialEq, Eq, Structural)]
pub enum DialogKey {
    Up,
    Down,
    Left,
    Right,
    Return,
    Space,
    Escape,
}

/// What is left for the caller to do after the dialog has handled a key or a
/// click.
#[derive(Debug, Copy, Clone, PartialEq, Eq, Structural)]
pub enum DialogAction {
    /// Nothing.
    Nothing,
    /// Show the parent of the current directory.
    GoUp,
    /// Show the directory that this item names.
    GoDown(usize),
    /// Open the file that this item names.
    Choose(usize),
}

/// Whether `a` comes before `b` or equals it, as texts are ordered: by the
/// first character in which they differ, and a text before its extensions.
pub open spec fn text_le(a: Seq<char>, b: Seq<char>) -> bool
    decreases a.len(),
{
    if a.len() == 0 {
        true
    } else if b.len() == 0 {
        false
    } else if a[0] != b[0] {
        (a[0] as u32) < (b[0] as u32)
    } else {
        text_le(a.skip(1), b.skip(1))
    }
}

/// No text of the list comes before one in front of it.
pub open spec fn is_sorted(names: Seq<Seq<char>>) -> bool {
    forall|i: int, j: int| 0 <= i <= j < names.len() ==> text_le(names[i], names[j])
}

/// What the strings of a list say.
pub open spec fn texts(names: Seq<String>) -> Seq<Seq<char>> {
    names.map_values(|name: String| name@)
}

/// The item that `..` is: the way to the parent directory.
pub open spec fn parent_item() -> Seq<char> {
    seq!['.', '.']
}

/// The item of an entry: its name, with a slash behind a directory.
pub open spec fn item_of(entry: Entry) -> Seq<char> {
    if entry.is_dir {
        entry.name@ + seq!['/']
    } else {
        entry.name@
    }
}

/// The items of the entries, in the order of the entries.
pub open spec fn items_of(entries: Seq<Entry>) -> Seq<Seq<char>> {
    entries.map_values(|entry: Entry| item_of(entry))
}

/// `items` is the list for a directory with these entries: the parent item
/// first, then the items of the entries in ascending order.
pub open spec fn is_listing(entries: Seq<Entry>, items: Seq<Seq<char>>) -> bool {
    &&& items.len() == entries.len() + 1
    &&& items[0] == parent_item()
    &&& is_sorted(items.skip(1))
    &&& items.skip(1).to_multiset() == items_of(entries).to_multiset()
}

/// `<[String]>::sort` of the standard library puts the strings in ascending
/// order and neither adds nor drops one. Strings are ordered by their bytes,
/// which the documentation of `str` equates with the order of their
/// characters' code points. Stated from the documentation, not proved.
#[verifier::external_body]
fn sort_names(names: &mut Vec<String>)
    ensures
        texts(final(names)@).to_multiset() == texts(old(names)@).to_multiset(),
        is_sorted(texts(final(names)@)),
{
    names.sort();
}

/// The state of the dialog as a value of mathematics.
pub struct DialogState {
    pub current_dir: Seq<char>,
    pub items: Seq<Seq<char>>,
    /// The number of the selected item. After a change of directory it may
    /// lie behind the list until the selection moves.
    pub selected: int,
    pub open: bool,
}

impl DialogState {
    /// What holds of every state the dialog reaches: an open dialog shows a
    /// list, and every list begins with the parent item.
    pub open spec fn wf(self) -> bool {
        &&& self.items.len() <= MAX_ITEMS
        &&& 0 <= self.selected < MAX_ITEMS
        &&& self.open ==> self.items.len() > 0
        &&& self.items.len() > 0 ==> self.items[0] == parent_item()
    }

    /// The dialog before it was first opened.
    pub open spec fn initial() -> DialogState {
        DialogState {
            current_dir: Seq::empty(),
            items: Seq::empty(),
            selected: 0,
            open: false,
        }
    }

    /// Whether an item is selected.
    pub open spec fn has_selected(self) -> bool {
        0 <= self.selected < self.items.len()
    }

    /// Whether an item is selected that names an entry of the directory.
    pub open spec fn entry_selected(self) -> bool {
        self.has_selected() && self.items[self.selected] != parent_item()
    }

    /// The state after a key. The selection runs around the list; `Return` on
    /// an entry and `Escape` close the dialog.
    pub open spec fn press(self, key: DialogKey) -> DialogState {
        let len = self.items.len() as int;
        match key {
            DialogKey::Up => DialogState { selected: (self.selected + len - 1) % len, ..self },
            DialogKey::Down => DialogState { selected: (self.selected + 1) % len, ..self },
            DialogKey::Return => DialogState {
                open: self.open && !self.entry_selected(),
                ..self
            },
            DialogKey::Escape => DialogState { open: false, ..self },
            _ => self,
        }
    }

    /// What a key leaves to the caller. `Left` leads to the parent directory
    /// and `Right` into the selected one; `Return` and `Space` choose the
    /// selected entry, and `Return` on the parent item leads to the parent.
    pub open spec fn action(self, key: DialogKey) -> DialogAction {
        match key {
            DialogKey::Left => DialogAction::GoUp,
            DialogKey::Right => if self.entry_selected() {
                DialogAction::GoDown(self.selected as usize)
            } else {
                DialogAction::Nothing
            },
            DialogKey::Return => if self.entry_selected() {
                DialogAction::Choose(self.selected as usize)
            } else if self.has_selected() {
                DialogAction::GoUp
            } else {
                DialogAction::Nothing
            },
            DialogKey::Space => if self.entry_selected() {
                DialogAction::Choose(self.selected as usize)
            } else {
                DialogAction::Nothing
            },
            _ => DialogAction::Nothing,
        }
    }

    /// The state after a click on item `index`: a click on a file closes the
    /// dialog.
    pub open spec fn click(self, index: int, is_dir: bool) -> DialogState {
        DialogState { open: self.open && is_dir, ..self }
    }
}

/// The file dialog.
pub struct OpenFileDialog {
    current_dir: String,
    item_list: Vec<String>,
    selected: usize,
    open: bool,
}

impl View for OpenFileDialog {
    type V = DialogState;

    closed spec fn view(&self) -> DialogState {
        DialogState {
            current_dir: self.current_dir@,
            items: texts(self.item_list@),
            selected: self.selected as int,
            open: self.open,
        }
    }
}

/// The list for a directory with these entries.
fn list_items(entries: &Vec<Entry>) -> (items: Vec<String>)
    requires
        entries@.len() < MAX_ITEMS,
    ensures
        is_listing(entries@, texts(items@)),
{
    let mut names: Vec<String> = Vec::new();
    let mut i: usize = 0;
    while i < entries.len()
        invariant
            i <= entries@.len(),
            texts(names@) == items_of(entries@.take(i as int)),
        decreases entries@.len() - i,
    {
        let mut name = entries[i].name.clone();
        if entries[i].is_dir {
            name.append("/");
        }
        proof {
            reveal_strlit("/");
            assert("/"@ =~= seq!['/']);
            assert(name@ == item_of(entries@[i as int]));
            assert(entries@.take(i + 1) =~= entries@.take(i as int).push(entries@[i as int]));
            assert(texts(names@.push(name)) =~= texts(names@).push(name@));
            assert(items_of(entries@.take(i as int).push(entries@[i as int])) =~= items_of(
                entries@.take(i as int),
            ).push(item_of(entries@[i as int])));
        }
        names.push(name);
        i = i + 1;
    }
    proof {
        assert(entries@.take(i as int) =~= entries@);
    }
    sort_names(&mut names);
    let mut items: Vec<String> = Vec::new();
    items.push("..".to_owned());
    let ghost sorted = names@;
    items.append(&mut names);
    proof {
        reveal_strlit("..");
        assert(".."@ =~= parent_item());
        assert(texts(items@).skip(1) =~= texts(sorted));
        texts(sorted).to_multiset_ensures();
        items_of(entries@).to_multiset_ensures();
    }
    items
}

impl OpenFileDialog {
    /// A closed dialog without a list.
    pub fn new() -> (dialog: OpenFileDialog)
        ensures
            dialog@ == DialogState::initial(),
            dialog@.wf(),
    {
        let dialog = OpenFileDialog {
            current_dir: String::new(),
            item_list: Vec::new(),
            selected: 0,
            open: false,
        };
        proof {
            assert(dialog@.items =~= Seq::empty());
        }
        dialog
    }

    pub fn is_open(&self) -> (open: bool)
        ensures
            open == self@.open,
    {
        self.open
    }

    pub fn current_dir(&self) -> (dir: &String)
        ensures
            dir@ == self@.current_dir,
    {
        &self.current_dir
    }

    pub fn items(&self) -> (items: &Vec<String>)
        ensures
            texts(items@) == self@.items,
    {
        &self.item_list
    }

    pub fn selected(&self) -> (selected: usize)
        ensures
            selected == self@.selected,
    {
        self.selected
    }

    /// Opens the dialog on the directory `path` with these entries. The
    /// selection stays on its number, counted around the new list.
    pub fn open(&mut self, path: String, entries: &Vec<Entry>)
        requires
            old(self)@.wf(),
            entries@.len() < MAX_ITEMS,
        ensures
            final(self)@.open,
            final(self)@.current_dir == path@,
            is_listing(entries@, final(self)@.items),
            final(self)@.selected == old(self)@.selected % (entries@.len() as int + 1),
            final(self)@.wf(),
    {
        self.open = true;
        self.current_dir = path;
        self.item_list = list_items(entries);
        self.selected = self.selected % self.item_list.len();
    }

    /// Shows the directory `path` with these entries in the open dialog. The
    /// selection keeps its number.
    pub fn change_dir(&mut self, path: String, entries: &Vec<Entry>)
        requires
            old(self)@.wf(),
            entries@.len() < MAX_ITEMS,
        ensures
            final(self)@.open == old(self)@.open,
            final(self)@.current_dir == path@,
            is_listing(entries@, final(self)@.items),
            final(self)@.selected == old(self)@.selected,
            final(self)@.wf(),
    {
        self.current_dir = path;
        self.item_list = list_items(entries);
    }

    pub fn close(&mut self)
        ensures
            final(self)@ == (DialogState { open: false, ..old(self)@ }),
            old(self)@.wf() ==> final(self)@.wf(),
    {
        self.open = false;
    }

    /// The selected item, if the selection lies in the list.
    pub fn get_selected(&self) -> (item: Option<String>)
        ensures
            match item {
                Some(text) => self@.has_selected() && text@ == self@.items[self@.selected],
                None => !self@.has_selected(),
            },
    {
        if self.selected < self.item_list.len() {
            Some(self.item_list[self.selected].clone())
        } else {
            None
        }
    }

    /// Whether an item is selected that names an entry of the directory.
    fn entry_selected(&self) -> (yes: bool)
        ensures
            yes == self@.entry_selected(),
    {
        if self.selected < self.item_list.len() {
            let parent = "..".to_owned();
            proof {
                reveal_strlit("..");
                assert(".."@ =~= parent_item());
            }
            !(self.item_list[self.selected] == parent)
        } else {
            false
        }
    }

    /// Handles a key while the dialog shows a list.
    pub fn press(&mut self, key: DialogKey) -> (action: DialogAction)
        requires
            old(self)@.wf(),
            old(self)@.items.len() > 0,
        ensures
            final(self)@ == old(self)@.press(key),
            action == old(self)@.action(key),
            final(self)@.wf(),
            key == DialogKey::Up || key == DialogKey::Down ==> final(self)@.has_selected(),
    {
        let len = self.item_list.len();
        match key {
            DialogKey::Up => {
                self.selected = (self.selected + len - 1) % len;
                DialogAction::Nothing
            },
            DialogKey::Down => {
                self.selected = (self.selected + 1) % len;
                DialogAction::Nothing
            },
            DialogKey::Left => DialogAction::GoUp,
            DialogKey::Right => {
                if self.entry_selected() {
                    DialogAction::GoDown(self.selected)
                } else {
                    DialogAction::Nothing
                }
            },
            DialogKey::Return => {
                if self.entry_selected() {
                    self.open = false;
                    DialogAction::Choose(self.selected)
                } else if self.selected < len {
                    DialogAction::GoUp
                } else {
                    DialogAction::Nothing
                }
            },
            DialogKey::Space => {
                if self.entry_selected() {
                    DialogAction::Choose(self.selected)
                } else {
                    DialogAction::Nothing
                }
            },
            DialogKey::Escape => {
                self.open = false;
                DialogAction::Nothing
            },
        }
    }

    /// Handles a click on item `index`; `is_dir` says whether the item names
    /// a directory. A directory is entered, a file is chosen and the dialog
    /// closed.
    pub fn click(&mut self, index: usize, is_dir: bool) -> (action: DialogAction)
        requires
            old(self)@.wf(),
            index < old(self)@.items.len(),
        ensures
            final(self)@ == old(self)@.click(index as int, is_dir),
            action == if is_dir {
                DialogAction::GoDown(index)
            } else {
                DialogAction::Choose(index)
            },
            final(self)@.wf(),
    {
        if is_dir {
            DialogAction::GoDown(index)
        } else {
            self.open = false;
            DialogAction::Choose(index)
        }
    }

    /// Selects the item under the moving mouse.
    pub fn hover(&mut self, index: usize)
        requires
            old(self)@.wf(),
            index < old(self)@.items.len(),
        ensures
            final(self)@ == (DialogState { selected: index as int, ..old(self)@ }),
            final(self)@.wf(),
    {
        self.selected = index;
    }
}

} // verus!
