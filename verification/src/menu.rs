//! The menus of the program: lists of entries with a selection that moves up
//! and down and wraps around at both ends.

use vstd::prelude::*;

verus! {

/// A menu: its entries and the selection.
pub struct MenuList<T> {
    /// The place of the selected entry, if one is selected.
    pub selected: Option<usize>,
    pub items: Vec<T>,
}

/// The entries of the main menu.
#[derive(Debug, PartialEq, Eq, Copy, Clone, Structural)]
pub enum MainMenuEntry {
    Play,
    Exit,
}

/// The entries of the opponent menu.
#[derive(Debug, PartialEq, Eq, Copy, Clone, Structural)]
pub enum PlayerTypeEntry {
    Human,
    RandomComp,
    BasicComp,
    OptimalComp,
}

/// The entries of the menu at the end of a game.
#[derive(Debug, PartialEq, Eq, Copy, Clone, Structural)]
pub enum EndMenuEntry {
    PlayAgain,
    Exit,
}

impl MainMenuEntry {
    /// The text of the entry.
    pub open spec fn text(self) -> Seq<char> {
        match self {
            MainMenuEntry::Play => "Play"@,
            MainMenuEntry::Exit => "Exit"@,
        }
    }

    /// The text that the menu shows for the entry.
    pub fn label(&self) -> (label: &'static str)
        ensures
            label@ == self.text(),
    {
        match self {
            MainMenuEntry::Play => "Play",
            MainMenuEntry::Exit => "Exit",
        }
    }
}

impl PlayerTypeEntry {
    /// The text of the entry.
    pub open spec fn text(self) -> Seq<char> {
        match self {
            PlayerTypeEntry::Human => "Human"@,
            PlayerTypeEntry::RandomComp => "Random Computer"@,
            PlayerTypeEntry::BasicComp => "Basic Computer"@,
            PlayerTypeEntry::OptimalComp => "Optimal Computer"@,
        }
    }

    /// The text that the menu shows for the entry.
    pub fn label(&self) -> (label: &'static str)
        ensures
            label@ == self.text(),
    {
        match self {
            PlayerTypeEntry::Human => "Human",
            PlayerTypeEntry::RandomComp => "Random Computer",
            PlayerTypeEntry::BasicComp => "Basic Computer",
            PlayerTypeEntry::OptimalComp => "Optimal Computer",
        }
    }
}

impl EndMenuEntry {
    /// The text of the entry.
    pub open spec fn text(self) -> Seq<char> {
        match self {
            EndMenuEntry::PlayAgain => "Play Again"@,
            EndMenuEntry::Exit => "Exit"@,
        }
    }

    /// The text that the menu shows for the entry.
    pub fn label(&self) -> (label: &'static str)
        ensures
            label@ == self.text(),
    {
        match self {
            EndMenuEntry::PlayAgain => "Play Again",
            EndMenuEntry::Exit => "Exit",
        }
    }
}

/// The place after `i` in a list of `len` entries, the first after the last.
pub open spec fn place_after(i: int, len: int) -> int {
    if i >= len - 1 {
        0
    } else {
        i + 1
    }
}

/// The place before `i` in a list of `len` entries, the last before the
/// first.
pub open spec fn place_before(i: int, len: int) -> int {
    if i == 0 {
        len - 1
    } else {
        i - 1
    }
}

impl<T> MenuList<T> {
    /// The list has entries, and a selection points at one of them.
    pub open spec fn wf(&self) -> bool {
        &&& self.items@.len() > 0
        &&& self.selected matches Some(i) ==> i < self.items@.len()
    }

    /// The menu of the entries, with the first one selected.
    pub fn with_items(items: Vec<T>) -> (list: MenuList<T>)
        ensures
            list.items@ == items@,
            list.selected == Some(0usize),
            items@.len() > 0 ==> list.wf(),
    {
        let mut list = MenuList { selected: None, items };
        list.selected = Some(0);
        list
    }

    /// Moves the selection down by one, from the last entry to the first.
    pub fn next(&mut self)
        requires
            old(self).items@.len() > 0,
        ensures
            final(self).items@ == old(self).items@,
            final(self).selected == Some(
                match old(self).selected {
                    Some(i) => place_after(i as int, old(self).items@.len() as int) as usize,
                    None => 0usize,
                },
            ),
            final(self).wf(),
    {
        let i: usize = match self.selected {
            Some(i) => {
                if i >= self.items.len() - 1 {
                    0
                } else {
                    i + 1
                }
            },
            None => 0,
        };
        self.selected = Some(i);
    }

    /// Moves the selection up by one, from the first entry to the last.
    pub fn previous(&mut self)
        requires
            old(self).wf(),
        ensures
            final(self).items@ == old(self).items@,
            final(self).selected == Some(
                match old(self).selected {
                    Some(i) => place_before(i as int, old(self).items@.len() as int) as usize,
                    None => 0usize,
                },
            ),
            final(self).wf(),
    {
        let i: usize = match self.selected {
            Some(i) => {
                if i == 0 {
                    self.items.len() - 1
                } else {
                    i - 1
                }
            },
            None => 0,
        };
        self.selected = Some(i);
    }
}

} // verus!
