//! What the picker lists, and what it is asked for.

use vstd::prelude::*;

use crate::fs_path::FsPath;

verus! {

#[derive(Clone, Copy, Debug, PartialEq, Eq, Structural)]
pub enum Mode {
    /// Directories below the root.
    Dirs,
    /// Files below the root. Prints the parent directory of the chosen file.
    Files,
    /// Recently visited directories from zoxide.
    Recent,
    /// Pinned directories, independent of zoxide.
    Favorites,
    /// Walk the tree one level at a time.
    Browse,
}

impl Mode {
    pub open spec fn name(self) -> Seq<char> {
        match self {
            Mode::Dirs => "dirs"@,
            Mode::Files => "files"@,
            Mode::Recent => "recent"@,
            Mode::Favorites => "favorites"@,
            Mode::Browse => "browse"@,
        }
    }

    pub fn label(self) -> (label: &'static str)
        ensures
            label@ == self.name(),
    {
        match self {
            Mode::Dirs => "dirs",
            Mode::Files => "files",
            Mode::Recent => "recent",
            Mode::Favorites => "favorites",
            Mode::Browse => "browse",
        }
    }

    /// Whether this is a list of places, which opens over a screen.
    pub open spec fn lists_places(self) -> bool {
        self is Recent || self is Favorites
    }

    pub fn is_places(self) -> (res: bool)
        ensures
            res == self.lists_places(),
    {
        match self {
            Mode::Recent | Mode::Favorites => true,
            _ => false,
        }
    }
}

/// The shells the integration is written for.
#[derive(Clone, Copy, Debug, PartialEq, Eq, Structural)]
pub enum Shell {
    Powershell,
    Cmd,
    Bash,
}

impl Shell {
    pub fn label(self) -> (label: &'static str)
        ensures
            label@ == (match self {
                Shell::Powershell => "powershell"@,
                Shell::Cmd => "cmd"@,
                Shell::Bash => "bash"@,
            }),
    {
        match self {
            Shell::Powershell => "powershell",
            Shell::Cmd => "cmd",
            Shell::Bash => "bash",
        }
    }
}

/// What follows an action that has run.
#[derive(Clone, Copy, Debug, PartialEq, Eq, Structural)]
pub enum Then {
    /// The picker goes on.
    Stay,
    /// The picker ends.
    Quit,
    /// The picker ends, and the shell goes to the folder the action ran on.
    Cd,
}

/// What a picker is opened with.
#[derive(Debug)]
pub struct PickArgs {
    /// What to list.
    pub mode: Mode,
    /// Initial query.
    pub query: String,
    /// Directory to scan. Defaults to the current directory.
    pub root: Option<FsPath>,
    /// Print the only candidate without showing the picker.
    pub select_1: bool,
    /// What follows an action that does not say so itself.
    pub after_action: Then,
}

} // verus!
