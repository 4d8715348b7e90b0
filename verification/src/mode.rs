//! The modes of the editor.

use vstd::prelude::*;

verus! {

/// How keys are read: as commands, as text, or as one of two modes that are
/// named but define no behaviour yet.
#[derive(Debug, Copy, Clone, PartialEq, Eq, Hash, Structural)]
pub enum Mode {
    Normal,
    Insert,
    Visual,
    Search,
}

impl Mode {
    /// The name of the mode as the status line shows it.
    pub open spec fn name(self) -> Seq<char> {
        match self {
            Mode::Normal => "NORMAL"@,
            Mode::Insert => "INSERT"@,
            Mode::Visual => "VISUAL"@,
            Mode::Search => "SEARCH"@,
        }
    }

    /// The name of the mode as the status line shows it.
    pub fn to_string(&self) -> (s: String)
        ensures
            s@ == self.name(),
    {
        match self {
            Mode::Normal => "NORMAL".to_owned(),
            Mode::Insert => "INSERT".to_owned(),
            Mode::Visual => "VISUAL".to_owned(),
            Mode::Search => "SEARCH".to_owned(),
        }
    }
}

impl Default for Mode {
    fn default() -> (m: Mode)
        ensures
            m == Mode::Normal,
    {
        Mode::Normal
    }
}

} // verus!
