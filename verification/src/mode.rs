//! The two modes of the editor.

use vstd::prelude::*;

verus! {

/// Whether keystrokes are commands or text.
#[derive(Debug, PartialEq, Eq, Structural, Clone, Copy)]
pub enum Mode {
    Insert,
    Normal,
}

impl Mode {
    /// The name of the mode as the status bar shows it: `INSERT` or `NORMAL`.
    pub fn to_string(&self) -> (r: String)
        ensures
            r@ == match *self {
                Mode::Insert => "INSERT"@,
                Mode::Normal => "NORMAL"@,
            },
    {
        match *self {
            Mode::Insert => String::from_str("INSERT"),
            Mode::Normal => String::from_str("NORMAL"),
        }
    }
}

} // verus!
