//! The size of the terminal that the editor draws on.

use vstd::prelude::*;
use vstd::std_specs::convert::FromSpecImpl;

verus! {

/// The height and width of a terminal, in character cells.
#[derive(Debug, PartialEq, Eq, Structural, Clone, Copy)]
pub struct ConsoleSize {
    pub height: u16,
    pub width: u16,
}

impl From<(u16, u16)> for ConsoleSize {
    /// From a pair that gives the width first.
    fn from(t: (u16, u16)) -> (r: Self) {
        Self { height: t.1, width: t.0 }
    }
}

impl FromSpecImpl<(u16, u16)> for ConsoleSize {
    open spec fn obeys_from_spec() -> bool {
        true
    }

    open spec fn from_spec(t: (u16, u16)) -> Self {
        ConsoleSize { height: t.1, width: t.0 }
    }
}

impl Default for ConsoleSize {
    /// 80 rows of 120 columns.
    fn default() -> (r: Self)
        ensures
            r.height == 80,
            r.width == 120,
    {
        Self { height: 80, width: 120 }
    }
}

impl ConsoleSize {
    /// The part of a terminal of this size that shows text.
    pub open spec fn restrict_to_text_area_spec(&self) -> Self {
        ConsoleSize {
            width: self.width,
            height: if self.height >= 2 {
                (self.height - 2) as u16
            } else {
                0
            },
        }
    }

    /// The part of the terminal that shows text: all but the two rows at the
    /// bottom, which hold the status bar and the message bar.
    #[must_use]
    pub fn restrict_to_text_area(&self) -> (r: Self)
        ensures
            r == self.restrict_to_text_area_spec(),
    {
        Self { height: self.height.saturating_sub(2), width: self.width }
    }
}

} // verus!
