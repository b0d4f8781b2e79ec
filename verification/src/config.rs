//! What the user can switch on and off.

use vstd::prelude::*;

verus! {

/// The display options of the editor.
#[derive(Debug, PartialEq, Eq, Structural, Clone, Copy)]
pub struct Config {
    pub display_line_numbers: bool,
    pub display_stats: bool,
}

impl Default for Config {
    /// Both options off.
    fn default() -> (r: Self)
        ensures
            !r.display_line_numbers,
            !r.display_stats,
    {
        Self { display_line_numbers: false, display_stats: false }
    }
}

impl Config {
    /// The other setting of an option.
    #[must_use]
    pub fn toggle(config: bool) -> (r: bool)
        ensures
            r == !config,
    {
        !config
    }
}

} // verus!
