//! Two coordinate systems for the rows of a document.
//!
//! People count lines from 1, the document stores its rows from 0. Each
//! system has a type of its own, so that the `+1`/`-1` conversions live in
//! one place and cannot be forgotten.

use vstd::prelude::*;
use vstd::std_specs::convert::FromSpecImpl;

verus! {

/// The sum of `a` and `b`, held at `usize::MAX`.
pub open spec fn saturating_add_spec(a: usize, b: usize) -> usize {
    if a + b > usize::MAX {
        usize::MAX
    } else {
        (a + b) as usize
    }
}

/// The difference of `a` and `b`, held at zero.
pub open spec fn saturating_sub_spec(a: usize, b: usize) -> usize {
    if a < b {
        0
    } else {
        (a - b) as usize
    }
}

/// The row that line `ln` names: one less, held at zero.
pub open spec fn row_index_of(ln: LineNumber) -> RowIndex {
    RowIndex { value: saturating_sub_spec(ln.value, 1) }
}

/// The line number under which row `ri` is shown: one more, held at
/// `usize::MAX`.
pub open spec fn line_number_of(ri: RowIndex) -> LineNumber {
    LineNumber { value: saturating_add_spec(ri.value, 1) }
}

/// The 0-based index of a row in a document.
#[derive(Debug, PartialEq, Eq, Structural, Clone, Copy)]
pub struct RowIndex {
    pub value: usize,
}

/// The 1-based number of a line, as shown to the user.
#[derive(Debug, PartialEq, Eq, Structural, PartialOrd, Ord, Clone, Copy)]
pub struct LineNumber {
    pub value: usize,
}

impl RowIndex {
    /// The index `value`.
    #[must_use]
    pub fn new(value: usize) -> (r: Self)
        ensures
            r.value == value,
    {
        Self { value }
    }

    /// The index of the row below, held at `usize::MAX`.
    #[must_use]
    pub fn next(&self) -> (r: Self)
        ensures
            r.value == saturating_add_spec(self.value, 1),
    {
        Self::new(self.value.saturating_add(1))
    }

    /// The index of the row above, held at zero.
    #[must_use]
    pub fn previous(&self) -> (r: Self)
        ensures
            r.value == saturating_sub_spec(self.value, 1),
    {
        Self::new(self.value.saturating_sub(1))
    }
}

impl From<LineNumber> for RowIndex {
    fn from(ln: LineNumber) -> (r: Self) {
        Self::new(ln.value.saturating_sub(1))
    }
}

impl FromSpecImpl<LineNumber> for RowIndex {
    open spec fn obeys_from_spec() -> bool {
        true
    }

    open spec fn from_spec(ln: LineNumber) -> Self {
        row_index_of(ln)
    }
}

impl LineNumber {
    /// The line number `value`.
    #[must_use]
    pub fn new(value: usize) -> (r: Self)
        ensures
            r.value == value,
    {
        Self { value }
    }

    /// The line `value` lines further down, held at `usize::MAX`.
    #[must_use]
    pub fn add(&self, value: usize) -> (r: Self)
        ensures
            r.value == saturating_add_spec(self.value, value),
    {
        Self::new(self.value.saturating_add(value))
    }

    /// The line `value` lines further up, held at zero.
    #[must_use]
    pub fn sub(&self, value: usize) -> (r: Self)
        ensures
            r.value == saturating_sub_spec(self.value, value),
    {
        Self::new(self.value.saturating_sub(value))
    }

    /// The number of the line below, held at `usize::MAX`.
    #[must_use]
    pub fn next(&self) -> (r: Self)
        ensures
            r.value == saturating_add_spec(self.value, 1),
    {
        self.add(1)
    }

    /// The number of the line above, held at zero.
    #[must_use]
    pub fn previous(&self) -> (r: Self)
        ensures
            r.value == saturating_sub_spec(self.value, 1),
    {
        self.sub(1)
    }
}

impl From<RowIndex> for LineNumber {
    fn from(ri: RowIndex) -> (r: Self) {
        Self::new(ri.value.saturating_add(1))
    }
}

impl FromSpecImpl<RowIndex> for LineNumber {
    open spec fn obeys_from_spec() -> bool {
        true
    }

    open spec fn from_spec(ri: RowIndex) -> Self {
        line_number_of(ri)
    }
}

/// Converting a row index to its line number and back gives the index again,
/// for every index below `usize::MAX`.
pub proof fn lemma_row_index_round_trip(r: RowIndex)
    requires
        r.value < usize::MAX,
    ensures
        row_index_of(line_number_of(r)) == r,
{
}

/// Converting a line number to its row index and back gives the number again,
/// for every number from 1 on.
pub proof fn lemma_line_number_round_trip(ln: LineNumber)
    requires
        ln.value >= 1,
    ensures
        line_number_of(row_index_of(ln)) == ln,
{
}

} // verus!
