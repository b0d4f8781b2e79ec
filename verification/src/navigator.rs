//! Searches over rows and documents: the first character that is not
//! whitespace, word and paragraph boundaries, and matching brackets and
//! quotes.

use crate::document::{Document, Lines};
use crate::editor::{Position, ViewportOffset};
use crate::indexing::{saturating_add_spec, saturating_sub_spec, LineNumber, RowIndex};
use crate::row::{all_whitespace, char_at, cluster_at, cluster_count, Row};
use crate::text::{
    collect_chars, is_alphabetic_char, is_alphanumeric_char, is_ascii_punctuation,
    is_ascii_punctuation_char, is_whitespace_char, single_char, single_char_spec, texts,
};
use vstd::prelude::*;

verus! {

/// The end of a word, a paragraph, a line or a document that a search goes
/// for.
#[derive(Debug, PartialEq, Eq, Structural, Clone, Copy)]
pub enum Boundary {
    Start,
    End,
}

/// The home of the search functions; it holds no state.
#[derive(Debug)]
pub struct Navigator {}

/// Whether a word begins between the neighbouring characters `char1` and
/// `char2`. An underscore on either side joins them, and no word begins at
/// whitespace. Otherwise one begins where exactly one of the two is
/// alphabetic, where punctuation follows a letter or digit, and where a
/// letter or digit follows whitespace.
pub open spec fn word_delimiter(char1: char, char2: char) -> bool {
    if is_whitespace_char(char2) || char1 == '_' || char2 == '_' {
        false
    } else {
        (is_alphabetic_char(char1) && !is_alphabetic_char(char2)) || (!is_alphabetic_char(char1)
            && is_alphabetic_char(char2)) || (is_alphanumeric_char(char1)
            && is_ascii_punctuation_char(char2)) || (is_whitespace_char(char1)
            && is_alphanumeric_char(char2))
    }
}

/// Whether a word begins at character `i` of `s`, going by the character
/// before it. Beyond the end of `s` stand null characters.
pub open spec fn word_starts_at(s: Seq<char>, i: int) -> bool {
    word_delimiter(char_at(s, i - 1), char_at(s, i))
}

/// The first column behind which the search for the previous word looks:
/// `x`, but for the largest `x`, one less.
pub open spec fn backward_limit(x: usize) -> usize {
    saturating_sub_spec(saturating_add_spec(x, 1), 1)
}

/// Whether row `index` of `rows` exists and holds nothing but whitespace,
/// while row `came_from` exists and holds something else.
pub open spec fn paragraph_break(rows: Lines, index: int, came_from: int) -> bool {
    0 <= index < rows.len() && 0 <= came_from < rows.len() && all_whitespace(rows[index])
        && !all_whitespace(rows[came_from])
}

/// Whether line `line` ends a paragraph for a search that goes through the
/// lines in the direction of `boundary`: it is blank and the line that the
/// search came from is not.
pub open spec fn paragraph_ends_at(rows: Lines, line: int, boundary: Boundary) -> bool {
    match boundary {
        Boundary::End => paragraph_break(rows, line - 1, line - 2),
        Boundary::Start => paragraph_break(rows, line - 1, line),
    }
}

/// The index of the first character of `s` from `i` on that is not
/// whitespace.
pub open spec fn first_non_whitespace_from(s: Seq<char>, i: int) -> Option<usize>
    decreases s.len() - i,
{
    if i < 0 || i >= s.len() {
        None
    } else if !is_whitespace_char(s[i]) {
        Some(i as usize)
    } else {
        first_non_whitespace_from(s, i + 1)
    }
}

/// The first column from `k` on at which a word starts in `s`; where there is
/// none, the column of the last cluster of `s`.
pub open spec fn next_word_from(s: Seq<char>, k: int) -> usize
    decreases s.len() - k,
{
    if k < 1 || k >= s.len() {
        saturating_sub_spec(cluster_count(s) as usize, 1)
    } else if word_starts_at(s, k) {
        k as usize
    } else {
        next_word_from(s, k + 1)
    }
}

/// The column of the next word after column `x` of `s`.
pub open spec fn next_word_index(s: Seq<char>, x: usize) -> usize {
    next_word_from(s, x + 1)
}

/// The last column before `i` at which a word starts in `s`, the first
/// column left aside; where there is none, the first column.
pub open spec fn previous_word_before(s: Seq<char>, i: int) -> usize
    decreases i,
{
    if i <= 1 {
        0
    } else if word_starts_at(s, i - 1) {
        (i - 1) as usize
    } else {
        previous_word_before(s, i - 1)
    }
}

/// The column of the previous word before column `x` of `s`.
pub open spec fn previous_word_index(s: Seq<char>, x: usize) -> usize {
    previous_word_before(s, backward_limit(x) as int)
}

/// The line on which the paragraph ends that a search going down from line
/// `line` is in: the first line below `line` and above the last that ends a
/// paragraph, or the last line.
pub open spec fn paragraph_end(rows: Lines, line: int) -> int
    decreases rows.len() - line,
{
    if line + 1 >= rows.len() {
        rows.len() as int
    } else if paragraph_ends_at(rows, line + 1, Boundary::End) {
        line + 1
    } else {
        paragraph_end(rows, line + 1)
    }
}

/// The line on which the paragraph starts that a search going up from line
/// `line` is in: the first line above `line` and below the first that ends a
/// paragraph for a search going up, or line 1.
pub open spec fn paragraph_start(rows: Lines, line: int) -> int
    decreases line,
{
    if line <= 2 {
        1
    } else if paragraph_ends_at(rows, line - 1, Boundary::Start) {
        line - 1
    } else {
        paragraph_start(rows, line - 1)
    }
}

/// The line that the search for the end or the start of a paragraph comes
/// to from line `line`.
pub open spec fn paragraph_target(rows: Lines, line: int, boundary: Boundary) -> int {
    match boundary {
        Boundary::End => paragraph_end(rows, line),
        Boundary::Start => paragraph_start(rows, line),
    }
}

/// The symbol that closes what `c` opens.
pub open spec fn closing_symbol(c: char) -> Option<char> {
    if c == '\'' {
        Some('\'')
    } else if c == '"' {
        Some('"')
    } else if c == '{' {
        Some('}')
    } else if c == '(' {
        Some(')')
    } else if c == '[' {
        Some(']')
    } else {
        None
    }
}

/// The symbol that opens what `c` closes.
pub open spec fn opening_symbol(c: char) -> Option<char> {
    if c == '\'' {
        Some('\'')
    } else if c == '"' {
        Some('"')
    } else if c == '}' {
        Some('{')
    } else if c == ')' {
        Some('(')
    } else if c == ']' {
        Some('[')
    } else {
        None
    }
}

/// The symbol that answers `c` in a search that goes forward (for the closing
/// symbol) or backward (for the opening one).
pub open spec fn partner(forward: bool, c: char) -> Option<char> {
    if forward {
        closing_symbol(c)
    } else {
        opening_symbol(c)
    }
}

/// The stack of symbols that still wait for their partner, after the search
/// has met `cluster`. The partner of the symbol on top takes it off the
/// stack; any other symbol that has a partner goes on top; everything else
/// leaves the stack as it is, and so does everything once the stack is empty.
pub open spec fn stack_step(forward: bool, stack: Seq<char>, cluster: Seq<char>) -> Seq<char> {
    if stack.len() == 0 {
        stack
    } else {
        match single_char_spec(cluster) {
            None => stack,
            Some(c) => if partner(forward, stack.last()) == Some(c) {
                stack.drop_last()
            } else if partner(forward, c) is Some {
                stack.push(c)
            } else {
                stack
            },
        }
    }
}

/// The stack of a forward search that began on `symbol` at column `x0` of row
/// `y0`, before it meets cluster `x` of row `y`. The search goes right from
/// the cluster behind `symbol` to the end of the row, and then through the
/// rows below, each from its first cluster.
pub open spec fn forward_stack(rows: Lines, x0: int, y0: int, symbol: char, y: int, x: int) -> Seq<
    char,
>
    decreases y - y0, x,
{
    let first = if y == y0 {
        x0 + 1
    } else {
        0
    };
    if y < y0 || y >= rows.len() || y0 < 0 || x0 < 0 {
        seq![symbol]
    } else if x > first {
        stack_step(true, forward_stack(rows, x0, y0, symbol, y, x - 1), cluster_at(rows[y], x - 1))
    } else if y == y0 {
        seq![symbol]
    } else {
        forward_stack(rows, x0, y0, symbol, y - 1, cluster_count(rows[y - 1]) as int)
    }
}

/// The stack of a backward search that began on `symbol` at column `x0` of
/// row `y0`, after it has met cluster `x` of row `y` and all that it met
/// before. The search goes left from the cluster before `symbol` to the start
/// of the row, and then through the rows above, each from its last cluster.
/// With `x` at the length of the row, or at `x0` in row `y0`, this is the
/// stack with which the search enters the row.
pub open spec fn backward_stack(rows: Lines, x0: int, y0: int, symbol: char, y: int, x: int) -> Seq<
    char,
>
    decreases y0 - y, (if y == y0 { x0 } else if 0 <= y < rows.len() { cluster_count(rows[y]) as int } else { 0 }) - x,
{
    if y > y0 || y < 0 || y0 >= rows.len() {
        seq![symbol]
    } else {
        let entry = if y == y0 {
            x0
        } else {
            cluster_count(rows[y]) as int
        };
        if 0 <= x < entry {
            stack_step(
                false,
                backward_stack(rows, x0, y0, symbol, y, x + 1),
                cluster_at(rows[y], x),
            )
        } else if y == y0 {
            seq![symbol]
        } else {
            backward_stack(rows, x0, y0, symbol, y + 1, 0)
        }
    }
}

/// Whether a forward search from `symbol` at column `x0` of row `y0` meets
/// cluster `x` of row `y`.
pub open spec fn forward_reach(rows: Lines, x0: int, y0: int, y: int, x: int) -> bool {
    0 <= y0 <= y < rows.len() && 0 <= x < cluster_count(rows[y]) && (y == y0 ==> x > x0)
}

/// Whether a backward search from `symbol` at column `x0` of row `y0` meets
/// cluster `x` of row `y`.
pub open spec fn backward_reach(rows: Lines, x0: int, y0: int, y: int, x: int) -> bool {
    0 <= y <= y0 < rows.len() && 0 <= x < cluster_count(rows[y]) && (y == y0 ==> x < x0)
}

/// Whether the forward search from `symbol` at column `x0` of row `y0` finds
/// its match at `p`: the stack, not empty before `p`, is empty after it.
pub open spec fn closes_at(rows: Lines, x0: int, y0: int, symbol: char, p: Position) -> bool {
    forward_reach(rows, x0, y0, p.y as int, p.x as int) && forward_stack(
        rows,
        x0,
        y0,
        symbol,
        p.y as int,
        p.x as int,
    ).len() > 0 && forward_stack(rows, x0, y0, symbol, p.y as int, p.x + 1).len() == 0
}

/// Whether the backward search from `symbol` at column `x0` of row `y0` finds
/// its match at `p`: the stack, not empty before `p`, is empty after it.
pub open spec fn opens_at(rows: Lines, x0: int, y0: int, symbol: char, p: Position) -> bool {
    backward_reach(rows, x0, y0, p.y as int, p.x as int) && backward_stack(
        rows,
        x0,
        y0,
        symbol,
        p.y as int,
        p.x + 1,
    ).len() > 0 && backward_stack(rows, x0, y0, symbol, p.y as int, p.x as int).len() == 0
}

/// The symbol under the cursor, if a search in the given direction can start
/// from it: the cluster at column `x0` of row `y0`, where it is one character
/// and that character has a partner.
pub open spec fn seed(forward: bool, rows: Lines, x0: int, y0: int) -> Option<char> {
    if 0 <= y0 < rows.len() {
        match single_char_spec(cluster_at(rows[y0], x0)) {
            Some(c) => if partner(forward, c) is Some {
                Some(c)
            } else {
                None
            },
            None => None,
        }
    } else {
        None
    }
}

/// The position at which a search from the symbol at column `x0` of row `y0`
/// finds its match, forward for the symbol that closes it or backward for
/// the one that opens it; `None` where no search can start there or the
/// search finds no match.
pub open spec fn matching_target(forward: bool, rows: Lines, x0: int, y0: int) -> Option<
    Position,
> {
    match seed(forward, rows, x0, y0) {
        None => None,
        Some(symbol) => if forward {
            if exists|p: Position| closes_at(rows, x0, y0, symbol, p) {
                Some(choose|p: Position| closes_at(rows, x0, y0, symbol, p))
            } else {
                None
            }
        } else {
            if exists|p: Position| opens_at(rows, x0, y0, symbol, p) {
                Some(choose|p: Position| opens_at(rows, x0, y0, symbol, p))
            } else {
                None
            }
        },
    }
}

/// Once the stack of a forward search is empty it stays empty: from cluster
/// `x1` of row `y1` to any cluster `x2` of a row `y2` that the search comes
/// to later.
pub proof fn lemma_forward_stack_stays_empty(
    rows: Lines,
    x0: int,
    y0: int,
    symbol: char,
    y1: int,
    x1: int,
    y2: int,
    x2: int,
)
    requires
        0 <= y0 <= y1 <= y2 < rows.len(),
        0 <= x0 < cluster_count(rows[y0]),
        y1 == y0 ==> x1 > x0,
        y2 == y0 ==> x2 > x0,
        0 <= x1 <= cluster_count(rows[y1]),
        0 <= x2,
        y1 == y2 ==> x1 <= x2,
        forward_stack(rows, x0, y0, symbol, y1, x1).len() == 0,
    ensures
        forward_stack(rows, x0, y0, symbol, y2, x2).len() == 0,
    decreases y2 - y0, x2,
{
    let first = if y2 == y0 {
        x0 + 1
    } else {
        0
    };
    if y1 == y2 && x1 == x2 {
    } else if x2 > first {
        lemma_forward_stack_stays_empty(rows, x0, y0, symbol, y1, x1, y2, x2 - 1);
    } else {
        lemma_forward_stack_stays_empty(
            rows,
            x0,
            y0,
            symbol,
            y1,
            x1,
            y2 - 1,
            cluster_count(rows[y2 - 1]) as int,
        );
    }
}

/// A forward search finds its match in one place at most.
pub proof fn lemma_closes_at_most_once(
    rows: Lines,
    x0: int,
    y0: int,
    symbol: char,
    p: Position,
    q: Position,
)
    requires
        0 <= x0,
        0 <= y0 < rows.len(),
        x0 < cluster_count(rows[y0]),
        closes_at(rows, x0, y0, symbol, p),
        closes_at(rows, x0, y0, symbol, q),
    ensures
        p == q,
{
    if p.y < q.y || (p.y == q.y && p.x < q.x) {
        lemma_forward_stack_stays_empty(
            rows,
            x0,
            y0,
            symbol,
            p.y as int,
            p.x + 1,
            q.y as int,
            q.x as int,
        );
    } else if q.y < p.y || (q.y == p.y && q.x < p.x) {
        lemma_forward_stack_stays_empty(
            rows,
            x0,
            y0,
            symbol,
            q.y as int,
            q.x + 1,
            p.y as int,
            p.x as int,
        );
    }
}

/// Once the stack of a backward search is empty it stays empty: from
/// cluster `x1` of row `y1` to any cluster `x2` of a row `y2` that the search
/// comes to later.
pub proof fn lemma_backward_stack_stays_empty(
    rows: Lines,
    x0: int,
    y0: int,
    symbol: char,
    y1: int,
    x1: int,
    y2: int,
    x2: int,
)
    requires
        0 <= y2 <= y1 <= y0 < rows.len(),
        0 <= x0 < cluster_count(rows[y0]),
        0 <= x1,
        0 <= x2,
        y1 == y0 ==> x1 <= x0,
        y2 == y0 ==> x2 <= x0,
        y1 != y0 ==> x1 <= cluster_count(rows[y1]),
        y2 != y0 ==> x2 <= cluster_count(rows[y2]),
        y1 == y2 ==> x2 <= x1,
        backward_stack(rows, x0, y0, symbol, y1, x1).len() == 0,
    ensures
        backward_stack(rows, x0, y0, symbol, y2, x2).len() == 0,
    decreases y0 - y2, (if y2 == y0 {
        x0
    } else {
        cluster_count(rows[y2]) as int
    }) - x2,
{
    let entry = if y2 == y0 {
        x0
    } else {
        cluster_count(rows[y2]) as int
    };
    if y1 == y2 && x1 == x2 {
    } else if x2 < entry {
        lemma_backward_stack_stays_empty(rows, x0, y0, symbol, y1, x1, y2, x2 + 1);
    } else {
        lemma_backward_stack_stays_empty(rows, x0, y0, symbol, y1, x1, y2 + 1, 0);
    }
}

/// A backward search finds its match in one place at most.
pub proof fn lemma_opens_at_most_once(
    rows: Lines,
    x0: int,
    y0: int,
    symbol: char,
    p: Position,
    q: Position,
)
    requires
        0 <= x0,
        0 <= y0 < rows.len(),
        x0 < cluster_count(rows[y0]),
        opens_at(rows, x0, y0, symbol, p),
        opens_at(rows, x0, y0, symbol, q),
    ensures
        p == q,
{
    if p.y > q.y || (p.y == q.y && p.x > q.x) {
        lemma_backward_stack_stays_empty(
            rows,
            x0,
            y0,
            symbol,
            p.y as int,
            p.x as int,
            q.y as int,
            q.x + 1,
        );
    } else if q.y > p.y || (q.y == p.y && q.x > p.x) {
        lemma_backward_stack_stays_empty(
            rows,
            x0,
            y0,
            symbol,
            q.y as int,
            q.x as int,
            p.y as int,
            p.x + 1,
        );
    }
}

fn closing_of(c: char) -> (r: Option<char>)
    ensures
        r == closing_symbol(c),
{
    if c == '\'' {
        Some('\'')
    } else if c == '"' {
        Some('"')
    } else if c == '{' {
        Some('}')
    } else if c == '(' {
        Some(')')
    } else if c == '[' {
        Some(']')
    } else {
        None
    }
}

fn opening_of(c: char) -> (r: Option<char>)
    ensures
        r == opening_symbol(c),
{
    if c == '\'' {
        Some('\'')
    } else if c == '"' {
        Some('"')
    } else if c == '}' {
        Some('{')
    } else if c == ')' {
        Some('(')
    } else if c == ']' {
        Some('[')
    } else {
        None
    }
}

fn partner_of(forward: bool, c: char) -> (r: Option<char>)
    ensures
        r == partner(forward, c),
{
    if forward {
        closing_of(c)
    } else {
        opening_of(c)
    }
}

/// Lets the search meet `cluster`: changes `stack` as [`stack_step`] says.
fn meet(forward: bool, stack: &mut Vec<char>, cluster: &str)
    requires
        old(stack)@.len() > 0,
    ensures
        final(stack)@ == stack_step(forward, old(stack)@, cluster@),
{
    match single_char(cluster) {
        None => {},
        Some(c) => {
            let top = stack[stack.len() - 1];
            let closes = match partner_of(forward, top) {
                Some(p) => p == c,
                None => false,
            };
            if closes {
                let _ = stack.pop();
            } else if partner_of(forward, c).is_some() {
                stack.push(c);
            }
        },
    }
}

fn char_or_null(chars: &Vec<char>, index: usize) -> (r: char)
    ensures
        r == char_at(chars@, index as int),
{
    if index < chars.len() {
        chars[index]
    } else {
        '\0'
    }
}

impl Navigator {
    /// The index of the first character of `row` that is not whitespace.
    #[must_use]
    pub fn find_index_of_first_non_whitespace(row: &Row) -> (r: Option<usize>)
        ensures
            r == first_non_whitespace_from(row@, 0),
            r is None <==> all_whitespace(row@),
            r is Some ==> r->0 < row@.len() && !is_whitespace_char(row@[r->0 as int])
                && all_whitespace(row@.take(r->0 as int)),
    {
        let chars = collect_chars(row.string.as_str());
        let mut x: usize = 0;
        while x < chars.len()
            invariant
                x <= chars.len(),
                chars@ == row@,
                all_whitespace(row@.take(x as int)),
                first_non_whitespace_from(row@, x as int) == first_non_whitespace_from(row@, 0),
            decreases chars.len() - x,
        {
            if !chars[x].is_whitespace() {
                return Some(x);
            }
            assert(row@.take(x + 1) =~= row@.take(x as int).push(row@[x as int]));
            x += 1;
        }
        assert(row@.take(row@.len() as int) =~= row@);
        None
    }

    /// Whether a word begins between the neighbouring characters `char1` and
    /// `char2`.
    #[must_use]
    pub fn is_word_delimiter(char1: char, char2: char) -> (r: bool)
        ensures
            r == word_delimiter(char1, char2),
    {
        if char2.is_whitespace() || char1 == '_' || char2 == '_' {
            return false;
        }
        (char1.is_alphabetic() && !char2.is_alphabetic()) || (!char1.is_alphabetic()
            && char2.is_alphabetic()) || (char1.is_alphanumeric() && is_ascii_punctuation(char2))
            || (char1.is_whitespace() && char2.is_alphanumeric())
    }

    /// The column of the next word after column `current_x_position`
    /// (`Boundary::End`) or of the previous word before it
    /// (`Boundary::Start`), counted in characters. Where there is no further
    /// word the search stops at the line's bounds: on the last cluster of the
    /// row, or on column 0.
    #[must_use]
    pub fn find_index_of_next_or_previous_word(
        current_row: &Row,
        current_x_position: usize,
        boundary: &Boundary,
    ) -> (r: usize)
        ensures
            *boundary is End ==> r == next_word_index(current_row@, current_x_position),
            *boundary is Start ==> r == previous_word_index(current_row@, current_x_position),
            *boundary is End ==> {
                ||| (current_x_position < r < current_row@.len() && word_starts_at(
                    current_row@,
                    r as int,
                ) && forall|k: int|
                    current_x_position < k < r ==> !word_starts_at(current_row@, k))
                ||| (r == saturating_sub_spec(cluster_count(current_row@) as usize, 1)
                    && forall|k: int|
                    current_x_position < k < current_row@.len() ==> !word_starts_at(
                        current_row@,
                        k,
                    ))
            },
            *boundary is Start ==> {
                ||| (1 <= r < backward_limit(current_x_position) && word_starts_at(
                    current_row@,
                    r as int,
                ) && forall|k: int|
                    r < k < backward_limit(current_x_position) ==> !word_starts_at(
                        current_row@,
                        k,
                    ))
                ||| (r == 0 && forall|k: int|
                    1 <= k < backward_limit(current_x_position) ==> !word_starts_at(
                        current_row@,
                        k,
                    ))
            },
    {
        let chars = collect_chars(current_row.string.as_str());
        match *boundary {
            Boundary::End => {
                if current_x_position < chars.len() {
                    let mut k: usize = current_x_position + 1;
                    while k < chars.len()
                        invariant
                            *boundary is End,
                            current_x_position < k <= chars.len(),
                            chars@ == current_row@,
                            next_word_from(current_row@, k as int) == next_word_index(
                                current_row@,
                                current_x_position,
                            ),
                            forall|j: int|
                                current_x_position < j < k ==> !word_starts_at(current_row@, j),
                        decreases chars.len() - k,
                    {
                        if Self::is_word_delimiter(chars[k - 1], chars[k]) {
                            return k;
                        }
                        k += 1;
                    }
                }
                current_row.len().saturating_sub(1)
            },
            Boundary::Start => {
                let limit = current_x_position.saturating_add(1).saturating_sub(1);
                let mut i: usize = limit;
                while i > 1
                    invariant
                        *boundary is Start,
                        i <= limit,
                        limit == backward_limit(current_x_position),
                        chars@ == current_row@,
                        previous_word_before(current_row@, i as int) == previous_word_index(
                            current_row@,
                            current_x_position,
                        ),
                        forall|j: int|
                            i <= j < limit && 1 <= j ==> !word_starts_at(current_row@, j),
                    decreases i,
                {
                    i -= 1;
                    if Self::is_word_delimiter(
                        char_or_null(&chars, i - 1),
                        char_or_null(&chars, i),
                    ) {
                        return i;
                    }
                }
                0
            },
        }
    }

    /// The line on which the paragraph around line `current_line_number`
    /// ends (`Boundary::End`) or begins (`Boundary::Start`): the first blank
    /// line that the search meets after a line that is not blank, going down
    /// from the line below towards the last line, or up from the line above
    /// towards the first. Where it meets none, the last line or line 1.
    #[must_use]
    pub fn find_line_number_of_start_or_end_of_paragraph(
        document: &Document,
        current_line_number: LineNumber,
        boundary: &Boundary,
    ) -> (r: LineNumber)
        ensures
            r.value == paragraph_target(document@, current_line_number.value as int, *boundary),
            *boundary is End ==> {
                ||| (current_line_number.value < r.value < document@.len() && paragraph_ends_at(
                    document@,
                    r.value as int,
                    Boundary::End,
                ) && forall|line: int|
                    current_line_number.value < line < r.value ==> !paragraph_ends_at(
                        document@,
                        line,
                        Boundary::End,
                    ))
                ||| (r.value == document@.len() && forall|line: int|
                    current_line_number.value < line < document@.len() ==> !paragraph_ends_at(
                        document@,
                        line,
                        Boundary::End,
                    ))
            },
            *boundary is Start ==> {
                ||| (1 < r.value < current_line_number.value && paragraph_ends_at(
                    document@,
                    r.value as int,
                    Boundary::Start,
                ) && forall|line: int|
                    r.value < line < current_line_number.value ==> !paragraph_ends_at(
                        document@,
                        line,
                        Boundary::Start,
                    ))
                ||| (r.value == 1 && forall|line: int|
                    1 < line < current_line_number.value ==> !paragraph_ends_at(
                        document@,
                        line,
                        Boundary::Start,
                    ))
            },
    {
        let last = document.last_line_number();
        let mut line = current_line_number;
        match *boundary {
            Boundary::End => {
                while line.value < last.value && line.next().value < last.value
                    invariant
                        *boundary is End,
                        last.value == document@.len(),
                        current_line_number.value <= line.value,
                        paragraph_end(document@, line.value as int) == paragraph_end(
                            document@,
                            current_line_number.value as int,
                        ),
                        forall|l: int|
                            current_line_number.value < l <= line.value ==> !paragraph_ends_at(
                                document@,
                                l,
                                Boundary::End,
                            ),
                    decreases last.value - line.value,
                {
                    line = line.next();
                    if Self::is_paragraph_break(document, line, line.previous()) {
                        return line;
                    }
                }
                last
            },
            Boundary::Start => {
                while line.value > 2
                    invariant
                        *boundary is Start,
                        line.value <= current_line_number.value,
                        paragraph_start(document@, line.value as int) == paragraph_start(
                            document@,
                            current_line_number.value as int,
                        ),
                        forall|l: int|
                            line.value <= l < current_line_number.value && 1 < l
                                ==> !paragraph_ends_at(document@, l, Boundary::Start),
                    decreases line.value,
                {
                    let below = line;
                    line = line.previous();
                    if Self::is_paragraph_break(document, line, below) {
                        return line;
                    }
                }
                LineNumber::new(1)
            },
        }
    }

    /// Whether line `line` is blank while line `came_from` is not. A line
    /// that the document does not have is neither.
    fn is_paragraph_break(document: &Document, line: LineNumber, came_from: LineNumber) -> (r:
        bool)
        requires
            line.value >= 1,
            came_from.value >= 1 || line.value == 1,
        ensures
            r == paragraph_break(document@, line.value - 1, came_from.value - 1),
    {
        match document.row_for_line_number(line) {
            None => false,
            Some(current) => match document.row_for_line_number(came_from) {
                None => false,
                Some(previous) => current.is_whitespace() && !previous.is_whitespace(),
            },
        }
    }

    /// The position of the symbol that closes the one under the cursor, which
    /// stands at `current_position` on a screen scrolled by `offset`. The
    /// search goes forward through the document and keeps a stack of the
    /// symbols that it has seen opened; it ends where the stack runs empty.
    /// `None` where no opening symbol is under the cursor, or where the
    /// document ends before the stack is empty.
    #[must_use]
    pub fn find_matching_closing_symbol(
        document: &Document,
        current_position: &Position,
        offset: &ViewportOffset,
    ) -> (r: Option<Position>)
        ensures
            r == matching_target(
                true,
                document@,
                saturating_add_spec(current_position.x, offset.columns) as int,
                saturating_add_spec(current_position.y, offset.rows) as int,
            ),
            match seed(
                true,
                document@,
                saturating_add_spec(current_position.x, offset.columns) as int,
                saturating_add_spec(current_position.y, offset.rows) as int,
            ) {
                None => r is None,
                Some(symbol) => match r {
                    Some(p) => closes_at(
                        document@,
                        saturating_add_spec(current_position.x, offset.columns) as int,
                        saturating_add_spec(current_position.y, offset.rows) as int,
                        symbol,
                        p,
                    ),
                    None => forall|p: Position|
                        !closes_at(
                            document@,
                            saturating_add_spec(current_position.x, offset.columns) as int,
                            saturating_add_spec(current_position.y, offset.rows) as int,
                            symbol,
                            p,
                        ),
                },
            },
    {
        let x0 = current_position.x.saturating_add(offset.columns);
        let y0 = current_position.y.saturating_add(offset.rows);
        let symbol = match Self::symbol_under_cursor(true, document, x0, y0) {
            Some(c) => c,
            None => {
                return None;
            },
        };
        let ghost rows = document@;
        let mut stack: Vec<char> = Vec::new();
        stack.push(symbol);
        assert(stack@ =~= seq![symbol]);
        let mut y = y0;
        while y < document.num_rows()
            invariant
                rows == document@,
                x0 == saturating_add_spec(current_position.x, offset.columns),
                y0 == saturating_add_spec(current_position.y, offset.rows),
                seed(true, rows, x0 as int, y0 as int) == Some(symbol),
                y0 <= y <= rows.len(),
                y0 < rows.len(),
                x0 < cluster_count(rows[y0 as int]),
                stack@.len() > 0,
                y < rows.len() ==> stack@ == forward_stack(
                    rows,
                    x0 as int,
                    y0 as int,
                    symbol,
                    y as int,
                    if y == y0 {
                        x0 + 1
                    } else {
                        0
                    },
                ),
                forall|yy: int, xx: int|
                    forward_reach(rows, x0 as int, y0 as int, yy, xx) && yy < y ==> (
                    #[trigger] forward_stack(rows, x0 as int, y0 as int, symbol, yy, xx + 1)).len()
                        > 0,
            decreases rows.len() - y,
        {
            let clusters = document.rows[y].graphemes();
            assert(texts(clusters@).len() == clusters.len());
            let first = if y == y0 {
                x0 + 1
            } else {
                0
            };
            let mut index = first;
            while index < clusters.len()
                invariant
                    rows == document@,
                    x0 == saturating_add_spec(current_position.x, offset.columns),
                    y0 == saturating_add_spec(current_position.y, offset.rows),
                    seed(true, rows, x0 as int, y0 as int) == Some(symbol),
                    x0 < cluster_count(rows[y0 as int]),
                    y0 <= y < rows.len(),
                    first == (if y == y0 {
                        x0 + 1
                    } else {
                        0
                    }),
                    first <= index <= clusters.len(),
                    texts(clusters@) == crate::text::grapheme_clusters(rows[y as int]),
                    stack@.len() > 0,
                    stack@ == forward_stack(rows, x0 as int, y0 as int, symbol, y as int, index as int),
                    forall|yy: int, xx: int|
                        forward_reach(rows, x0 as int, y0 as int, yy, xx) && (yy < y || (yy == y
                            && xx < index)) ==> (#[trigger] forward_stack(
                            rows,
                            x0 as int,
                            y0 as int,
                            symbol,
                            yy,
                            xx + 1,
                        )).len() > 0,
                decreases clusters.len() - index,
            {
                assert(texts(clusters@)[index as int] == clusters@[index as int]@);
                meet(true, &mut stack, clusters[index].as_str());
                assert(stack@ == forward_stack(
                    rows,
                    x0 as int,
                    y0 as int,
                    symbol,
                    y as int,
                    index + 1,
                ));
                if stack.len() == 0 {
                    let found = Position { x: index, y };
                    proof {
                        assert(closes_at(rows, x0 as int, y0 as int, symbol, found));
                        let chosen = choose|p: Position|
                            closes_at(rows, x0 as int, y0 as int, symbol, p);
                        lemma_closes_at_most_once(
                            rows,
                            x0 as int,
                            y0 as int,
                            symbol,
                            found,
                            chosen,
                        );
                    }
                    return Some(found);
                }
                index += 1;
            }
            y += 1;
        }
        assert forall|p: Position| !closes_at(rows, x0 as int, y0 as int, symbol, p) by {
            if forward_reach(rows, x0 as int, y0 as int, p.y as int, p.x as int) {
                assert(forward_stack(rows, x0 as int, y0 as int, symbol, p.y as int, p.x + 1).len()
                    > 0);
            }
        }
        None
    }

    /// The position of the symbol that opens what the one under the cursor
    /// closes. The search goes backward through the document and keeps a
    /// stack of the symbols that it has seen closed; it ends where the stack
    /// runs empty. `None` where no closing symbol is under the cursor, or
    /// where the document begins before the stack is empty.
    #[must_use]
    pub fn find_matching_opening_symbol(
        document: &Document,
        current_position: &Position,
        offset: &ViewportOffset,
    ) -> (r: Option<Position>)
        ensures
            r == matching_target(
                false,
                document@,
                saturating_add_spec(current_position.x, offset.columns) as int,
                saturating_add_spec(current_position.y, offset.rows) as int,
            ),
            match seed(
                false,
                document@,
                saturating_add_spec(current_position.x, offset.columns) as int,
                saturating_add_spec(current_position.y, offset.rows) as int,
            ) {
                None => r is None,
                Some(symbol) => match r {
                    Some(p) => opens_at(
                        document@,
                        saturating_add_spec(current_position.x, offset.columns) as int,
                        saturating_add_spec(current_position.y, offset.rows) as int,
                        symbol,
                        p,
                    ),
                    None => forall|p: Position|
                        !opens_at(
                            document@,
                            saturating_add_spec(current_position.x, offset.columns) as int,
                            saturating_add_spec(current_position.y, offset.rows) as int,
                            symbol,
                            p,
                        ),
                },
            },
    {
        let x0 = current_position.x.saturating_add(offset.columns);
        let y0 = current_position.y.saturating_add(offset.rows);
        let symbol = match Self::symbol_under_cursor(false, document, x0, y0) {
            Some(c) => c,
            None => {
                return None;
            },
        };
        let ghost rows = document@;
        let mut stack: Vec<char> = Vec::new();
        stack.push(symbol);
        assert(stack@ =~= seq![symbol]);
        let count = document.num_rows();
        assert(y0 < count);
        let mut below = y0 + 1;
        while below > 0
            invariant
                rows == document@,
                x0 == saturating_add_spec(current_position.x, offset.columns),
                y0 == saturating_add_spec(current_position.y, offset.rows),
                seed(false, rows, x0 as int, y0 as int) == Some(symbol),
                below <= y0 + 1,
                y0 < rows.len(),
                x0 < cluster_count(rows[y0 as int]),
                stack@.len() > 0,
                stack@ == (if below == y0 + 1 {
                    seq![symbol]
                } else {
                    backward_stack(rows, x0 as int, y0 as int, symbol, below as int, 0)
                }),
                forall|yy: int, xx: int|
                    backward_reach(rows, x0 as int, y0 as int, yy, xx) && yy >= below ==> (
                    #[trigger] backward_stack(rows, x0 as int, y0 as int, symbol, yy, xx)).len()
                        > 0,
            decreases below,
        {
            let y = below - 1;
            let clusters = document.rows[y].graphemes();
            assert(texts(clusters@).len() == clusters.len());
            let entry = if y == y0 {
                x0
            } else {
                clusters.len()
            };
            let mut index = entry;
            while index > 0
                invariant
                    rows == document@,
                    x0 == saturating_add_spec(current_position.x, offset.columns),
                    y0 == saturating_add_spec(current_position.y, offset.rows),
                    seed(false, rows, x0 as int, y0 as int) == Some(symbol),
                    x0 < cluster_count(rows[y0 as int]),
                    y < rows.len(),
                    y <= y0,
                    y0 < rows.len(),
                    entry == (if y == y0 {
                        x0
                    } else {
                        clusters.len()
                    }),
                    index <= entry <= clusters.len(),
                    texts(clusters@) == crate::text::grapheme_clusters(rows[y as int]),
                    stack@.len() > 0,
                    stack@ == backward_stack(
                        rows,
                        x0 as int,
                        y0 as int,
                        symbol,
                        y as int,
                        index as int,
                    ),
                    forall|yy: int, xx: int|
                        backward_reach(rows, x0 as int, y0 as int, yy, xx) && (yy > y || (yy == y
                            && xx >= index)) ==> (#[trigger] backward_stack(
                            rows,
                            x0 as int,
                            y0 as int,
                            symbol,
                            yy,
                            xx,
                        )).len() > 0,
                decreases index,
            {
                index -= 1;
                assert(texts(clusters@)[index as int] == clusters@[index as int]@);
                meet(false, &mut stack, clusters[index].as_str());
                assert(stack@ == backward_stack(
                    rows,
                    x0 as int,
                    y0 as int,
                    symbol,
                    y as int,
                    index as int,
                ));
                if stack.len() == 0 {
                    let found = Position { x: index, y };
                    proof {
                        assert(opens_at(rows, x0 as int, y0 as int, symbol, found));
                        let chosen = choose|p: Position|
                            opens_at(rows, x0 as int, y0 as int, symbol, p);
                        lemma_opens_at_most_once(
                            rows,
                            x0 as int,
                            y0 as int,
                            symbol,
                            found,
                            chosen,
                        );
                    }
                    return Some(found);
                }
            }
            below = y;
        }
        assert forall|p: Position| !opens_at(rows, x0 as int, y0 as int, symbol, p) by {
            if backward_reach(rows, x0 as int, y0 as int, p.y as int, p.x as int) {
                assert(backward_stack(rows, x0 as int, y0 as int, symbol, p.y as int, p.x as int).len()
                    > 0);
            }
        }
        None
    }

    /// The symbol at column `x0` of row `y0`, if a search in the given
    /// direction can start from it.
    pub(crate) fn symbol_under_cursor(
        forward: bool,
        document: &Document,
        x0: usize,
        y0: usize,
    ) -> (r:
        Option<char>)
        ensures
            r == seed(forward, document@, x0 as int, y0 as int),
            r is Some ==> y0 < document@.len() && x0 < cluster_count(document@[y0 as int]),
    {
        let row = match document.get_row(RowIndex::new(y0)) {
            Some(row) => row,
            None => {
                return None;
            },
        };
        let under = row.nth_grapheme(x0);
        match single_char(under.as_str()) {
            Some(c) => if partner_of(forward, c).is_some() {
                Some(c)
            } else {
                None
            },
            None => None,
        }
    }
}

} // verus!
