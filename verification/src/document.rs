//! The document: an ordered sequence of rows, and the file it is kept in.

use crate::indexing::{
    row_index_of, saturating_add_spec, saturating_sub_spec, LineNumber, RowIndex,
};
use crate::row::{cluster_count, deleted, head, inserted, inserted_text, tail, Row};
use crate::text::{
    collect_chars, grapheme_clusters, is_newline, is_newline_cluster, split_graphemes, texts,
    trimmed_end, unicode_word_count,
};
use std::collections::hash_map::DefaultHasher;
use std::hash::Hasher;
use std::path::PathBuf;
use std::slice::Iter;
use vstd::prelude::*;
use vstd::string::StrSliceExecFns;
use vstd::string::StringExecFns;

verus! {

/// Trusted: `std::path::PathBuf`, carried through as the place where a
/// document is kept. Nothing in the library looks inside it.
#[verifier::external_type_specification]
#[verifier::external_body]
pub struct ExPathBuf(PathBuf);

/// The texts of the rows of a document, top to bottom.
pub type Lines = Seq<Seq<char>>;

/// The texts that a vector of rows holds.
pub open spec fn row_texts(rows: Seq<Row>) -> Lines {
    Seq::new(rows.len(), |i: int| rows[i]@)
}

/// `rows` after the character `c` went in at column `x` of row `y`: a new last
/// row that holds just `c` where there is no row `y`.
pub open spec fn char_inserted(rows: Lines, c: char, x: int, y: int) -> Lines {
    if y >= rows.len() {
        rows.push(seq![c])
    } else {
        rows.update(y, inserted(rows[y], x, c))
    }
}

/// `rows` after a line break went in at column `x` of row `y`. A break before
/// the last cluster of the row cuts the row in two; one at the last cluster or
/// behind it opens an empty row below. Nothing changes where there is no row
/// `y`.
pub open spec fn newline_inserted(rows: Lines, x: int, y: int) -> Lines {
    if y >= rows.len() {
        rows
    } else if x < cluster_count(rows[y]) - 1 {
        rows.update(y, head(rows[y], x)).insert(y + 1, tail(rows[y], x))
    } else {
        rows.insert(y + 1, Seq::empty())
    }
}

/// `rows` after row `y` was joined onto the row above it: the row above gets
/// `join_with`, if there is one, put in at column `x + 1`, and then the text of
/// row `y`, which leaves the document. Nothing changes for the first row or
/// where there is no row `y`.
pub open spec fn row_joined(rows: Lines, x: usize, y: int, join_with: Option<char>) -> Lines {
    if y <= 0 || y >= rows.len() {
        rows
    } else {
        let above = match join_with {
            Some(c) => inserted(rows[y - 1], saturating_add_spec(x, 1) as int, c),
            None => rows[y - 1],
        };
        rows.remove(y).update(y - 1, above + rows[y])
    }
}

/// `rows` after a deletion at column `x` of row `y`, asked for with the cursor
/// at column `from_x`. At the very start of a row that has one above it, the
/// row is joined onto the one above; elsewhere the cluster at `x` goes.
/// Nothing changes where there is no row `y`.
pub open spec fn char_deleted(rows: Lines, x: usize, from_x: usize, y: int) -> Lines {
    if y >= rows.len() {
        rows
    } else if x == 0 && from_x == 0 && y > 0 {
        row_joined(rows, x, y, None)
    } else {
        rows.update(y, deleted(rows[y], x as int))
    }
}

/// `rows` after row `index` was deleted. The only row of a document is emptied
/// and stays; nothing changes where there is no row `index`.
pub open spec fn row_deleted(rows: Lines, index: int) -> Lines {
    if rows.len() == 1 && index <= 1 {
        seq![Seq::empty()]
    } else if index < rows.len() {
        rows.remove(index)
    } else {
        rows
    }
}

/// `rows` after the clusters `text` went in one by one, the first at column
/// `x + dx` of row `y + dy`. A line feed breaks the line there and sends what
/// follows to the row below, at column `x` again; any other cluster goes into
/// the row, if there is one, and moves the column on by one.
pub open spec fn clusters_inserted(
    rows: Lines,
    text: Seq<Seq<char>>,
    x: usize,
    y: usize,
    dx: usize,
    dy: usize,
) -> Lines
    decreases text.len(),
{
    if text.len() == 0 {
        rows
    } else {
        let column = saturating_add_spec(x, dx);
        let row = saturating_add_spec(y, dy);
        if is_newline(text[0]) {
            clusters_inserted(
                newline_inserted(rows, column as int, row as int),
                text.drop_first(),
                x,
                y,
                0,
                saturating_add_spec(dy, 1),
            )
        } else if row < rows.len() {
            clusters_inserted(
                rows.update(row as int, inserted_text(rows[row as int], column as int, text[0])),
                text.drop_first(),
                x,
                y,
                saturating_add_spec(dx, 1),
                dy,
            )
        } else {
            clusters_inserted(rows, text.drop_first(), x, y, dx, dy)
        }
    }
}

/// `rows` after the clusters `text` were deleted one by one, going backwards
/// from column `x - dx` of row `y - dy`. A line feed joins the row onto the one
/// above and goes on from the last cluster of the joined row; any other
/// cluster deletes at the column and moves it back by one.
pub open spec fn clusters_deleted(
    rows: Lines,
    text: Seq<Seq<char>>,
    x: usize,
    y: usize,
    dx: usize,
    dy: usize,
) -> Lines
    decreases text.len(),
{
    if text.len() == 0 {
        rows
    } else {
        let row = saturating_sub_spec(y, dy);
        if is_newline(text[0]) {
            let joined = row_joined(rows, 0, row as int, None);
            let up = saturating_add_spec(dy, 1);
            let above = saturating_sub_spec(y, up);
            let column = if above < joined.len() {
                saturating_sub_spec(cluster_count(joined[above as int]) as usize, 1)
            } else {
                x
            };
            clusters_deleted(joined, text.drop_first(), column, y, 0, up)
        } else {
            let column = saturating_sub_spec(x, dx);
            clusters_deleted(
                char_deleted(rows, column, saturating_add_spec(column, 1), row as int),
                text.drop_first(),
                x,
                y,
                saturating_add_spec(dx, 1),
                dy,
            )
        }
    }
}

/// The sum of the word counts of `rows`.
pub open spec fn word_total(rows: Lines) -> nat
    decreases rows.len(),
{
    if rows.len() == 0 {
        0
    } else {
        word_total(rows.drop_last()) + unicode_word_count(rows.last())
    }
}

/// `line` without the carriage return at its end, if it has one there.
pub open spec fn without_carriage_return(line: Seq<char>) -> Seq<char> {
    if line.len() > 0 && line.last() == '\r' {
        line.drop_last()
    } else {
        line
    }
}

/// The lines of `text`, where `current` is what has been read of the line
/// that `text` goes on with. A line ends at a line feed, or at a carriage
/// return and a line feed, neither of which belongs to it; the last line needs
/// no line feed, and nothing after the last line feed is no line.
pub open spec fn lines_from(text: Seq<char>, current: Seq<char>) -> Lines
    decreases text.len(),
{
    if text.len() == 0 {
        if current.len() == 0 {
            Seq::empty()
        } else {
            seq![current]
        }
    } else if text[0] == '\n' {
        seq![without_carriage_return(current)] + lines_from(text.drop_first(), Seq::empty())
    } else {
        lines_from(text.drop_first(), current.push(text[0]))
    }
}

/// The lines of `text`.
pub open spec fn text_lines(text: Seq<char>) -> Lines {
    lines_from(text, Seq::empty())
}

/// The text of a file that holds `rows`: every row, each closed by a line
/// feed.
pub open spec fn file_text(rows: Lines) -> Seq<char>
    decreases rows.len(),
{
    if rows.len() == 0 {
        Seq::empty()
    } else {
        (file_text(rows.drop_last()) + rows.last()).push('\n')
    }
}

/// The index behind the last slash of `path`; zero where it holds none.
pub open spec fn file_name_start(path: Seq<char>) -> int
    decreases path.len(),
{
    if path.len() == 0 {
        0
    } else if path.last() == '/' {
        path.len() as int
    } else {
        file_name_start(path.drop_last())
    }
}

/// `path` without the slashes and the `.` components at its end, which do
/// not count when a path is taken apart: `a/b/` and `a/b/.` both end in `b`.
pub open spec fn without_trailing_separators(path: Seq<char>) -> Seq<char>
    decreases path.len(),
{
    if path.len() > 0 && path.last() == '/' {
        without_trailing_separators(path.drop_last())
    } else if path.len() >= 2 && path.last() == '.' && path[path.len() - 2] == '/' {
        without_trailing_separators(path.drop_last())
    } else {
        path
    }
}

/// The name of the file that `path` ends in: what stands behind the last
/// slash of the path without the separators at its end.
pub open spec fn file_name_of(path: Seq<char>) -> Seq<char> {
    let kept = without_trailing_separators(path);
    kept.skip(file_name_start(kept))
}

/// Whether `path` names a file: the name that it ends in is not empty and is
/// neither `.` nor `..`.
pub open spec fn names_a_file(path: Seq<char>) -> bool {
    let name = file_name_of(path);
    name.len() > 0 && name != seq!['.'] && name != seq!['.', '.']
}

/// The name of the swap file of the file `path`: in the same directory, the
/// name of the file between a dot and `.swp`.
pub open spec fn swap_name(path: Seq<char>) -> Seq<char> {
    let kept = without_trailing_separators(path);
    kept.take(file_name_start(kept)).push('.') + file_name_of(path) + ".swp"@
}

/// The bytes that the hash of a document is taken of: the UTF-8 encoding of
/// each row, top to bottom, each closed by the byte `0xFF`, which no encoding
/// holds.
pub open spec fn hash_input(rows: Lines) -> Seq<u8>
    decreases rows.len(),
{
    if rows.len() == 0 {
        Seq::empty()
    } else {
        (hash_input(rows.drop_last()) + vstd::utf8::encode_utf8(rows.last())).push(0xFF)
    }
}

/// The 64-bit hash that the standard library's default hasher gives to a
/// sequence of bytes.
pub uninterp spec fn content_digest(bytes: Seq<u8>) -> u64;

/// Trusted: a fresh `DefaultHasher`, fed `bytes` with `Hasher::write` and
/// closed with `Hasher::finish`. A fresh hasher holds fixed keys, so the
/// result depends on the bytes alone; it is what [`content_digest`] names.
#[verifier::external_body]
fn digest(bytes: &[u8]) -> (r: u64)
    ensures
        r == content_digest(bytes@),
{
    let mut hasher = DefaultHasher::new();
    hasher.write(bytes);
    hasher.finish()
}

/// A text document: its rows, and the file it belongs to, if any.
#[derive(Debug)]
pub struct Document {
    pub rows: Vec<Row>,
    pub filename: Option<PathBuf>,
}

impl View for Document {
    type V = Lines;

    open spec fn view(&self) -> Lines {
        row_texts(self.rows@)
    }
}

impl Default for Document {
    /// A document of one empty row, kept in no file.
    fn default() -> (r: Self)
        ensures
            r@ == seq![Seq::<char>::empty()],
            r.filename is None,
            r.well_formed(),
    {
        let rows = vec![Row::default()];
        assert(row_texts(rows@) =~= seq![Seq::<char>::empty()]);
        Self { rows, filename: None }
    }
}

impl Document {
    /// Whether the document has a row. Every operation that changes the rows
    /// keeps a document that has one from losing its last.
    pub open spec fn well_formed(&self) -> bool {
        self@.len() >= 1
    }

    /// A document of the rows `rows`, to be kept in `filename`. A document
    /// always has a row: without any in `rows` it gets one empty row.
    #[must_use]
    pub fn new(rows: Vec<Row>, filename: PathBuf) -> (r: Self)
        ensures
            r@ == (if rows@.len() == 0 {
                seq![Seq::<char>::empty()]
            } else {
                row_texts(rows@)
            }),
            rows@.len() > 0 ==> r.rows == rows,
            r.filename == Some(filename),
            r.well_formed(),
    {
        if rows.len() == 0 {
            Self::new_empty(filename)
        } else {
            Self { rows, filename: Some(filename) }
        }
    }

    /// A document of one empty row, to be kept in `filename`.
    #[must_use]
    pub fn new_empty(filename: PathBuf) -> (r: Self)
        ensures
            r@ == seq![Seq::<char>::empty()],
            r.filename == Some(filename),
            r.well_formed(),
    {
        let rows = vec![Row::default()];
        assert(row_texts(rows@) =~= seq![Seq::<char>::empty()]);
        Self { rows, filename: Some(filename) }
    }

    /// The row at `index`, if the document has it.
    #[must_use]
    pub fn get_row(&self, index: RowIndex) -> (r: Option<&Row>)
        ensures
            index.value < self@.len() ==> r is Some && r->0@ == self@[index.value as int],
            index.value >= self@.len() ==> r is None,
    {
        if index.value < self.rows.len() {
            Some(&self.rows[index.value])
        } else {
            None
        }
    }

    /// Takes row `index` out of the document and returns it.
    pub fn remove_row(&mut self, index: RowIndex) -> (r: Row)
        requires
            index.value < old(self)@.len(),
        ensures
            r@ == old(self)@[index.value as int],
            final(self)@ == old(self)@.remove(index.value as int),
            final(self).filename == old(self).filename,
    {
        let row = self.rows.remove(index.value);
        assert(row_texts(self.rows@) =~= row_texts(old(self).rows@).remove(index.value as int));
        row
    }

    /// The number of clusters of each row, top to bottom.
    #[must_use]
    pub fn row_lengths(&self) -> (r: Vec<usize>)
        ensures
            r@.len() == self@.len(),
            forall|i: int| 0 <= i < self@.len() ==> r@[i] == cluster_count(#[trigger] self@[i]),
    {
        let mut lengths: Vec<usize> = Vec::new();
        let mut i: usize = 0;
        while i < self.rows.len()
            invariant
                i <= self.rows.len(),
                lengths@.len() == i,
                forall|j: int| 0 <= j < i ==> lengths@[j] == cluster_count(#[trigger] self@[j]),
            decreases self.rows.len() - i,
        {
            lengths.push(self.rows[i].len());
            i += 1;
        }
        lengths
    }

    /// Whether the document has no row at all.
    #[must_use]
    pub fn is_empty(&self) -> (r: bool)
        ensures
            r == (self@.len() == 0),
    {
        self.rows.len() == 0
    }

    /// The number of rows.
    #[must_use]
    pub fn num_rows(&self) -> (r: usize)
        ensures
            r == self@.len(),
    {
        self.rows.len()
    }

    /// The number of words in the document, held at `usize::MAX`.
    #[must_use]
    pub fn num_words(&self) -> (r: usize)
        ensures
            r == if word_total(self@) > usize::MAX {
                usize::MAX as nat
            } else {
                word_total(self@)
            },
    {
        let mut total: usize = 0;
        let mut i: usize = 0;
        while i < self.rows.len()
            invariant
                i <= self.rows.len(),
                total == if word_total(self@.take(i as int)) > usize::MAX {
                    usize::MAX as nat
                } else {
                    word_total(self@.take(i as int))
                },
            decreases self.rows.len() - i,
        {
            proof {
                assert(self@.take(i + 1).drop_last() =~= self@.take(i as int));
            }
            total = total.saturating_add(self.rows[i].num_words());
            i += 1;
        }
        assert(self@.take(i as int) =~= self@);
        total
    }

    /// The row that `line_number` names.
    #[must_use]
    pub fn row_for_line_number(&self, line_number: LineNumber) -> (r: Option<&Row>)
        ensures
            row_index_of(line_number).value < self@.len() ==> r is Some && r->0@
                == self@[row_index_of(line_number).value as int],
            row_index_of(line_number).value >= self@.len() ==> r is None,
    {
        self.get_row(RowIndex::from(line_number))
    }

    /// The number of the last line of the document.
    #[must_use]
    pub fn last_line_number(&self) -> (r: LineNumber)
        ensures
            r.value == self@.len(),
    {
        LineNumber::new(self.num_rows())
    }

    /// Removes the whitespace at the end of every row.
    pub fn trim_trailing_spaces(&mut self)
        ensures
            final(self)@.len() == old(self)@.len(),
            forall|i: int|
                0 <= i < old(self)@.len() ==> (#[trigger] final(self)@[i]) == trimmed_end(
                    old(self)@[i],
                ),
            final(self).filename == old(self).filename,
    {
        let mut i: usize = 0;
        while i < self.rows.len()
            invariant
                i <= self.rows.len(),
                self.rows.len() == old(self).rows.len(),
                self.filename == old(self).filename,
                forall|j: int|
                    0 <= j < i ==> (#[trigger] self.rows@[j])@ == trimmed_end(old(self).rows@[j]@),
                forall|j: int|
                    i <= j < self.rows.len() ==> (#[trigger] self.rows@[j]) == old(self).rows@[j],
            decreases self.rows.len() - i,
        {
            self.rows[i].trim_end_inplace();
            i += 1;
        }
    }

    /// Puts `c` in at column `x` of row `y`; where there is no row `y`, `c`
    /// becomes a new last row.
    pub fn insert(&mut self, c: char, x: usize, y: RowIndex)
        ensures
            final(self)@ == char_inserted(old(self)@, c, x as int, y.value as int),
            final(self).filename == old(self).filename,
            final(self).well_formed(),
    {
        if y.value >= self.rows.len() {
            let mut string = String::new();
            string.push(c);
            assert(string@ =~= seq![c]);
            self.rows.push(Row { string });
            assert(self@ =~= char_inserted(old(self)@, c, x as int, y.value as int));
        } else {
            self.rows[y.value].insert(x, c);
            assert(self@ =~= char_inserted(old(self)@, c, x as int, y.value as int));
        }
    }

    /// Breaks the line at column `x` of row `y`.
    pub fn insert_newline(&mut self, x: usize, y: RowIndex)
        ensures
            final(self)@ == newline_inserted(old(self)@, x as int, y.value as int),
            final(self).filename == old(self).filename,
            old(self).well_formed() ==> final(self).well_formed(),
    {
        if y.value >= self.rows.len() {
            return ;
        }
        let length = self.rows[y.value].len();
        if x < length.saturating_sub(1) {
            let split_row = self.rows[y.value].split(x);
            self.rows.insert(y.value + 1, split_row);
        } else {
            self.rows.insert(y.value + 1, Row::default());
        }
        assert(self@ =~= newline_inserted(old(self)@, x as int, y.value as int));
    }

    /// Deletes at column `x` of row `y`; with `x` and `from_x` both zero,
    /// below the first row, joins row `y` onto the row above instead.
    pub fn delete(&mut self, x: usize, from_x: usize, y: RowIndex)
        ensures
            final(self)@ == char_deleted(old(self)@, x, from_x, y.value as int),
            final(self).filename == old(self).filename,
            old(self).well_formed() ==> final(self).well_formed(),
    {
        if y.value >= self.rows.len() {
            return ;
        }
        if x == 0 && from_x == 0 && y.value > 0 {
            self.join_row_with_previous_one(x, y, None);
        } else {
            self.rows[y.value].delete(x);
            assert(self@ =~= char_deleted(old(self)@, x, from_x, y.value as int));
        }
    }

    /// Deletes row `index`; the only row of a document is emptied instead.
    pub fn delete_row(&mut self, index: RowIndex)
        ensures
            final(self)@ == row_deleted(old(self)@, index.value as int),
            final(self).filename == old(self).filename,
            old(self).well_formed() ==> final(self).well_formed(),
    {
        if index.value > self.rows.len() {
        } else if self.rows.len() == 1 {
            self.rows[0].string = String::new();
            assert(self@ =~= seq![Seq::<char>::empty()]);
        } else if index.value < self.rows.len() {
            let _ = self.remove_row(index);
        }
    }

    /// Joins row `y` onto the row above it, with `join_with` put in between at
    /// column `x + 1` of the row above. Does nothing for the first row or
    /// where there is no row `y`.
    pub fn join_row_with_previous_one(&mut self, x: usize, y: RowIndex, join_with: Option<char>)
        ensures
            final(self)@ == row_joined(old(self)@, x, y.value as int, join_with),
            final(self).filename == old(self).filename,
            old(self).well_formed() ==> final(self).well_formed(),
    {
        if y.value == 0 || y.value >= self.rows.len() {
            return ;
        }
        let current_row = self.remove_row(y);
        let ghost removed = self@;
        assert(removed.len() == self.rows@.len());
        assert(old(self)@.len() == old(self).rows@.len());
        assert(removed[y.value - 1] == old(self)@[y.value - 1]);
        if let Some(join_char) = join_with {
            self.rows[y.value - 1].insert(x.saturating_add(1), join_char);
        }
        let ghost above = self@[y.value - 1];
        assert(self@ =~= removed.update(y.value - 1, above));
        self.rows[y.value - 1].append(&current_row);
        assert(self@ =~= removed.update(y.value - 1, above + current_row@));
        assert(self@ =~= row_joined(old(self)@, x, y.value as int, join_with));
    }

    /// Puts `text` into the document cluster by cluster, starting at column
    /// `x` of row `y`.
    pub fn insert_string(&mut self, text: &str, x: usize, y: RowIndex)
        ensures
            final(self)@ == clusters_inserted(
                old(self)@,
                grapheme_clusters(text@),
                x,
                y.value,
                0,
                0,
            ),
            final(self).filename == old(self).filename,
            old(self).well_formed() ==> final(self).well_formed(),
    {
        let clusters = split_graphemes(text);
        let ghost g = texts(clusters@);
        let mut delta_x: usize = 0;
        let mut delta_y: usize = 0;
        let mut i: usize = 0;
        assert(g.skip(0) =~= g);
        while i < clusters.len()
            invariant
                i <= clusters.len(),
                g == texts(clusters@),
                self.filename == old(self).filename,
                old(self).well_formed() ==> self.well_formed(),
                clusters_inserted(self@, g.skip(i as int), x, y.value, delta_x, delta_y)
                    == clusters_inserted(old(self)@, g, x, y.value, 0, 0),
            decreases clusters.len() - i,
        {
            proof {
                assert(g.skip(i as int).drop_first() =~= g.skip(i + 1));
                assert(g.skip(i as int)[0] == g[i as int]);
            }
            let column = x.saturating_add(delta_x);
            let row = y.value.saturating_add(delta_y);
            if is_newline_cluster(clusters[i].as_str()) {
                self.insert_newline(column, RowIndex::new(row));
                delta_x = 0;
                delta_y = delta_y.saturating_add(1);
            } else if row < self.rows.len() {
                let ghost before = self@;
                self.rows[row].insert_str(column, clusters[i].as_str());
                assert(self@ =~= before.update(
                    row as int,
                    inserted_text(before[row as int], column as int, g[i as int]),
                ));
                delta_x = delta_x.saturating_add(1);
            }
            i += 1;
        }
    }

    /// Deletes `text` from the document cluster by cluster, going backwards
    /// from column `x` of row `y`.
    pub fn delete_string(&mut self, text: &str, x: usize, y: RowIndex)
        ensures
            final(self)@ == clusters_deleted(
                old(self)@,
                grapheme_clusters(text@),
                x,
                y.value,
                0,
                0,
            ),
            final(self).filename == old(self).filename,
            old(self).well_formed() ==> final(self).well_formed(),
    {
        let clusters = split_graphemes(text);
        let ghost g = texts(clusters@);
        let start_x = x;
        let mut x = x;
        let mut delta_x: usize = 0;
        let mut delta_y: usize = 0;
        let mut i: usize = 0;
        assert(g.skip(0) =~= g);
        while i < clusters.len()
            invariant
                i <= clusters.len(),
                g == texts(clusters@),
                self.filename == old(self).filename,
                old(self).well_formed() ==> self.well_formed(),
                clusters_deleted(self@, g.skip(i as int), x, y.value, delta_x, delta_y)
                    == clusters_deleted(old(self)@, g, start_x, y.value, 0, 0),
            decreases clusters.len() - i,
        {
            proof {
                assert(g.skip(i as int).drop_first() =~= g.skip(i + 1));
                assert(g.skip(i as int)[0] == g[i as int]);
            }
            if is_newline_cluster(clusters[i].as_str()) {
                self.join_row_with_previous_one(
                    0,
                    RowIndex::new(y.value.saturating_sub(delta_y)),
                    None,
                );
                delta_y = delta_y.saturating_add(1);
                delta_x = 0;
                let above = y.value.saturating_sub(delta_y);
                if above < self.rows.len() {
                    x = self.rows[above].len().saturating_sub(1);
                }
            } else {
                let column = x.saturating_sub(delta_x);
                self.delete(
                    column,
                    column.saturating_add(1),
                    RowIndex::new(y.value.saturating_sub(delta_y)),
                );
                delta_x = delta_x.saturating_add(1);
            }
            i += 1;
        }
    }

    /// A hash of the text of the document, for telling cheaply whether it
    /// has changed: documents with the same rows have the same hash.
    #[must_use]
    pub fn hashed(&self) -> (r: u64)
        ensures
            r == content_digest(hash_input(self@)),
    {
        let mut bytes: Vec<u8> = Vec::new();
        let mut i: usize = 0;
        while i < self.rows.len()
            invariant
                i <= self.rows.len(),
                bytes@ == hash_input(self@.take(i as int)),
            decreases self.rows.len() - i,
        {
            proof {
                assert(self@.take(i + 1).drop_last() =~= self@.take(i as int));
            }
            bytes.extend_from_slice(self.rows[i].as_bytes());
            bytes.push(0xFF);
            i += 1;
        }
        assert(self@.take(i as int) =~= self@);
        digest(bytes.as_slice())
    }

    /// An iterator over the rows, top to bottom.
    pub fn iter(&self) -> (r: Iter<'_, Row>)
        ensures
            vstd::std_specs::slice::into_iter_elts(r) == self.rows@,
    {
        self.rows.as_slice().iter()
    }

    /// The document that the text of a file holds, to be kept in `filename`:
    /// one row for each line of `text`, and one empty row where `text` has no
    /// line.
    #[must_use]
    pub fn from_text(text: &str, filename: PathBuf) -> (r: Self)
        ensures
            r@ == (if text_lines(text@).len() == 0 {
                seq![Seq::<char>::empty()]
            } else {
                text_lines(text@)
            }),
            r.filename == Some(filename),
            r.well_formed(),
    {
        let mut rows: Vec<Row> = Vec::new();
        let mut current = String::new();
        assert(row_texts(rows@) =~= Seq::<Seq<char>>::empty());
        assert(text@.skip(0) =~= text@);
        for c in iter: text.chars()
            invariant
                iter.seq() == text@,
                row_texts(rows@) + lines_from(text@.skip(iter.index() as int), current@)
                    == lines_from(text@, Seq::empty()),
        {
            proof {
                let rest = text@.skip(iter.index() as int);
                assert(rest[0] == c);
                assert(rest.drop_first() =~= text@.skip(iter.index() + 1));
            }
            if c == '\n' {
                let ghost before = row_texts(rows@);
                let line = Self::strip_carriage_return(current);
                assert(line@ == without_carriage_return(current@));
                rows.push(Row { string: line });
                assert(row_texts(rows@) =~= before.push(without_carriage_return(current@)));
                current = String::new();
            } else {
                current.push(c);
            }
        }
        if current.as_str().unicode_len() > 0 {
            let ghost before = row_texts(rows@);
            rows.push(Row { string: current });
            assert(row_texts(rows@) =~= before.push(current@));
        } else {
            assert(row_texts(rows@) + Seq::<Seq<char>>::empty() =~= row_texts(rows@));
        }
        if rows.len() == 0 {
            rows.push(Row::default());
            assert(row_texts(rows@) =~= seq![Seq::<char>::empty()]);
        }
        Self { rows, filename: Some(filename) }
    }

    /// `line` without the carriage return at its end, if it has one there.
    fn strip_carriage_return(line: String) -> (r: String)
        ensures
            r@ == without_carriage_return(line@),
    {
        let length = line.as_str().unicode_len();
        if length > 0 && line.as_str().get_char(length - 1) == '\r' {
            let kept = String::from_str(line.as_str().substring_char(0, length - 1));
            assert(kept@ =~= line@.drop_last());
            kept
        } else {
            line
        }
    }

    /// The text of the file that holds the document: every row, each closed
    /// by a line feed.
    #[must_use]
    pub fn to_text(&self) -> (r: String)
        ensures
            r@ == file_text(self@),
    {
        let mut out = String::new();
        let mut i: usize = 0;
        while i < self.rows.len()
            invariant
                i <= self.rows.len(),
                out@ == file_text(self@.take(i as int)),
            decreases self.rows.len() - i,
        {
            proof {
                assert(self@.take(i + 1).drop_last() =~= self@.take(i as int));
            }
            out.append(self.rows[i].string.as_str());
            out.push('\n');
            i += 1;
        }
        assert(self@.take(i as int) =~= self@);
        out
    }

    /// The path `chars` without the slashes and the `.` components at its
    /// end.
    fn strip_separators(chars: &Vec<char>) -> (r: Vec<char>)
        ensures
            r@ == without_trailing_separators(chars@),
    {
        let mut end: usize = chars.len();
        assert(chars@.take(end as int) =~= chars@);
        while end > 0 && (chars[end - 1] == '/' || (end >= 2 && chars[end - 1] == '.' && chars[end
            - 2] == '/'))
            invariant
                end <= chars.len(),
                without_trailing_separators(chars@.take(end as int))
                    == without_trailing_separators(chars@),
            decreases end,
        {
            proof {
                let kept = chars@.take(end as int);
                assert(kept.drop_last() =~= chars@.take(end - 1));
                assert(kept.last() == chars@[end - 1]);
                if end >= 2 {
                    assert(kept[kept.len() - 2] == chars@[end - 2]);
                }
            }
            end -= 1;
        }
        proof {
            let kept = chars@.take(end as int);
            if end > 0 {
                assert(kept.last() == chars@[end - 1]);
            }
            if end >= 2 {
                assert(kept[kept.len() - 2] == chars@[end - 2]);
            }
            assert(without_trailing_separators(kept) == kept);
        }
        let mut out: Vec<char> = Vec::new();
        let mut i: usize = 0;
        while i < end
            invariant
                i <= end <= chars.len(),
                out@ == chars@.take(i as int),
            decreases end - i,
        {
            out.push(chars[i]);
            assert(chars@.take(i + 1) =~= chars@.take(i as int).push(chars@[i as int]));
            i += 1;
        }
        out
    }

    /// The name of the swap file that goes with the file `filename`, in
    /// which the document is kept between two saves; `None` where `filename`
    /// names no file.
    #[must_use]
    pub fn swap_filename(filename: &str) -> (r: Option<String>)
        ensures
            names_a_file(filename@) ==> r is Some && r->0@ == swap_name(filename@),
            !names_a_file(filename@) ==> r is None,
    {
        let given = collect_chars(filename);
        let chars = Self::strip_separators(&given);
        let mut start: usize = chars.len();
        assert(chars@.take(start as int) =~= chars@);
        while start > 0 && chars[start - 1] != '/'
            invariant
                start <= chars.len(),
                file_name_start(chars@.take(start as int)) == file_name_start(chars@),
            decreases start,
        {
            assert(chars@.take(start as int).drop_last() =~= chars@.take(start - 1));
            start -= 1;
        }
        assert(file_name_start(chars@) == start) by {
            if start > 0 {
                assert(chars@.take(start as int).last() == '/');
            } else {
                assert(chars@.take(0).len() == 0);
            }
        }
        let length = chars.len() - start;
        assert(chars@.skip(start as int).len() == length);
        if length == 0 {
            return None;
        }
        if length == 1 && chars[start] == '.' {
            assert(chars@.skip(start as int) =~= seq!['.']);
            return None;
        }
        if length == 2 && chars[start] == '.' && chars[start + 1] == '.' {
            assert(chars@.skip(start as int) =~= seq!['.', '.']);
            return None;
        }
        proof {
            let name = chars@.skip(start as int);
            if name == seq!['.'] {
                assert(name.len() == 1);
                assert(name[0] == chars@[start as int]);
            }
            if name == seq!['.', '.'] {
                assert(name.len() == 2);
                assert(name[0] == chars@[start as int]);
                assert(name[1] == chars@[start + 1]);
            }
        }
        let mut out = String::new();
        let mut i: usize = 0;
        while i < start
            invariant
                i <= start <= chars.len(),
                out@ == chars@.take(i as int),
            decreases start - i,
        {
            out.push(chars[i]);
            assert(chars@.take(i + 1) =~= chars@.take(i as int).push(chars@[i as int]));
            i += 1;
        }
        out.push('.');
        while i < chars.len()
            invariant
                start <= i <= chars.len(),
                out@ == chars@.take(start as int).push('.') + chars@.subrange(
                    start as int,
                    i as int,
                ),
            decreases chars.len() - i,
        {
            out.push(chars[i]);
            assert(chars@.subrange(start as int, i + 1) =~= chars@.subrange(
                start as int,
                i as int,
            ).push(chars@[i as int]));
            i += 1;
        }
        assert(chars@.subrange(start as int, chars@.len() as int) =~= chars@.skip(start as int));
        out.append(".swp");
        Some(out)
    }
}

} // verus!
