//! The undo history: a bounded log of edits, each of which can be turned
//! into the edit that takes it back.

use crate::document::{clusters_deleted, clusters_inserted, Document, Lines};
use crate::editor::Position;
use crate::indexing::{saturating_add_spec, saturating_sub_spec, RowIndex};
use crate::row::cluster_count;
use crate::text::{grapheme_clusters, is_newline, is_newline_cluster, split_graphemes, texts};
use std::collections::VecDeque;
use std::time::Instant;
use vstd::prelude::*;
use vstd::string::StringExecFns;

verus! {

/// The number of seconds after which an edit no longer joins the one before
/// it.
pub const TIME_AFTER_WHICH_OPERATION_COMMITS: u64 = 1;

/// The number of operations that the history keeps.
pub const HISTORY_SIZE: usize = 8;

/// Trusted: `std::time::Instant`, a point in time. The history keeps the time
/// of its last edit in one; nothing is stated of its value.
#[verifier::external_type_specification]
#[verifier::external_body]
pub struct ExInstant(Instant);

/// Trusted: `Instant::now`, the current time. Nothing is promised of it.
#[verifier::external_body]
fn now() -> Instant {
    Instant::now()
}

/// Trusted: `Instant::elapsed`, in whole seconds: the time that has passed
/// since `since`. It depends on the clock, so nothing is promised of it.
#[verifier::external_body]
fn seconds_since(since: &Instant) -> u64 {
    since.elapsed().as_secs()
}

/// Whether an edit put text in or took text out.
#[derive(Debug, PartialEq, Eq, Structural, Clone, Copy)]
pub enum OperationType {
    Insert,
    Delete,
}

impl OperationType {
    /// The other type.
    pub open spec fn flipped(self) -> Self {
        match self {
            OperationType::Insert => OperationType::Delete,
            OperationType::Delete => OperationType::Insert,
        }
    }

    /// The type of the edit that takes back an edit of this type.
    pub fn reversed(self) -> (r: Self)
        ensures
            r == self.flipped(),
    {
        match self {
            OperationType::Insert => OperationType::Delete,
            OperationType::Delete => OperationType::Insert,
        }
    }
}

/// One edit: the text that was inserted or deleted, where it began, and
/// which of the two it was.
#[derive(Debug, PartialEq)]
pub struct Operation {
    pub content: String,
    pub start_position: Position,
    pub op_type: OperationType,
}

/// What an [`Operation`] holds, with its text as a sequence of characters.
pub struct OperationView {
    pub content: Seq<char>,
    pub start_position: Position,
    pub op_type: OperationType,
}

impl View for Operation {
    type V = OperationView;

    open spec fn view(&self) -> OperationView {
        OperationView {
            content: self.content@,
            start_position: self.start_position,
            op_type: self.op_type,
        }
    }
}

/// Where the cursor stands after the clusters `text` were inserted with the
/// cursor at column `x` of row `y`: every line feed moves it to the start of
/// the next row, every other cluster one column on, and at the end it steps
/// back onto the last cluster.
pub open spec fn end_of_insert(text: Seq<Seq<char>>, x: usize, y: usize) -> Position
    decreases text.len(),
{
    if text.len() == 0 {
        Position { x: saturating_sub_spec(x, 1), y }
    } else if is_newline(text[0]) {
        end_of_insert(text.drop_first(), 0, saturating_add_spec(y, 1))
    } else {
        end_of_insert(text.drop_first(), saturating_add_spec(x, 1), y)
    }
}

/// Where the cursor stands after the clusters `text` were deleted with the
/// cursor at column `x` of row `y`: every line feed moves it up to the row
/// above, behind that row's last cluster as `lengths` gives it (to column 0
/// where `lengths` has no such row), every other cluster one column back.
pub open spec fn end_of_delete(text: Seq<Seq<char>>, lengths: Seq<usize>, x: usize, y: usize)
    -> Position
    decreases text.len(),
{
    if text.len() == 0 {
        Position { x, y }
    } else if is_newline(text[0]) {
        let above = saturating_sub_spec(y, 1);
        let column = if above < lengths.len() {
            lengths[above as int]
        } else {
            0
        };
        end_of_delete(text.drop_first(), lengths, column, above)
    } else {
        end_of_delete(text.drop_first(), lengths, saturating_sub_spec(x, 1), y)
    }
}

/// Where the cursor stands at the end of the operation `op`, in a document
/// whose rows have the lengths `lengths`.
pub open spec fn end_position_spec(op: OperationView, lengths: Seq<usize>) -> Position {
    match op.op_type {
        OperationType::Insert => end_of_insert(
            grapheme_clusters(op.content),
            op.start_position.x,
            op.start_position.y,
        ),
        OperationType::Delete => end_of_delete(
            grapheme_clusters(op.content),
            lengths,
            op.start_position.x,
            op.start_position.y,
        ),
    }
}

/// The operation that takes `op` back: of the other type, with the clusters
/// of the text in reverse order, starting where `op` ends.
pub open spec fn reversed_spec(op: OperationView, lengths: Seq<usize>) -> OperationView {
    OperationView {
        content: grapheme_clusters(op.content).reverse().flatten(),
        start_position: end_position_spec(op, lengths),
        op_type: op.op_type.flipped(),
    }
}

/// `rows` after the operation `op` was applied to them.
pub open spec fn applied(rows: Lines, op: OperationView) -> Lines {
    match op.op_type {
        OperationType::Insert => clusters_inserted(
            rows,
            grapheme_clusters(op.content),
            op.start_position.x,
            op.start_position.y,
            0,
            0,
        ),
        OperationType::Delete => clusters_deleted(
            rows,
            grapheme_clusters(op.content),
            op.start_position.x,
            op.start_position.y,
            0,
            0,
        ),
    }
}

/// The numbers of clusters of `rows`, top to bottom.
pub open spec fn lengths_of(rows: Lines) -> Seq<usize> {
    Seq::new(rows.len(), |i: int| cluster_count(rows[i]) as usize)
}

/// The views of the operations in `ops`.
pub open spec fn operation_views(ops: Seq<Operation>) -> Seq<OperationView> {
    Seq::new(ops.len(), |i: int| ops[i]@)
}

/// `log` with `op` as its newest entry. A log that holds [`HISTORY_SIZE`]
/// entries loses its oldest.
pub open spec fn pushed(log: Seq<OperationView>, op: OperationView) -> Seq<OperationView> {
    if log.len() == HISTORY_SIZE {
        log.drop_first().push(op)
    } else {
        log.push(op)
    }
}

/// `log` after an edit of type `op_type` with the text `text` at `position`,
/// `seconds` whole seconds after the edit before it. The edit joins the newest
/// entry, whose text grows by `text`, where that entry is of the same type and
/// less than [`TIME_AFTER_WHICH_OPERATION_COMMITS`] seconds have passed;
/// otherwise it becomes a new entry.
pub open spec fn registered(
    log: Seq<OperationView>,
    text: Seq<char>,
    position: Position,
    op_type: OperationType,
    seconds: u64,
) -> Seq<OperationView> {
    let fresh = OperationView { content: text, start_position: position, op_type };
    if seconds >= TIME_AFTER_WHICH_OPERATION_COMMITS || log.len() == 0 {
        pushed(log, fresh)
    } else if log.last().op_type == op_type {
        log.update(
            log.len() - 1,
            OperationView {
                content: log.last().content + text,
                start_position: log.last().start_position,
                op_type,
            },
        )
    } else {
        pushed(log, fresh)
    }
}

/// The clusters of `clusters` joined into one string, last cluster first.
pub fn concat_reversed(clusters: &Vec<String>) -> (r: String)
    ensures
        r@ == texts(clusters@).reverse().flatten(),
{
    let ghost g = texts(clusters@);
    let mut out = String::new();
    let mut i: usize = clusters.len();
    assert(g.subrange(i as int, g.len() as int).reverse() =~= Seq::<Seq<char>>::empty());
    while i > 0
        invariant
            i <= clusters.len(),
            g == texts(clusters@),
            out@ == g.subrange(i as int, g.len() as int).reverse().flatten(),
        decreases i,
    {
        i -= 1;
        proof {
            let done = g.subrange(i + 1, g.len() as int).reverse();
            assert(g.subrange(i as int, g.len() as int).reverse() =~= done.push(g[i as int]));
            done.lemma_flatten_push(g[i as int]);
        }
        out.append(clusters[i].as_str());
    }
    assert(g.subrange(0, g.len() as int) =~= g);
    out
}

impl Operation {
    /// Puts `text` at the end of the text of the operation.
    fn mut_push(&mut self, text: &str)
        ensures
            final(self)@ == (OperationView {
                content: old(self)@.content + text@,
                start_position: old(self)@.start_position,
                op_type: old(self)@.op_type,
            }),
    {
        self.content.append(text);
    }

    /// The position of the cursor at the end of the operation, in a
    /// document whose rows have the lengths `document_rows_length`.
    #[must_use]
    pub fn end_position(&self, document_rows_length: &[usize]) -> (r: Position)
        ensures
            r == end_position_spec(self@, document_rows_length@),
    {
        let clusters = split_graphemes(self.content.as_str());
        Self::walk(&clusters, self.op_type, self.start_position, document_rows_length)
    }

    /// The position of the cursor after an operation of type `op_type` with
    /// the text `clusters`, begun at `start`.
    pub fn walk(
        clusters: &Vec<String>,
        op_type: OperationType,
        start: Position,
        document_rows_length: &[usize],
    ) -> (r: Position)
        ensures
            r == match op_type {
                OperationType::Insert => end_of_insert(texts(clusters@), start.x, start.y),
                OperationType::Delete => end_of_delete(
                    texts(clusters@),
                    document_rows_length@,
                    start.x,
                    start.y,
                ),
            },
    {
        let ghost g = texts(clusters@);
        let mut x: usize = start.x;
        let mut y: usize = start.y;
        let mut i: usize = 0;
        assert(g.skip(0) =~= g);
        match op_type {
            OperationType::Insert => {
                while i < clusters.len()
                    invariant
                        i <= clusters.len(),
                        g == texts(clusters@),
                        end_of_insert(g.skip(i as int), x, y) == end_of_insert(
                            g,
                            start.x,
                            start.y,
                        ),
                    decreases clusters.len() - i,
                {
                    proof {
                        assert(g.skip(i as int).drop_first() =~= g.skip(i + 1));
                        assert(g.skip(i as int)[0] == g[i as int]);
                    }
                    if is_newline_cluster(clusters[i].as_str()) {
                        x = 0;
                        y = y.saturating_add(1);
                    } else {
                        x = x.saturating_add(1);
                    }
                    i += 1;
                }
                Position { x: x.saturating_sub(1), y }
            },
            OperationType::Delete => {
                while i < clusters.len()
                    invariant
                        i <= clusters.len(),
                        g == texts(clusters@),
                        end_of_delete(g.skip(i as int), document_rows_length@, x, y)
                            == end_of_delete(g, document_rows_length@, start.x, start.y),
                    decreases clusters.len() - i,
                {
                    proof {
                        assert(g.skip(i as int).drop_first() =~= g.skip(i + 1));
                        assert(g.skip(i as int)[0] == g[i as int]);
                    }
                    if is_newline_cluster(clusters[i].as_str()) {
                        y = y.saturating_sub(1);
                        x = if y < document_rows_length.len() {
                            document_rows_length[y]
                        } else {
                            0
                        };
                    } else {
                        x = x.saturating_sub(1);
                    }
                    i += 1;
                }
                Position { x, y }
            },
        }
    }

    /// Applies the operation to `document`: puts its text in from its start
    /// on, or deletes it going backwards from there. Applied to the document,
    /// the reversal of an operation undoes it.
    pub fn apply(&self, document: &mut Document)
        ensures
            final(document)@ == applied(old(document)@, self@),
            final(document).filename == old(document).filename,
            old(document).well_formed() ==> final(document).well_formed(),
    {
        match self.op_type {
            OperationType::Insert => document.insert_string(
                self.content.as_str(),
                self.start_position.x,
                RowIndex::new(self.start_position.y),
            ),
            OperationType::Delete => document.delete_string(
                self.content.as_str(),
                self.start_position.x,
                RowIndex::new(self.start_position.y),
            ),
        }
    }

    /// The operation that takes this one back.
    #[must_use]
    pub fn reversed(&self, document_rows_length: &[usize]) -> (r: Self)
        ensures
            r@ == reversed_spec(self@, document_rows_length@),
    {
        let clusters = split_graphemes(self.content.as_str());
        Self {
            content: concat_reversed(&clusters),
            op_type: self.op_type.reversed(),
            start_position: Self::walk(
                &clusters,
                self.op_type,
                self.start_position,
                document_rows_length,
            ),
        }
    }
}

/// The log of the last edits, oldest first, and the time of the last one.
#[derive(Debug)]
pub struct History {
    pub operations: VecDeque<Operation>,
    pub last_edit_time: Instant,
}

impl View for History {
    type V = Seq<OperationView>;

    open spec fn view(&self) -> Seq<OperationView> {
        operation_views(self.operations@)
    }
}

impl Default for History {
    /// An empty history.
    fn default() -> (r: Self)
        ensures
            r@ == Seq::<OperationView>::empty(),
    {
        let r = Self { operations: VecDeque::with_capacity(HISTORY_SIZE), last_edit_time: now() };
        assert(r@ =~= Seq::<OperationView>::empty());
        r
    }
}

impl History {
    fn set_last_edit_time_to_now(&mut self)
        ensures
            final(self).operations == old(self).operations,
    {
        self.last_edit_time = now();
    }

    /// Makes a new newest entry, at the time `now`; the oldest leaves a full
    /// log.
    fn push(
        &mut self,
        text: &str,
        position: Position,
        operation_type: OperationType,
        now: Instant,
    )
        ensures
            final(self)@ == pushed(
                old(self)@,
                OperationView { content: text@, start_position: position, op_type: operation_type },
            ),
            final(self).last_edit_time == now,
    {
        if self.operations.len() == HISTORY_SIZE {
            let _ = self.operations.pop_front();
        }
        self.operations.push_back(
            Operation {
                content: String::from_str(text),
                start_position: position,
                op_type: operation_type,
            },
        );
        self.last_edit_time = now;
        assert(self@ =~= pushed(
            old(self)@,
            OperationView { content: text@, start_position: position, op_type: operation_type },
        ));
    }

    fn push_insert(&mut self, text: &str, position: Position, now: Instant)
        ensures
            final(self)@ == pushed(
                old(self)@,
                OperationView {
                    content: text@,
                    start_position: position,
                    op_type: OperationType::Insert,
                },
            ),
            final(self).last_edit_time == now,
    {
        self.push(text, position, OperationType::Insert, now);
    }

    fn push_delete(&mut self, text: &str, position: Position, now: Instant)
        ensures
            final(self)@ == pushed(
                old(self)@,
                OperationView {
                    content: text@,
                    start_position: position,
                    op_type: OperationType::Delete,
                },
            ),
            final(self).last_edit_time == now,
    {
        self.push(text, position, OperationType::Delete, now);
    }

    /// Makes a new newest entry of type `op_type`, at the time `now`.
    fn push_new(&mut self, text: &str, position: Position, op_type: OperationType, now: Instant)
        ensures
            final(self)@ == pushed(
                old(self)@,
                OperationView { content: text@, start_position: position, op_type },
            ),
            final(self).last_edit_time == now,
    {
        match op_type {
            OperationType::Insert => self.push_insert(text, position, now),
            OperationType::Delete => self.push_delete(text, position, now),
        }
    }

    /// Records an edit of type `op_type` that is made at the time `now`,
    /// `seconds` whole seconds after the one before it: the edit joins the
    /// newest entry or becomes a new one, and `now` becomes the time of the
    /// last edit.
    pub fn register(
        &mut self,
        text: &str,
        position: Position,
        op_type: OperationType,
        seconds: u64,
        now: Instant,
    )
        ensures
            final(self)@ == registered(old(self)@, text@, position, op_type, seconds),
            final(self).last_edit_time == now,
            old(self)@.len() <= HISTORY_SIZE ==> final(self)@.len() <= HISTORY_SIZE,
    {
        if seconds >= TIME_AFTER_WHICH_OPERATION_COMMITS || self.operations.len() == 0 {
            self.push_new(text, position, op_type, now);
            return ;
        }
        let mut newest = match self.operations.pop_back() {
            Some(op) => op,
            None => {
                return ;
            },
        };
        let same = match op_type {
            OperationType::Insert => match newest.op_type {
                OperationType::Insert => true,
                OperationType::Delete => false,
            },
            OperationType::Delete => match newest.op_type {
                OperationType::Insert => false,
                OperationType::Delete => true,
            },
        };
        if same {
            newest.mut_push(text);
            self.operations.push_back(newest);
            self.last_edit_time = now;
            assert(self@ =~= registered(old(self)@, text@, position, op_type, seconds));
        } else {
            self.operations.push_back(newest);
            assert(self.operations@ =~= old(self).operations@);
            self.push_new(text, position, op_type, now);
        }
    }

    /// Records that `text` was inserted at `position`, now. The edit joins
    /// the newest entry where that is an insertion made less than a second
    /// ago, and becomes a new entry otherwise; which of the two depends on the
    /// clock.
    pub fn register_insertion(&mut self, text: &str, position: Position)
        ensures
            exists|seconds: u64|
                final(self)@ == registered(
                    old(self)@,
                    text@,
                    position,
                    OperationType::Insert,
                    seconds,
                ),
            old(self)@.len() <= HISTORY_SIZE ==> final(self)@.len() <= HISTORY_SIZE,
    {
        let seconds = seconds_since(&self.last_edit_time);
        self.set_last_edit_time_to_now();
        let now = self.last_edit_time;
        self.register(text, position, OperationType::Insert, seconds, now);
    }

    /// Records that `text` was deleted at `position`, now. The edit joins the
    /// newest entry where that is a deletion made less than a second ago, and
    /// becomes a new entry otherwise; which of the two depends on the clock.
    pub fn register_deletion(&mut self, text: &str, position: Position)
        ensures
            exists|seconds: u64|
                final(self)@ == registered(
                    old(self)@,
                    text@,
                    position,
                    OperationType::Delete,
                    seconds,
                ),
            old(self)@.len() <= HISTORY_SIZE ==> final(self)@.len() <= HISTORY_SIZE,
    {
        let seconds = seconds_since(&self.last_edit_time);
        self.set_last_edit_time_to_now();
        let now = self.last_edit_time;
        self.register(text, position, OperationType::Delete, seconds, now);
    }

    /// Undoes the newest entry of the log: takes it out of the log and
    /// applies the operation that takes it back to `document`. Returns whether
    /// there was an entry to undo.
    pub fn undo(&mut self, document: &mut Document) -> (undone: bool)
        ensures
            undone == (old(self)@.len() > 0),
            final(self).last_edit_time == old(self).last_edit_time,
            !undone ==> final(self)@ == old(self)@ && final(document)@ == old(document)@,
            undone ==> final(self)@ == old(self)@.drop_last() && final(document)@ == applied(
                old(document)@,
                reversed_spec(old(self)@.last(), lengths_of(old(document)@)),
            ),
            final(document).filename == old(document).filename,
            old(document).well_formed() ==> final(document).well_formed(),
    {
        let lengths = document.row_lengths();
        assert(lengths@ =~= lengths_of(document@));
        match self.last_operation_reversed(lengths.as_slice()) {
            Some(operation) => {
                operation.apply(document);
                true
            },
            None => false,
        }
    }

    /// Takes the newest entry out of the log and returns the operation that
    /// takes it back; `None` where the log is empty.
    #[must_use]
    pub fn last_operation_reversed(&mut self, document_rows_length: &[usize]) -> (r: Option<
        Operation,
    >)
        ensures
            final(self).last_edit_time == old(self).last_edit_time,
            old(self)@.len() == 0 ==> r is None && final(self)@ == old(self)@,
            old(self)@.len() > 0 ==> r is Some && r->0@ == reversed_spec(
                old(self)@.last(),
                document_rows_length@,
            ) && final(self)@ == old(self)@.drop_last(),
    {
        match self.operations.pop_back() {
            Some(op) => {
                assert(self@ =~= old(self)@.drop_last());
                Some(op.reversed(document_rows_length))
            },
            None => None,
        }
    }
}

/// Reversing an operation twice gives the operation back. This holds where
/// the text keeps its clusters when they are put in reverse order, and where
/// the row lengths handed to the second reversal lead from the end of the
/// operation back to its start. The clusters of the text make up the text, as
/// those of every string do.
pub proof fn lemma_reversed_twice(op: OperationView, first: Seq<usize>, second: Seq<usize>)
    requires
        grapheme_clusters(op.content).flatten() == op.content,
        grapheme_clusters(grapheme_clusters(op.content).reverse().flatten()) == grapheme_clusters(
            op.content,
        ).reverse(),
        end_position_spec(reversed_spec(op, first), second) == op.start_position,
    ensures
        reversed_spec(reversed_spec(op, first), second) == op,
{
    let g = grapheme_clusters(op.content);
    assert(g.reverse().reverse() =~= g);
}

/// Reversing an operation twice gives back its type, whatever the text and
/// the row lengths.
pub proof fn lemma_reversed_twice_keeps_type(
    op: OperationView,
    first: Seq<usize>,
    second: Seq<usize>,
)
    ensures
        reversed_spec(reversed_spec(op, first), second).op_type == op.op_type,
{
}

/// Whether none of the clusters `text` is a line feed.
pub open spec fn newline_free(text: Seq<Seq<char>>) -> bool {
    forall|i: int| 0 <= i < text.len() ==> !is_newline(#[trigger] text[i])
}

/// Inserting text without a line feed moves the cursor right by the number
/// of its clusters, less one.
pub proof fn lemma_end_of_insert_in_line(text: Seq<Seq<char>>, x: usize, y: usize)
    requires
        newline_free(text),
        x + text.len() <= usize::MAX,
    ensures
        end_of_insert(text, x, y) == (Position {
            x: saturating_sub_spec((x + text.len()) as usize, 1),
            y,
        }),
    decreases text.len(),
{
    if text.len() > 0 {
        assert(!is_newline(text[0]));
        assert(newline_free(text.drop_first())) by {
            assert forall|i: int| 0 <= i < text.drop_first().len() implies !is_newline(
                #[trigger] text.drop_first()[i],
            ) by {
                assert(text.drop_first()[i] == text[i + 1]);
            }
        }
        lemma_end_of_insert_in_line(text.drop_first(), (x + 1) as usize, y);
    }
}

/// Deleting text without a line feed moves the cursor left by the number of
/// its clusters, as far as the first column.
pub proof fn lemma_end_of_delete_in_line(
    text: Seq<Seq<char>>,
    lengths: Seq<usize>,
    x: usize,
    y: usize,
)
    requires
        newline_free(text),
    ensures
        end_of_delete(text, lengths, x, y) == (Position {
            x: if x >= text.len() {
                (x - text.len()) as usize
            } else {
                0
            },
            y,
        }),
    decreases text.len(),
{
    if text.len() > 0 {
        assert(!is_newline(text[0]));
        assert(newline_free(text.drop_first())) by {
            assert forall|i: int| 0 <= i < text.drop_first().len() implies !is_newline(
                #[trigger] text.drop_first()[i],
            ) by {
                assert(text.drop_first()[i] == text[i + 1]);
            }
        }
        lemma_end_of_delete_in_line(text.drop_first(), lengths, saturating_sub_spec(x, 1), y);
    }
}

/// An insertion within one line that begins in the first column comes back
/// when it is reversed twice, whatever the row lengths, where the text keeps
/// its clusters when they are put in reverse order.
pub proof fn lemma_reversed_twice_insert_in_line(
    op: OperationView,
    first: Seq<usize>,
    second: Seq<usize>,
)
    requires
        op.op_type == OperationType::Insert,
        op.start_position.x == 0,
        newline_free(grapheme_clusters(op.content)),
        grapheme_clusters(op.content).len() <= usize::MAX,
        grapheme_clusters(op.content).flatten() == op.content,
        grapheme_clusters(grapheme_clusters(op.content).reverse().flatten()) == grapheme_clusters(
            op.content,
        ).reverse(),
    ensures
        reversed_spec(reversed_spec(op, first), second) == op,
{
    let g = grapheme_clusters(op.content);
    let y = op.start_position.y;
    lemma_end_of_insert_in_line(g, 0, y);
    assert(newline_free(g.reverse())) by {
        assert forall|i: int| 0 <= i < g.reverse().len() implies !is_newline(
            #[trigger] g.reverse()[i],
        ) by {
            assert(g.reverse()[i] == g[g.len() - 1 - i]);
        }
    }
    lemma_end_of_delete_in_line(g.reverse(), second, saturating_sub_spec(g.len() as usize, 1), y);
    lemma_reversed_twice(op, first, second);
}

/// A deletion within one line that begins on the last of as many columns as
/// it deletes comes back when it is reversed twice, whatever the row lengths,
/// where the text keeps its clusters when they are put in reverse order.
pub proof fn lemma_reversed_twice_delete_in_line(
    op: OperationView,
    first: Seq<usize>,
    second: Seq<usize>,
)
    requires
        op.op_type == OperationType::Delete,
        op.start_position.x < usize::MAX,
        op.start_position.x + 1 == grapheme_clusters(op.content).len(),
        newline_free(grapheme_clusters(op.content)),
        grapheme_clusters(op.content).flatten() == op.content,
        grapheme_clusters(grapheme_clusters(op.content).reverse().flatten()) == grapheme_clusters(
            op.content,
        ).reverse(),
    ensures
        reversed_spec(reversed_spec(op, first), second) == op,
{
    let g = grapheme_clusters(op.content);
    let y = op.start_position.y;
    lemma_end_of_delete_in_line(g, first, op.start_position.x, y);
    assert(newline_free(g.reverse())) by {
        assert forall|i: int| 0 <= i < g.reverse().len() implies !is_newline(
            #[trigger] g.reverse()[i],
        ) by {
            assert(g.reverse()[i] == g[g.len() - 1 - i]);
        }
    }
    assert(g.reverse().len() == g.len());
    lemma_end_of_insert_in_line(g.reverse(), 0, y);
    lemma_reversed_twice(op, first, second);
}

/// The number of line feeds among the clusters `text`.
pub open spec fn newline_count(text: Seq<Seq<char>>) -> nat
    decreases text.len(),
{
    if text.len() == 0 {
        0
    } else if is_newline(text[0]) {
        1 + newline_count(text.drop_first())
    } else {
        newline_count(text.drop_first())
    }
}

/// The number of clusters of `text` before its first line feed.
pub open spec fn first_line_len(text: Seq<Seq<char>>) -> nat
    decreases text.len(),
{
    if text.len() == 0 || is_newline(text[0]) {
        0
    } else {
        1 + first_line_len(text.drop_first())
    }
}

/// The number of clusters of `text` behind its last line feed.
pub open spec fn last_line_len(text: Seq<Seq<char>>) -> nat
    decreases text.len(),
{
    if text.len() == 0 || newline_count(text) == 0 {
        text.len()
    } else {
        last_line_len(text.drop_first())
    }
}

/// The length that `lengths` gives for row `row`; zero where it gives none.
pub open spec fn length_at(lengths: Seq<usize>, row: int) -> nat {
    if 0 <= row < lengths.len() {
        lengths[row] as nat
    } else {
        0
    }
}

/// The difference of `a` and `b`, held at zero.
pub open spec fn minus(a: nat, b: nat) -> nat {
    if a >= b {
        (a - b) as nat
    } else {
        0
    }
}

/// Text that counts no line feed holds none.
pub proof fn lemma_no_newline(text: Seq<Seq<char>>)
    requires
        newline_count(text) == 0,
    ensures
        newline_free(text),
    decreases text.len(),
{
    if text.len() > 0 {
        lemma_no_newline(text.drop_first());
        assert forall|i: int| 0 <= i < text.len() implies !is_newline(#[trigger] text[i]) by {
            if i > 0 {
                assert(text[i] == text.drop_first()[i - 1]);
            }
        }
    }
}

/// Inserting text of several lines puts the cursor on the last cluster of the
/// last of them, as many rows down as the text has line feeds.
pub proof fn lemma_end_of_insert_lines(text: Seq<Seq<char>>, x: usize, y: usize)
    requires
        newline_count(text) >= 1,
        text.len() <= usize::MAX,
        y + newline_count(text) <= usize::MAX,
    ensures
        end_of_insert(text, x, y) == (Position {
            x: minus(last_line_len(text), 1) as usize,
            y: (y + newline_count(text)) as usize,
        }),
    decreases text.len(),
{
    let rest = text.drop_first();
    assert(text.len() > 0);
    assert(last_line_len(text) == last_line_len(rest));
    if is_newline(text[0]) {
        assert(newline_count(text) == 1 + newline_count(rest));
        assert(end_of_insert(text, x, y) == end_of_insert(rest, 0, (y + 1) as usize));
        if newline_count(rest) == 0 {
            lemma_no_newline(rest);
            lemma_end_of_insert_in_line(rest, 0, (y + 1) as usize);
            assert(last_line_len(rest) == rest.len());
        } else {
            lemma_end_of_insert_lines(rest, 0, (y + 1) as usize);
        }
    } else {
        assert(newline_count(text) == newline_count(rest));
        assert(end_of_insert(text, x, y) == end_of_insert(rest, saturating_add_spec(x, 1), y));
        lemma_end_of_insert_lines(rest, saturating_add_spec(x, 1), y);
    }
}

/// Deleting text of several lines puts the cursor as many rows up as the text
/// has line feeds, as far as the first row, and as many columns before the end
/// of that row as the text has clusters behind its last line feed, as far as
/// the first column.
pub proof fn lemma_end_of_delete_lines(
    text: Seq<Seq<char>>,
    lengths: Seq<usize>,
    x: usize,
    y: usize,
)
    requires
        newline_count(text) >= 1,
    ensures
        end_of_delete(text, lengths, x, y) == (Position {
            x: minus(
                length_at(lengths, minus(y as nat, newline_count(text)) as int),
                last_line_len(text),
            ) as usize,
            y: minus(y as nat, newline_count(text)) as usize,
        }),
    decreases text.len(),
{
    let rest = text.drop_first();
    assert(text.len() > 0);
    assert(last_line_len(text) == last_line_len(rest));
    if is_newline(text[0]) {
        let above = saturating_sub_spec(y, 1);
        let column = if above < lengths.len() {
            lengths[above as int]
        } else {
            0
        };
        assert(newline_count(text) == 1 + newline_count(rest));
        assert(end_of_delete(text, lengths, x, y) == end_of_delete(rest, lengths, column, above));
        if newline_count(rest) == 0 {
            lemma_no_newline(rest);
            lemma_end_of_delete_in_line(rest, lengths, column, above);
            assert(last_line_len(rest) == rest.len());
        } else {
            lemma_end_of_delete_lines(rest, lengths, column, above);
        }
    } else {
        assert(newline_count(text) == newline_count(rest));
        assert(end_of_delete(text, lengths, x, y) == end_of_delete(
            rest,
            lengths,
            saturating_sub_spec(x, 1),
            y,
        ));
        lemma_end_of_delete_lines(rest, lengths, saturating_sub_spec(x, 1), y);
    }
}

/// A cluster more at the end of a text adds to its line feeds if it is one.
pub proof fn lemma_newline_count_push(text: Seq<Seq<char>>, cluster: Seq<char>)
    ensures
        newline_count(text.push(cluster)) == newline_count(text) + (if is_newline(cluster) {
            1nat
        } else {
            0nat
        }),
    decreases text.len(),
{
    let longer = text.push(cluster);
    if text.len() == 0 {
        assert(longer.drop_first() =~= Seq::<Seq<char>>::empty());
        assert(longer[0] == cluster);
        assert(newline_count(longer.drop_first()) == 0);
    } else {
        assert(longer.drop_first() =~= text.drop_first().push(cluster));
        assert(longer[0] == text[0]);
        lemma_newline_count_push(text.drop_first(), cluster);
    }
}

/// A text has as many line feeds as it has in reverse order.
pub proof fn lemma_newline_count_reverse(text: Seq<Seq<char>>)
    ensures
        newline_count(text.reverse()) == newline_count(text),
    decreases text.len(),
{
    if text.len() > 0 {
        let front = text.drop_last();
        assert(text =~= front.push(text.last()));
        assert(text.reverse().drop_first() =~= front.reverse());
        assert(text.reverse()[0] == text.last());
        lemma_newline_count_reverse(front);
        lemma_newline_count_push(front, text.last());
    }
}

/// What a cluster more at the end of a text does to the length of its first
/// line.
pub proof fn lemma_first_line_len_push(text: Seq<Seq<char>>, cluster: Seq<char>)
    ensures
        first_line_len(text.push(cluster)) == (if newline_count(text) > 0 {
            first_line_len(text)
        } else if is_newline(cluster) {
            text.len()
        } else {
            text.len() + 1
        }),
    decreases text.len(),
{
    let longer = text.push(cluster);
    if text.len() == 0 {
        assert(longer.drop_first() =~= Seq::<Seq<char>>::empty());
        assert(longer[0] == cluster);
        assert(first_line_len(longer.drop_first()) == 0);
    } else {
        assert(longer.drop_first() =~= text.drop_first().push(cluster));
        assert(longer[0] == text[0]);
        lemma_first_line_len_push(text.drop_first(), cluster);
    }
}

/// The last line of a text in reverse order is as long as the first line of
/// the text.
pub proof fn lemma_last_line_len_reverse(text: Seq<Seq<char>>)
    ensures
        last_line_len(text.reverse()) == first_line_len(text),
    decreases text.len(),
{
    if text.len() > 0 {
        let front = text.drop_last();
        assert(text =~= front.push(text.last()));
        assert(text.reverse().drop_first() =~= front.reverse());
        assert(text.reverse()[0] == text.last());
        lemma_last_line_len_reverse(front);
        lemma_newline_count_reverse(front);
        lemma_newline_count_reverse(text);
        lemma_newline_count_push(front, text.last());
        lemma_first_line_len_push(front, text.last());
        if newline_count(front) == 0 {
            lemma_no_newline(front);
            assert(last_line_len(front.reverse()) == front.len());
        }
    }
}

/// An insertion of several lines comes back when it is reversed twice, where
/// the row lengths handed to the second reversal give the row in which the
/// insertion began as many clusters as stood before the insertion and on the
/// first line of it together, and where the text keeps its clusters when they
/// are put in reverse order.
pub proof fn lemma_reversed_twice_insert_lines(
    op: OperationView,
    first: Seq<usize>,
    second: Seq<usize>,
)
    requires
        op.op_type == OperationType::Insert,
        newline_count(grapheme_clusters(op.content)) >= 1,
        grapheme_clusters(op.content).len() <= usize::MAX,
        op.start_position.y + newline_count(grapheme_clusters(op.content)) <= usize::MAX,
        minus(
            length_at(second, op.start_position.y as int),
            first_line_len(grapheme_clusters(op.content)),
        ) == op.start_position.x,
        grapheme_clusters(op.content).flatten() == op.content,
        grapheme_clusters(grapheme_clusters(op.content).reverse().flatten()) == grapheme_clusters(
            op.content,
        ).reverse(),
    ensures
        reversed_spec(reversed_spec(op, first), second) == op,
{
    let g = grapheme_clusters(op.content);
    lemma_end_of_insert_lines(g, op.start_position.x, op.start_position.y);
    lemma_newline_count_reverse(g);
    lemma_last_line_len_reverse(g);
    let end = end_of_insert(g, op.start_position.x, op.start_position.y);
    lemma_end_of_delete_lines(g.reverse(), second, end.x, end.y);
    lemma_reversed_twice(op, first, second);
}

/// A deletion of several lines comes back when it is reversed twice,
/// whatever the row lengths, where it began on the last cluster of its first
/// line, at least as many rows down as it has line feeds, and where the text
/// keeps its clusters when they are put in reverse order.
pub proof fn lemma_reversed_twice_delete_lines(
    op: OperationView,
    first: Seq<usize>,
    second: Seq<usize>,
)
    requires
        op.op_type == OperationType::Delete,
        newline_count(grapheme_clusters(op.content)) >= 1,
        grapheme_clusters(op.content).len() <= usize::MAX,
        op.start_position.y >= newline_count(grapheme_clusters(op.content)),
        op.start_position.x == minus(first_line_len(grapheme_clusters(op.content)), 1),
        grapheme_clusters(op.content).flatten() == op.content,
        grapheme_clusters(grapheme_clusters(op.content).reverse().flatten()) == grapheme_clusters(
            op.content,
        ).reverse(),
    ensures
        reversed_spec(reversed_spec(op, first), second) == op,
{
    let g = grapheme_clusters(op.content);
    lemma_end_of_delete_lines(g, first, op.start_position.x, op.start_position.y);
    lemma_newline_count_reverse(g);
    lemma_last_line_len_reverse(g);
    let end = end_of_delete(g, first, op.start_position.x, op.start_position.y);
    assert(g.reverse().len() == g.len());
    lemma_end_of_insert_lines(g.reverse(), end.x, end.y);
    lemma_reversed_twice(op, first, second);
}

} // verus!
