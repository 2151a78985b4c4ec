//! Display metadata and the record of what changed on a display.

use vstd::prelude::*;

use crate::bounded::{clone_name, text_of, Name};
use crate::dto::web::SCREEN_MAX_STRIPE_LEN;

verus! {

pub type DisplayName = Name;

/// What a viewer needs to allocate a framebuffer for a display.
#[derive(Debug, Default, PartialEq, Eq)]
pub struct DisplayMeta {
    pub name: DisplayName,
    pub width: usize,
    pub height: usize,
}

/// The mathematical content of a `DisplayMeta`.
pub struct DisplayMetaView {
    pub name: Seq<char>,
    pub width: nat,
    pub height: nat,
}

impl View for DisplayMeta {
    type V = DisplayMetaView;

    open spec fn view(&self) -> DisplayMetaView {
        DisplayMetaView {
            name: text_of(self.name),
            width: self.width as nat,
            height: self.height as nat,
        }
    }
}

impl Clone for DisplayMeta {
    fn clone(&self) -> (copy: Self)
        ensures
            copy@ == self@,
    {
        DisplayMeta { name: clone_name(&self.name), width: self.width, height: self.height }
    }
}

/// What changed on a display since the record was last consumed.
#[derive(Debug, PartialEq, Eq)]
pub enum Change {
    /// The display is new to the observer: its metadata and all of its
    /// pixels are to be sent.
    Created,
    /// The dirty span of each row, as its start and its end (a span with
    /// `start >= end` stands for a clean row), and whether the display was
    /// dropped.
    Updated(Vec<(usize, usize)>, bool),
}

/// The mathematical content of a display `Change`.
pub enum ChangeView {
    Created,
    /// The dirty rows with their dirty spans, each from its start up to,
    /// not including, its end; and whether the display was dropped.
    Updated { rows: Map<int, (int, int)>, dropped: bool },
}

/// The dirty span of a row, if the row is dirty.
pub open spec fn span_of(rows: Map<int, (int, int)>, row: int) -> Option<(int, int)> {
    if rows.dom().contains(row) {
        Some(rows[row])
    } else {
        None
    }
}

/// The dirty span that results from marking `[start, end)` in a row whose
/// dirty span, if it has one, is `current`: from the lesser start to the
/// greater end, whether the two spans touch or not.
pub open spec fn widened(current: Option<(int, int)>, start: int, end: int) -> (int, int) {
    match current {
        Some((s, e)) => (
            if s <= start {
                s
            } else {
                start
            },
            if e >= end {
                e
            } else {
                end
            },
        ),
        None => (start, end),
    }
}

/// The sparse map of dirty rows that a vector of per-row spans stands for: a
/// row is dirty where its span is not empty.
pub open spec fn rows_of(spans: Seq<(usize, usize)>) -> Map<int, (int, int)> {
    Map::new(
        |row: int| 0 <= row < spans.len() && spans[row].0 < spans[row].1,
        |row: int| (spans[row].0 as int, spans[row].1 as int),
    )
}

/// No dirty row.
pub open spec fn no_rows() -> Map<int, (int, int)> {
    Map::empty()
}

/// The union of two maps of dirty rows: a row that is dirty in both gets
/// the span from the lesser start to the greater end.
pub open spec fn merged_rows(rows: Map<int, (int, int)>, other: Map<int, (int, int)>) -> Map<
    int,
    (int, int),
> {
    Map::new(
        |row: int| rows.dom().contains(row) || other.dom().contains(row),
        |row: int|
            if other.dom().contains(row) {
                widened(span_of(rows, row), other[row].0, other[row].1)
            } else {
                rows[row]
            },
    )
}

/// Every row of a display of the given size, dirty over its whole width.
pub open spec fn full_rows(width: nat, height: nat) -> Map<int, (int, int)> {
    Map::new(|row: int| 0 <= row < height && 0 < width, |row: int| (0int, width as int))
}

/// Whether `row` is the first of the dirty rows.
pub open spec fn is_first_row(rows: Map<int, (int, int)>, row: int) -> bool {
    &&& rows.dom().contains(row)
    &&& forall|other: int| #[trigger] rows.dom().contains(other) ==> row <= other
}

/// Whether there is a first dirty row.
pub open spec fn has_first_row(rows: Map<int, (int, int)>) -> bool {
    exists|row: int| is_first_row(rows, row)
}

/// The first of the dirty rows, where there is one.
pub open spec fn first_row(rows: Map<int, (int, int)>) -> int
    recommends
        has_first_row(rows),
{
    choose|row: int| is_first_row(rows, row)
}

/// The number of pixels of a dirty span that the next stripe carries: all
/// of them, or as many as a stripe holds.
pub open spec fn stripe_len(span: (int, int)) -> int {
    if span.1 - span.0 <= SCREEN_MAX_STRIPE_LEN {
        span.1 - span.0
    } else {
        SCREEN_MAX_STRIPE_LEN as int
    }
}

/// What is left of a dirty span after the next stripe was taken from it.
pub open spec fn behind_stripe(span: (int, int)) -> (int, int) {
    (span.0 + stripe_len(span), span.1)
}

/// The spans of the stripes in which a dirty span is drained, in order:
/// each as long as a stripe holds, but for the last, which takes the rest.
pub open spec fn stripes_of(span: (int, int)) -> Seq<(int, int)>
    decreases span.1 - span.0,
{
    if span.0 >= span.1 {
        Seq::empty()
    } else {
        seq![(span.0, span.0 + stripe_len(span))] + stripes_of(behind_stripe(span))
    }
}

/// The number of stripes in which a dirty span, if there is one, is
/// drained.
pub open spec fn stripes_in(span: Option<(int, int)>) -> nat {
    match span {
        Some(span) => stripes_of(span).len(),
        None => 0,
    }
}

/// The number of stripes in which the dirty rows before row `upto` are
/// drained.
pub open spec fn stripes_before(rows: Map<int, (int, int)>, upto: int) -> nat
    decreases upto,
{
    if upto <= 0 {
        0
    } else {
        stripes_before(rows, upto - 1) + stripes_in(span_of(rows, upto - 1))
    }
}

impl ChangeView {
    /// Every retained span is non-empty and lies in a row that exists.
    pub open spec fn wf(self) -> bool {
        self matches ChangeView::Updated { rows, .. } ==> forall|row: int| #[trigger]
            rows.dom().contains(row) ==> 0 <= row && 0 <= rows[row].0 < rows[row].1
    }

    /// Every dirty span lies within a display of the given size.
    pub open spec fn fits(self, width: nat, height: nat) -> bool {
        self matches ChangeView::Updated { rows, .. } ==> forall|row: int| #[trigger]
            rows.dom().contains(row) ==> 0 <= row < height && 0 <= rows[row].0 < rows[row].1
                <= width
    }

    /// Nothing is pending.
    pub open spec fn is_quiet(self) -> bool {
        self matches ChangeView::Updated { rows, dropped } && !dropped && !has_first_row(rows)
    }

    /// The record in which nothing is pending.
    pub open spec fn quiet() -> ChangeView {
        ChangeView::Updated { rows: no_rows(), dropped: false }
    }

    /// The record after `[start, end)` was marked dirty in row `index`. An
    /// empty span marks nothing, and in a record that is `Created` all
    /// pixels are dirty already.
    pub open spec fn with_row(self, index: int, start: int, end: int) -> ChangeView {
        match self {
            ChangeView::Created => ChangeView::Created,
            ChangeView::Updated { rows, dropped } => if start < end {
                ChangeView::Updated {
                    rows: rows.insert(index, widened(span_of(rows, index), start, end)),
                    dropped,
                }
            } else {
                self
            },
        }
    }

    /// The record after `other` was merged into it: `Created` wins over
    /// `Updated`, on either side; else the dirty rows are united and
    /// `dropped` is kept once it is set.
    pub open spec fn merged(self, other: ChangeView) -> ChangeView {
        match (self, other) {
            (ChangeView::Created, _) => ChangeView::Created,
            (_, ChangeView::Created) => ChangeView::Created,
            (
                ChangeView::Updated { rows, dropped },
                ChangeView::Updated { rows: other_rows, dropped: other_dropped },
            ) => ChangeView::Updated {
                rows: merged_rows(rows, other_rows),
                dropped: dropped || other_dropped,
            },
        }
    }

    /// The number of events in which the record is drained, for a display
    /// of the given size: one that announces the display, where it is new
    /// or was dropped, and the stripes of its dirty rows.
    pub open spec fn events(self, width: nat, height: nat) -> nat {
        match self {
            ChangeView::Created => 1 + stripes_before(full_rows(width, height), height as int),
            ChangeView::Updated { rows, dropped } => (if dropped {
                1nat
            } else {
                0nat
            }) + stripes_before(rows, height as int),
        }
    }

    /// The record after one event was drained from it, for a display of the
    /// given size. `Created` gives way to all rows dirty; a record with
    /// `dropped` set loses that; any other loses the pixels of its first
    /// dirty row that the stripe carries; a quiet one stays as it is.
    pub open spec fn consumed(self, width: nat, height: nat) -> ChangeView {
        match self {
            ChangeView::Created => ChangeView::Updated {
                rows: full_rows(width, height),
                dropped: false,
            },
            ChangeView::Updated { rows, dropped } => if dropped {
                ChangeView::Updated { rows, dropped: false }
            } else if has_first_row(rows) {
                let row = first_row(rows);
                let left = behind_stripe(rows[row]);
                if left.0 < left.1 {
                    ChangeView::Updated { rows: rows.insert(row, left), dropped: false }
                } else {
                    ChangeView::Updated { rows: rows.remove(row), dropped: false }
                }
            } else {
                self
            },
        }
    }
}

/// There is one first row at most.
pub proof fn lemma_first_row_unique(rows: Map<int, (int, int)>, row: int)
    requires
        is_first_row(rows, row),
    ensures
        has_first_row(rows),
        first_row(rows) == row,
{
    let chosen = first_row(rows);
    assert(is_first_row(rows, chosen));
    assert(rows.dom().contains(row));
    assert(rows.dom().contains(chosen));
}

/// Where a row is dirty, and no dirty row has a negative number, there is
/// a first dirty row, at or before that one.
pub proof fn lemma_first_row_exists(rows: Map<int, (int, int)>, row: int)
    requires
        rows.dom().contains(row),
        forall|other: int| #[trigger] rows.dom().contains(other) ==> 0 <= other,
    ensures
        has_first_row(rows),
        0 <= first_row(rows) <= row,
    decreases row,
{
    if exists|other: int| rows.dom().contains(other) && other < row {
        let other = choose|other: int| rows.dom().contains(other) && other < row;
        lemma_first_row_exists(rows, other);
    } else {
        assert(is_first_row(rows, row));
        lemma_first_row_unique(rows, row);
    }
}

/// A dirty span of `n` pixels is drained in `n / SCREEN_MAX_STRIPE_LEN`
/// stripes, rounded up. No stripe is empty and none is longer than
/// `SCREEN_MAX_STRIPE_LEN` pixels. The first begins where the span begins,
/// each further one where the one before it ends, and the last ends where
/// the span ends: together they cover the span, without a gap and without
/// an overlap.
pub proof fn lemma_stripes_cover(span: (int, int))
    requires
        span.0 < span.1,
    ensures
        stripes_of(span).len() == (span.1 - span.0 + SCREEN_MAX_STRIPE_LEN - 1)
            / SCREEN_MAX_STRIPE_LEN as int,
        stripes_of(span).len() >= 1,
        stripes_of(span)[0].0 == span.0,
        stripes_of(span).last().1 == span.1,
        forall|at: int|
            0 <= at < stripes_of(span).len() ==> 0 < (#[trigger] stripes_of(span)[at]).1
                - stripes_of(span)[at].0 <= SCREEN_MAX_STRIPE_LEN,
        forall|at: int|
            0 <= at < stripes_of(span).len() - 1 ==> (#[trigger] stripes_of(span)[at]).1
                == stripes_of(span)[at + 1].0,
    decreases span.1 - span.0,
{
    let first = (span.0, span.0 + stripe_len(span));
    let rest = behind_stripe(span);
    let all = stripes_of(span);
    assert(all == seq![first] + stripes_of(rest));
    if rest.0 < rest.1 {
        lemma_stripes_cover(rest);
        let tail = stripes_of(rest);
        assert forall|at: int| 0 <= at < all.len() implies 0 < (#[trigger] all[at]).1
            - all[at].0 <= SCREEN_MAX_STRIPE_LEN by {
            if at > 0 {
                assert(all[at] == tail[at - 1]);
            }
        }
        assert forall|at: int| 0 <= at < all.len() - 1 implies (#[trigger] all[at]).1
            == all[at + 1].0 by {
            assert(all[at + 1] == tail[at]);
            if at > 0 {
                assert(all[at] == tail[at - 1]);
            }
        }
        assert(all.last() == tail.last());
    } else {
        assert(stripes_of(rest) =~= Seq::<(int, int)>::empty());
        assert(all =~= seq![first]);
    }
}

/// Taking the next stripe from a dirty span leaves one stripe less to
/// drain.
pub proof fn lemma_stripes_behind(span: (int, int))
    requires
        span.0 < span.1,
    ensures
        stripes_of(span).len() == 1 + stripes_of(behind_stripe(span)).len(),
{
}

/// Giving one row another dirty span, or none, changes the number of
/// stripes before a later row by the difference between what the row had
/// and what it got, and leaves the number before that row as it was.
pub proof fn lemma_stripes_before_update(
    rows: Map<int, (int, int)>,
    row: int,
    span: Option<(int, int)>,
    upto: int,
)
    requires
        0 <= row,
    ensures
        stripes_before(
            match span {
                Some(span) => rows.insert(row, span),
                None => rows.remove(row),
            },
            upto,
        ) == if row < upto {
            stripes_before(rows, upto) - stripes_in(span_of(rows, row)) + stripes_in(span)
        } else {
            stripes_before(rows, upto) as int
        },
    decreases upto,
{
    let changed = match span {
        Some(span) => rows.insert(row, span),
        None => rows.remove(row),
    };
    if upto > 0 {
        lemma_stripes_before_update(rows, row, span, upto - 1);
        if upto - 1 != row {
            assert(span_of(changed, upto - 1) == span_of(rows, upto - 1));
        } else {
            assert(span_of(changed, row) == span);
        }
    }
}

/// Where no row before row `upto` is dirty, there is no stripe to drain
/// before it; where one is, with a span that is not empty, there is one at
/// least.
pub proof fn lemma_stripes_before_none(rows: Map<int, (int, int)>, upto: int)
    ensures
        (forall|row: int| 0 <= row < upto ==> !#[trigger] rows.dom().contains(row))
            ==> stripes_before(rows, upto) == 0,
        forall|row: int|
            0 <= row < upto && #[trigger] rows.dom().contains(row) && rows[row].0 < rows[row].1
                ==> stripes_before(rows, upto) >= 1,
    decreases upto,
{
    if upto > 0 {
        lemma_stripes_before_none(rows, upto - 1);
        assert forall|row: int|
            0 <= row < upto && #[trigger] rows.dom().contains(row) && rows[row].0
                < rows[row].1 implies stripes_before(rows, upto) >= 1 by {
            if row == upto - 1 {
                lemma_stripes_behind(rows[row]);
            }
        }
    }
}

impl ChangeView {
    /// A record that fits a display is quiet if and only if it is drained
    /// in no event; and draining an event from one that is not quiet leaves
    /// one event less to drain.
    pub proof fn lemma_consumed_events(self, width: nat, height: nat)
        requires
            self.fits(width, height),
        ensures
            self.is_quiet() <==> self.events(width, height) == 0,
            !self.is_quiet() ==> self.consumed(width, height).events(width, height)
                == self.events(width, height) - 1,
    {
        match self {
            ChangeView::Created => {},
            ChangeView::Updated { rows, dropped } => {
                lemma_stripes_before_none(rows, height as int);
                if has_first_row(rows) {
                    let row = first_row(rows);
                    assert(is_first_row(rows, row));
                    lemma_stripes_behind(rows[row]);
                    let left = behind_stripe(rows[row]);
                    if left.0 < left.1 {
                        lemma_stripes_before_update(rows, row, Some(left), height as int);
                    } else {
                        assert(stripes_of(left) =~= Seq::<(int, int)>::empty());
                        lemma_stripes_before_update(rows, row, None, height as int);
                    }
                } else {
                    assert forall|row: int| 0 <= row < height implies !#[trigger]
                    rows.dom().contains(row) by {
                        if rows.dom().contains(row) {
                            lemma_first_row_exists(rows, row);
                        }
                    }
                }
            },
        }
    }

    /// Marking a span that lies within the dirty span of its row changes
    /// nothing.
    pub proof fn lemma_with_row_inside(self, index: int, start: int, end: int)
        requires
            self is Updated,
            self->rows.dom().contains(index),
            self->rows[index].0 <= start,
            end <= self->rows[index].1,
        ensures
            self.with_row(index, start, end) == self,
    {
        let rows = self->rows;
        if start < end {
            assert(rows.insert(index, rows[index]) =~= rows);
        }
    }

    /// Marking two spans in a clean row leaves the row dirty from the lesser
    /// start to the greater end, whether the two spans touch or not.
    pub proof fn lemma_with_row_twice(
        self,
        index: int,
        start: int,
        end: int,
        other_start: int,
        other_end: int,
    )
        requires
            self is Updated,
            !self->rows.dom().contains(index),
            start < end,
            other_start < other_end,
        ensures
            self.with_row(index, start, end).with_row(index, other_start, other_end) is Updated,
            span_of(
                self.with_row(index, start, end).with_row(index, other_start, other_end)->rows,
                index,
            ) == Some(widened(Some((start, end)), other_start, other_end)),
    {
    }

    /// Draining a stripe from a record without `dropped` takes the stripe
    /// from the first dirty row and leaves every other row as it is. Where
    /// the dirty span of that row is longer than the stripe, the row stays
    /// the first dirty row, with what lies behind the stripe; else the row
    /// is clean.
    pub proof fn lemma_consumed_row(self, width: nat, height: nat, row: int)
        requires
            self is Updated,
            !self->dropped,
            is_first_row(self->rows, row),
        ensures
            self.consumed(width, height) is Updated,
            !self.consumed(width, height)->dropped,
            forall|other: int|
                other != row ==> #[trigger] span_of(self.consumed(width, height)->rows, other)
                    == span_of(self->rows, other),
            behind_stripe(self->rows[row]).0 < behind_stripe(self->rows[row]).1 ==> is_first_row(
                self.consumed(width, height)->rows,
                row,
            ) && self.consumed(width, height)->rows[row] == behind_stripe(self->rows[row]),
            behind_stripe(self->rows[row]).0 >= behind_stripe(self->rows[row]).1 ==> span_of(
                self.consumed(width, height)->rows,
                row,
            ) is None,
    {
        lemma_first_row_unique(self->rows, row);
    }

    /// A record that fits a display is well-formed, and what is left of it
    /// after an event was drained fits the display too.
    pub proof fn lemma_consumed_fits(self, width: nat, height: nat)
        requires
            self.fits(width, height),
        ensures
            self.wf(),
            self.consumed(width, height).fits(width, height),
            self.consumed(width, height).wf(),
    {
        match self {
            ChangeView::Created => {},
            ChangeView::Updated { rows, dropped } => {
                if !dropped && has_first_row(rows) {
                    let row = first_row(rows);
                    assert(is_first_row(rows, row));
                    let left = self.consumed(width, height)->rows;
                    assert forall|other: int| #[trigger] left.dom().contains(other) implies 0
                        <= other < height && 0 <= left[other].0 < left[other].1 <= width by {
                        assert(rows.dom().contains(other));
                    }
                }
            },
        }
    }

    /// Merging two records that fit a display gives one that fits it.
    pub proof fn lemma_merged_fits(self, other: ChangeView, width: nat, height: nat)
        requires
            self.fits(width, height),
            other.fits(width, height),
        ensures
            self.merged(other).fits(width, height),
            self.merged(other).wf(),
    {
        match (self, other) {
            (
                ChangeView::Updated { rows, dropped },
                ChangeView::Updated { rows: other_rows, dropped: other_dropped },
            ) => {
                let all = merged_rows(rows, other_rows);
                assert forall|row: int| #[trigger] all.dom().contains(row) implies 0 <= row
                    < height && 0 <= all[row].0 < all[row].1 <= width by {
                    if rows.dom().contains(row) {
                    }
                    if other_rows.dom().contains(row) {
                    }
                }
            },
            _ => {},
        }
    }
}

impl View for Change {
    type V = ChangeView;

    open spec fn view(&self) -> ChangeView {
        match self {
            Change::Created => ChangeView::Created,
            Change::Updated(spans, dropped) => ChangeView::Updated {
                rows: rows_of(spans@),
                dropped: *dropped,
            },
        }
    }
}

impl Clone for Change {
    fn clone(&self) -> (copy: Self)
        ensures
            copy@ == self@,
    {
        match self {
            Change::Created => Change::Created,
            Change::Updated(spans, dropped) => {
                let mut copy: Vec<(usize, usize)> = Vec::new();
                let mut row: usize = 0;
                while row < spans.len()
                    invariant
                        row <= spans.len(),
                        copy@ == spans@.take(row as int),
                    decreases spans.len() - row,
                {
                    copy.push(spans[row]);
                    row += 1;
                }
                assert(spans@.take(row as int) =~= spans@);
                Change::Updated(copy, *dropped)
            },
        }
    }
}

impl Change {
    /// The record of a display on which nothing is pending.
    pub fn new() -> (change: Self)
        ensures
            change@ == ChangeView::quiet(),
            change@.is_quiet(),
    {
        let change = Change::Updated(Vec::new(), false);
        assert(rows_of(Seq::<(usize, usize)>::empty()) =~= no_rows());
        change
    }

    /// The record of a display of the given size all of whose pixels are
    /// dirty.
    pub fn full(width: usize, height: usize) -> (change: Self)
        ensures
            change@ == (ChangeView::Updated {
                rows: full_rows(width as nat, height as nat),
                dropped: false,
            }),
    {
        let mut spans: Vec<(usize, usize)> = Vec::new();
        let mut row: usize = 0;
        while row < height
            invariant
                row <= height,
                spans@.len() == row,
                forall|done: int| 0 <= done < row ==> spans@[done] == (0usize, width),
            decreases height - row,
        {
            spans.push((0, width));
            row += 1;
        }
        assert(rows_of(spans@) =~= full_rows(width as nat, height as nat));
        Change::Updated(spans, false)
    }

    /// Whether every dirty span lies within a display of the given size.
    pub fn fits(&self, width: usize, height: usize) -> (fits: bool)
        ensures
            fits == self@.fits(width as nat, height as nat),
    {
        match self {
            Change::Created => true,
            Change::Updated(spans, _) => {
                let mut row: usize = 0;
                while row < spans.len()
                    invariant
                        row <= spans.len(),
                        self@ is Updated,
                        self@->rows == rows_of(spans@),
                        forall|done: int|
                            0 <= done < row && #[trigger] rows_of(spans@).dom().contains(done)
                                ==> done < height && spans@[done].1 <= width,
                    decreases spans.len() - row,
                {
                    let (start, end) = spans[row];
                    if start < end && (row >= height || end > width) {
                        assert(rows_of(spans@).dom().contains(row as int));
                        assert(rows_of(spans@)[row as int] == (start as int, end as int));
                        return false;
                    }
                    row += 1;
                }
                true
            },
        }
    }

    /// Whether something is pending.
    pub fn is_pending(&self) -> (pending: bool)
        ensures
            pending == !self@.is_quiet(),
    {
        match self {
            Change::Created => true,
            Change::Updated(spans, dropped) => *dropped || Self::first_dirty(spans).is_some(),
        }
    }

    /// The first row with a span that is not empty.
    pub(crate) fn first_dirty(spans: &Vec<(usize, usize)>) -> (first: Option<usize>)
        ensures
            first is Some == has_first_row(rows_of(spans@)),
            first matches Some(row) ==> row < spans@.len() && spans@[row as int].0
                < spans@[row as int].1 && first_row(rows_of(spans@)) == row,
    {
        let mut row: usize = 0;
        while row < spans.len()
            invariant
                row <= spans.len(),
                forall|other: int| 0 <= other < row ==> !rows_of(spans@).dom().contains(other),
            decreases spans.len() - row,
        {
            let (start, end) = spans[row];
            if start < end {
                proof {
                    assert(is_first_row(rows_of(spans@), row as int));
                    lemma_first_row_unique(rows_of(spans@), row as int);
                }
                return Some(row);
            }
            row += 1;
        }
        proof {
            if has_first_row(rows_of(spans@)) {
                let found = first_row(rows_of(spans@));
                assert(is_first_row(rows_of(spans@), found));
            }
        }
        None
    }

    /// Forgets everything that is pending.
    pub fn reset(&mut self)
        ensures
            final(self)@ == ChangeView::quiet(),
    {
        *self = Change::new();
    }

    /// Merges `other` into this record. `Created` wins over `Updated`, on
    /// either side; else the dirty rows are united and `dropped` is kept
    /// once it is set.
    pub fn update(&mut self, other: &Self)
        ensures
            final(self)@ == old(self)@.merged(other@),
    {
        match self {
            Change::Created => {},
            Change::Updated(spans, dropped) => {
                match other {
                    Change::Created => {
                        *self = Change::Created;
                    },
                    Change::Updated(other_spans, other_dropped) => {
                        *dropped = *dropped || *other_dropped;
                        let ghost before = rows_of(spans@);
                        let mut row: usize = 0;
                        assert(rows_of(other_spans@.take(0)) =~= no_rows());
                        assert(merged_rows(before, no_rows()) =~= before);
                        while row < other_spans.len()
                            invariant
                                row <= other_spans.len(),
                                rows_of(spans@) == merged_rows(
                                    before,
                                    rows_of(other_spans@.take(row as int)),
                                ),
                            decreases other_spans.len() - row,
                        {
                            let (start, end) = other_spans[row];
                            Self::mark(spans, row, start, end);
                            proof {
                                let done = rows_of(other_spans@.take(row as int));
                                let next = rows_of(other_spans@.take(row as int + 1));
                                assert(!done.dom().contains(row as int));
                                assert(rows_of(spans@) =~= merged_rows(before, next));
                            }
                            row += 1;
                        }
                        assert(other_spans@.take(row as int) =~= other_spans@);
                    },
                }
            },
        }
    }

    /// Marks `[start, end)` dirty in row `index`: a clean row gets that
    /// span, a dirty one is widened to cover it. An empty span marks
    /// nothing, and a record that is `Created` stays as it is: all of its
    /// pixels are dirty already.
    pub fn update_row(&mut self, index: usize, start: usize, end: usize)
        requires
            start < end ==> index < usize::MAX,
        ensures
            final(self)@ == old(self)@.with_row(index as int, start as int, end as int),
    {
        match self {
            Change::Created => {},
            Change::Updated(spans, _) => {
                Self::mark(spans, index, start, end);
            },
        }
    }

    fn mark(spans: &mut Vec<(usize, usize)>, index: usize, start: usize, end: usize)
        requires
            start < end ==> index < usize::MAX,
        ensures
            start >= end ==> rows_of(final(spans)@) == rows_of(old(spans)@),
            start < end ==> rows_of(final(spans)@) == rows_of(old(spans)@).insert(
                index as int,
                widened(span_of(rows_of(old(spans)@), index as int), start as int, end as int),
            ),
    {
        if start < end {
            while spans.len() <= index
                invariant
                    index < usize::MAX,
                    rows_of(spans@) == rows_of(old(spans)@),
                decreases index + 1 - spans.len(),
            {
                let ghost before = spans@;
                spans.push((0, 0));
                assert(rows_of(spans@) =~= rows_of(before));
            }
            let ghost before = rows_of(spans@);
            let (mut s_start, mut s_end) = spans[index];
            Self::update_stripe(&mut s_start, &mut s_end, start, end);
            spans[index] = (s_start, s_end);
            assert(rows_of(spans@) =~= before.insert(
                index as int,
                widened(span_of(before, index as int), start as int, end as int),
            ));
        }
    }

    fn update_stripe(s_start: &mut usize, s_end: &mut usize, start: usize, end: usize)
        ensures
            start >= end ==> *final(s_start) == *old(s_start) && *final(s_end) == *old(s_end),
            start < end ==> (*final(s_start) as int, *final(s_end) as int) == widened(
                if *old(s_start) < *old(s_end) {
                    Some((*old(s_start) as int, *old(s_end) as int))
                } else {
                    None
                },
                start as int,
                end as int,
            ),
    {
        if start < end {
            if *s_start < *s_end {
                if start < *s_start {
                    *s_start = start;
                }
                if end > *s_end {
                    *s_end = end;
                }
            } else {
                *s_start = start;
                *s_end = end;
            }
        }
    }
}

} // verus!
