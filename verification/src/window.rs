//! Gathering decoded signals into one row per time window.
//!
//! Time is cut into windows of a fixed width. Within a window the first value
//! decoded for a signal is kept and later ones are dropped. A window is closed
//! by the first frame that arrives after its end, or by the end of the stream:
//! the time goes into the time column, every signal without a value gets a
//! null, and the next window begins. A frame closes at most one window,
//! however late it arrives.

use crate::batch::{
    column_fault, finish_record_batch, first_fault, first_uneven, spec_verdict, RecordBatch,
};
use crate::schema::{first_named, lemma_first_named, well_formed, ColumnSpec, Schema};
use crate::store::{has_null, Cell, GenericColumn, SignalValue};
use vstd::prelude::*;

verus! {

/// A point on the clock of the stream, in milliseconds since its start.
///
/// The two fields describe the same instant. `whole_ms` is the instant rounded
/// up to a whole millisecond, which is what decides on which side of a window
/// boundary it lies; `bits` is the instant as the bit pattern of a double,
/// which is what the time column stores.
#[derive(Clone, Copy, Debug, PartialEq, Eq, Structural)]
pub struct Elapsed {
    pub whole_ms: i64,
    pub bits: u64,
}

/// One signal of a decoded frame.
#[derive(Debug, PartialEq, Eq)]
pub struct DecodedSignal {
    pub name: String,
    pub value: SignalValue,
}

/// A setting with which no recording can start.
#[derive(Clone, Copy, Debug, PartialEq, Eq, Structural)]
pub enum ConfigError {
    /// The window width is zero or negative.
    WindowWidth,
}

/// The pending row after `value` has been offered under `name`: the first
/// signal column of that name takes it if it has none yet; otherwise nothing
/// changes.
pub open spec fn spec_offer(
    schema: Seq<ColumnSpec>,
    pending: Seq<Option<Cell>>,
    name: Seq<char>,
    value: SignalValue,
) -> Seq<Option<Cell>> {
    match first_named(schema, name, 1) {
        Some(i) => if pending[i] is None {
            pending.update(i, Some(value.spec_cell(schema[i].storage)))
        } else {
            pending
        },
        None => pending,
    }
}

/// The pending row after the first `n` of `signals` have been offered in
/// order.
pub open spec fn spec_offer_all(
    schema: Seq<ColumnSpec>,
    pending: Seq<Option<Cell>>,
    signals: Seq<DecodedSignal>,
    n: int,
) -> Seq<Option<Cell>>
    decreases n,
{
    if n <= 0 {
        pending
    } else {
        spec_offer(
            schema,
            spec_offer_all(schema, pending, signals, n - 1),
            signals[n - 1].name@,
            signals[n - 1].value,
        )
    }
}

/// The row that a window leaves behind when it is closed at `at`: what is
/// pending, with the time in column 0.
pub open spec fn spec_row(pending: Seq<Option<Cell>>, at: Elapsed) -> Seq<Option<Cell>> {
    pending.update(0, Some(Cell::F64(at.bits)))
}

/// A row with nothing in it.
pub open spec fn blank(columns: nat) -> Seq<Option<Cell>> {
    Seq::new(columns, |i: int| None)
}

/// The first value wins: once a value has been offered under a name, a later
/// value under the same name changes nothing in the same window.
pub proof fn lemma_first_value_wins(
    schema: Seq<ColumnSpec>,
    pending: Seq<Option<Cell>>,
    name: Seq<char>,
    first: SignalValue,
    later: SignalValue,
)
    requires
        pending.len() == schema.len(),
    ensures
        spec_offer(schema, spec_offer(schema, pending, name, first), name, later) == spec_offer(
            schema,
            pending,
            name,
            first,
        ),
{
    lemma_first_named(schema, name, 1);
}

/// Of any run of values offered under one name within a window, only the
/// first counts: the pending row is as if it alone had been offered.
pub proof fn lemma_only_the_first_is_kept(
    schema: Seq<ColumnSpec>,
    pending: Seq<Option<Cell>>,
    signals: Seq<DecodedSignal>,
    n: int,
)
    requires
        pending.len() == schema.len(),
        1 <= n <= signals.len(),
        forall|k: int| 0 <= k < n ==> (#[trigger] signals[k]).name@ == signals[0].name@,
    ensures
        spec_offer_all(schema, pending, signals, n) == spec_offer(
            schema,
            pending,
            signals[0].name@,
            signals[0].value,
        ),
    decreases n,
{
    if n == 1 {
        assert(spec_offer_all(schema, pending, signals, 0) == pending);
    } else {
        lemma_only_the_first_is_kept(schema, pending, signals, n - 1);
        assert(signals[n - 1].name@ == signals[0].name@);
        lemma_first_value_wins(
            schema,
            pending,
            signals[0].name@,
            signals[0].value,
            signals[n - 1].value,
        );
    }
}

/// Which of the first `n` of `signals` is the first to go by the name of
/// signal column `column`, if any of them does.
pub open spec fn first_offer(
    schema: Seq<ColumnSpec>,
    signals: Seq<DecodedSignal>,
    n: int,
    column: int,
) -> Option<int>
    decreases n,
{
    if n <= 0 {
        None
    } else {
        match first_offer(schema, signals, n - 1, column) {
            Some(k) => Some(k),
            None => if first_named(schema, signals[n - 1].name@, 1) == Some(column) {
                Some(n - 1)
            } else {
                None
            },
        }
    }
}

/// What a window keeps: after any signals have been offered, in whatever
/// order and however often, a column that had a value still has it, and a
/// column that had none holds the first value offered for it, or still none
/// if none was offered.
pub proof fn lemma_window_keeps_first_values(
    schema: Seq<ColumnSpec>,
    pending: Seq<Option<Cell>>,
    signals: Seq<DecodedSignal>,
    n: int,
    column: int,
)
    requires
        pending.len() == schema.len(),
        0 <= n <= signals.len(),
        0 <= column < schema.len(),
    ensures
        spec_offer_all(schema, pending, signals, n).len() == pending.len(),
        spec_offer_all(schema, pending, signals, n)[column] == if pending[column] is Some {
            pending[column]
        } else {
            match first_offer(schema, signals, n, column) {
                Some(k) => Some(signals[k].value.spec_cell(schema[column].storage)),
                None => None,
            }
        },
    decreases n,
{
    if n > 0 {
        lemma_window_keeps_first_values(schema, pending, signals, n - 1, column);
        let before = spec_offer_all(schema, pending, signals, n - 1);
        lemma_first_named(schema, signals[n - 1].name@, 1);
        lemma_offer_is_local(schema, before, signals[n - 1].name@, signals[n - 1].value);
    }
}

/// An offer touches one column at most: the pending row keeps its width, and
/// every column but the one named keeps what it had. A column that had a
/// value keeps it in any case.
pub proof fn lemma_offer_is_local(
    schema: Seq<ColumnSpec>,
    pending: Seq<Option<Cell>>,
    name: Seq<char>,
    value: SignalValue,
)
    requires
        pending.len() == schema.len(),
    ensures
        spec_offer(schema, pending, name, value).len() == pending.len(),
        forall|i: int|
            0 <= i < pending.len() && (pending[i] is Some || first_named(schema, name, 1) != Some(
                i,
            )) ==> spec_offer(schema, pending, name, value)[i] == pending[i],
        spec_offer(schema, pending, name, value)[0] == pending[0],
{
    lemma_first_named(schema, name, 1);
}

/// A window that closes leaves a row with the time in column 0, which is
/// never null, and in every other column the value that was pending: a
/// signal that had none is recorded as null, not as a number.
pub proof fn lemma_closed_row(pending: Seq<Option<Cell>>, at: Elapsed)
    requires
        pending.len() >= 1,
    ensures
        spec_row(pending, at).len() == pending.len(),
        spec_row(pending, at)[0] == Some(Cell::F64(at.bits)),
        forall|i: int| 1 <= i < pending.len() ==> spec_row(pending, at)[i] == pending[i],
{
}

/// The accumulator: the columns as they grow, and the state of the window
/// that is open.
#[derive(Debug)]
pub struct Accumulator {
    schema: Schema,
    columns: Vec<GenericColumn>,
    filled: Vec<bool>,
    width_ms: i64,
}

impl Accumulator {
    /// The number of windows closed so far.
    pub closed spec fn closed(&self) -> nat {
        self.columns@[0].rows().len()
    }

    /// The columns of the table.
    pub closed spec fn schema(&self) -> Seq<ColumnSpec> {
        self.schema@
    }

    /// The width of a window in milliseconds.
    pub closed spec fn width(&self) -> int {
        self.width_ms as int
    }

    /// All that column `i` holds so far: one row for each closed window, and
    /// one more if the signal has a value in the open window.
    pub closed spec fn column(&self, i: int) -> Seq<Option<Cell>> {
        self.columns@[i].rows()
    }

    /// The rows of the closed windows, oldest first; each has one cell for
    /// every column.
    pub closed spec fn rows(&self) -> Seq<Seq<Option<Cell>>> {
        Seq::new(
            self.closed(),
            |j: int| Seq::new(self.columns@.len(), |i: int| self.columns@[i].rows()[j]),
        )
    }

    /// The row of the open window: for every signal column the value kept so
    /// far, if any. Column 0 is empty until the window is closed.
    pub closed spec fn pending(&self) -> Seq<Option<Cell>> {
        Seq::new(
            self.columns@.len(),
            |i: int| if self.filled@[i] { self.columns@[i].rows()[self.closed() as int] } else { None },
        )
    }

    /// The clock reading beyond which the open window is over.
    pub open spec fn boundary(&self) -> int {
        (self.rows().len() + 1) * self.width()
    }

    /// The invariant of the accumulator: every column stands for its schema
    /// column and holds one row for each closed window, and one more exactly
    /// where the open window has a value.
    pub closed spec fn wf(&self) -> bool {
        &&& well_formed(self.schema@)
        &&& self.columns@.len() == self.schema@.len()
        &&& self.filled@.len() == self.schema@.len()
        &&& self.width_ms > 0
        &&& !self.filled@[0]
        &&& !has_null(self.columns@[0].rows())
        &&& forall|i: int|
            0 <= i < self.columns@.len() ==> {
                &&& (#[trigger] self.columns@[i]).storage() == self.schema@[i].storage
                &&& self.columns@[i].rows().len() == self.closed() + if self.filled@[i] {
                    1nat
                } else {
                    0nat
                }
                &&& self.filled@[i] ==> self.columns@[i].rows()[self.closed() as int] is Some
            }
    }

    /// In a well-formed accumulator the rows, the pending row and the columns
    /// fit together: every row is as wide as the schema, column `i` holds
    /// cell `i` of every row in order, and after them the pending value of
    /// the open window if there is one. So between windows all columns are
    /// as long as the number of windows closed.
    pub proof fn lemma_row_count(self)
        requires
            self.wf(),
        ensures
            self.pending().len() == self.schema().len(),
            self.pending()[0] is None,
            forall|j: int|
                0 <= j < self.rows().len() ==> (#[trigger] self.rows()[j]).len()
                    == self.schema().len(),
            forall|i: int|
                0 <= i < self.schema().len() ==> (#[trigger] self.column(i)).len()
                    == self.rows().len() + if self.pending()[i] is Some {
                    1nat
                } else {
                    0nat
                },
            forall|i: int, j: int|
                0 <= i < self.schema().len() && 0 <= j < self.rows().len() ==> (
                #[trigger] self.column(i)[j]) == self.rows()[j][i],
            forall|i: int|
                0 <= i < self.schema().len() && self.pending()[i] is Some ==> (
                #[trigger] self.column(i))[self.rows().len() as int] == self.pending()[i],
    {
    }

    /// Starts a recording: no window is closed and nothing is pending.
    /// A width that is not positive is refused.
    pub fn new(schema: Schema, width_ms: i64) -> (made: Result<Accumulator, ConfigError>)
        ensures
            made is Err <==> width_ms <= 0,
            made matches Err(e) ==> e == ConfigError::WindowWidth,
            made matches Ok(acc) ==> {
                &&& acc.wf()
                &&& acc.schema() == schema@
                &&& acc.width() == width_ms
                &&& acc.rows().len() == 0
                &&& acc.pending() == blank(schema@.len())
            },
    {
        if width_ms <= 0 {
            return Err(ConfigError::WindowWidth);
        }
        let n = schema.len();
        let mut columns: Vec<GenericColumn> = Vec::new();
        let mut filled: Vec<bool> = Vec::new();
        let mut i: usize = 0;
        while i < n
            invariant
                i <= n,
                n == schema@.len(),
                columns@.len() == i,
                filled@.len() == i,
                forall|k: int|
                    0 <= k < i ==> {
                        &&& (#[trigger] columns@[k]).storage() == schema@[k].storage
                        &&& columns@[k].rows().len() == 0
                        &&& !filled@[k]
                    },
            decreases n - i,
        {
            columns.push(GenericColumn::new(schema.column(i).storage));
            filled.push(false);
            i = i + 1;
        }
        let acc = Accumulator { schema, columns, filled, width_ms };
        assert(acc.pending() =~= blank(schema@.len()));
        Ok(acc)
    }

    /// The number of windows closed so far.
    pub fn closed_windows(&self) -> (n: usize)
        requires
            self.wf(),
        ensures
            n == self.rows().len(),
    {
        self.columns[0].len()
    }

    /// Offers one decoded value under the name of its signal. It is stored if
    /// the name is that of a signal column which has no value yet in the open
    /// window; the first value wins, and any later one is dropped. Returns
    /// whether the value was stored.
    pub fn offer(&mut self, name: &str, value: &SignalValue) -> (stored: bool)
        requires
            old(self).wf(),
        ensures
            final(self).wf(),
            final(self).schema() == old(self).schema(),
            final(self).width() == old(self).width(),
            final(self).rows() == old(self).rows(),
            final(self).pending() == spec_offer(old(self).schema(), old(self).pending(), name@, *value),
            stored == (final(self).pending() != old(self).pending()),
    {
        proof {
            lemma_first_named(self.schema@, name@, 1);
        }
        match self.schema.index_of(name) {
            Some(i) => {
                if self.filled[i] {
                    false
                } else {
                    let ghost before = *self;
                    self.columns[i].push_value(value);
                    self.filled.set(i, true);
                    proof {
                        assert(self.closed() == before.closed());
                        assert forall|k: int| 0 <= k < self.columns@.len() implies {
                            &&& (#[trigger] self.columns@[k]).storage() == self.schema@[k].storage
                            &&& self.columns@[k].rows().len() == self.closed() + if self.filled@[k] {
                                1nat
                            } else {
                                0nat
                            }
                            &&& self.filled@[k] ==> self.columns@[k].rows()[self.closed() as int] is Some
                        } by {
                            assert(before.columns@[k].storage() == before.schema@[k].storage);
                        }
                        assert(self.rows() =~~= before.rows());
                        assert(self.pending() =~= before.pending().update(
                            i as int,
                            Some(value.spec_cell(self.schema@[i as int].storage)),
                        ));
                        assert(before.pending()[i as int] is None);
                    }
                    true
                }
            },
            None => false,
        }
    }

    /// Offers every signal of one decoded frame, in the order decoded.
    pub fn offer_all(&mut self, signals: &Vec<DecodedSignal>)
        requires
            old(self).wf(),
        ensures
            final(self).wf(),
            final(self).schema() == old(self).schema(),
            final(self).width() == old(self).width(),
            final(self).rows() == old(self).rows(),
            final(self).pending() == spec_offer_all(
                old(self).schema(),
                old(self).pending(),
                signals@,
                signals@.len() as int,
            ),
    {
        let mut k: usize = 0;
        while k < signals.len()
            invariant
                k <= signals@.len(),
                self.wf(),
                self.schema() == old(self).schema(),
                self.width() == old(self).width(),
                self.rows() == old(self).rows(),
                self.pending() == spec_offer_all(
                    old(self).schema(),
                    old(self).pending(),
                    signals@,
                    k as int,
                ),
            decreases signals@.len() - k,
        {
            let signal = &signals[k];
            self.offer(signal.name.as_str(), &signal.value);
            k = k + 1;
        }
    }

    /// Whether the instant `at` lies beyond the end of the open window.
    pub fn is_due(&self, at: Elapsed) -> (due: bool)
        requires
            self.wf(),
        ensures
            due == (at.whole_ms > self.boundary()),
    {
        let closed = self.columns[0].len();
        assert(closed == self.rows().len());
        assert((closed + 1) * self.width_ms <= 0x1_0000_0000_0000_0000 * 0x7fff_ffff_ffff_ffff)
            by (nonlinear_arith)
            requires
                0 <= closed + 1 <= 0x1_0000_0000_0000_0000,
                0 <= self.width_ms <= 0x7fff_ffff_ffff_ffff,
        ;
        assert((closed + 1) * self.width_ms >= 0) by (nonlinear_arith)
            requires
                0 <= closed + 1,
                0 <= self.width_ms,
        ;
        let boundary: i128 = (closed as i128 + 1) * (self.width_ms as i128);
        (at.whole_ms as i128) > boundary
    }

    /// Closes the open window at `at`: the time goes into column 0, every
    /// signal column without a value gets a null, and a new window opens with
    /// nothing pending.
    pub fn close_window(&mut self, at: Elapsed)
        requires
            old(self).wf(),
        ensures
            final(self).wf(),
            final(self).schema() == old(self).schema(),
            final(self).width() == old(self).width(),
            final(self).rows() == old(self).rows().push(spec_row(old(self).pending(), at)),
            final(self).pending() == blank(old(self).schema().len()),
            forall|i: int|
                0 <= i < old(self).schema().len() ==> (#[trigger] final(self).column(i)).len()
                    == old(self).rows().len() + 1,
    {
        let ghost before = *self;
        let n = self.columns.len();
        match &mut self.columns[0] {
            GenericColumn::F64(times) => {
                times.push(Some(at.bits));
            },
            _ => {},
        }
        assert(self.columns@[0].rows() =~= before.columns@[0].rows().push(Some(Cell::F64(at.bits))));
        let mut i: usize = 1;
        while i < n
            invariant
                1 <= i <= n,
                n == self.columns@.len(),
                before.wf(),
                self.schema == before.schema,
                self.width_ms == before.width_ms,
                self.columns@.len() == before.columns@.len(),
                self.filled@.len() == before.filled@.len(),
                !self.filled@[0],
                self.columns@[0].storage() == before.columns@[0].storage(),
                self.columns@[0].rows() == before.columns@[0].rows().push(Some(Cell::F64(at.bits))),
                forall|k: int|
                    1 <= k < i ==> {
                        &&& (#[trigger] self.columns@[k]).storage() == before.columns@[k].storage()
                        &&& !self.filled@[k]
                        &&& self.columns@[k].rows() == if before.filled@[k] {
                            before.columns@[k].rows()
                        } else {
                            before.columns@[k].rows().push(None)
                        }
                    },
                forall|k: int| i <= k < n ==> (#[trigger] self.columns@[k]) == before.columns@[k],
                forall|k: int| i <= k < n ==> (#[trigger] self.filled@[k]) == before.filled@[k],
            decreases n - i,
        {
            if !self.filled[i] {
                self.columns[i].push_null();
            }
            self.filled.set(i, false);
            i = i + 1;
        }
        proof {
            let closed = before.closed();
            assert(self.closed() == closed + 1);
            assert forall|k: int| 0 <= k < self.columns@.len() implies {
                &&& (#[trigger] self.columns@[k]).storage() == self.schema@[k].storage
                &&& self.columns@[k].rows().len() == self.closed() + if self.filled@[k] {
                    1nat
                } else {
                    0nat
                }
                &&& self.filled@[k] ==> self.columns@[k].rows()[self.closed() as int] is Some
            } by {
                assert(before.columns@[k].storage() == before.schema@[k].storage);
            }
            let row = spec_row(before.pending(), at);
            assert forall|j: int| 0 <= j < self.rows().len() implies self.rows()[j]
                == before.rows().push(row)[j] by {
                assert forall|k: int| 0 <= k < self.columns@.len() implies self.columns@[k].rows()[j]
                    == before.rows().push(row)[j][k] by {
                    assert(before.columns@[k].storage() == before.schema@[k].storage);
                }
                assert(self.rows()[j] =~= before.rows().push(row)[j]);
            }
            assert(self.rows() =~= before.rows().push(row));
            assert(self.pending() =~= blank(before.schema().len()));
            self.lemma_row_count();
        }
    }

    /// Takes note of the clock: if `at` lies beyond the end of the open
    /// window, that window is closed at `at`. Returns whether it was. One
    /// call closes one window at most, however far beyond the end `at` lies.
    pub fn advance(&mut self, at: Elapsed) -> (closed: bool)
        requires
            old(self).wf(),
        ensures
            final(self).wf(),
            final(self).schema() == old(self).schema(),
            final(self).width() == old(self).width(),
            closed == (at.whole_ms > old(self).boundary()),
            closed ==> final(self).rows() == old(self).rows().push(spec_row(old(self).pending(), at))
                && final(self).pending() == blank(old(self).schema().len()),
            closed ==> forall|i: int|
                0 <= i < old(self).schema().len() ==> (#[trigger] final(self).column(i)).len()
                    == old(self).rows().len() + 1,
            !closed ==> final(self).rows() == old(self).rows() && final(self).pending() == old(
                self,
            ).pending(),
    {
        if self.is_due(at) {
            self.close_window(at);
            true
        } else {
            false
        }
    }

    /// Works one frame into the table: its decoded signals are offered in
    /// order, then the clock is advanced to the time of the frame. A frame
    /// that could not be decoded comes with no signals and only moves the
    /// clock. Returns whether the frame closed a window.
    pub fn process_frame(&mut self, signals: &Vec<DecodedSignal>, at: Elapsed) -> (closed: bool)
        requires
            old(self).wf(),
        ensures
            final(self).wf(),
            final(self).schema() == old(self).schema(),
            final(self).width() == old(self).width(),
            closed == (at.whole_ms > old(self).boundary()),
            closed ==> final(self).rows() == old(self).rows().push(
                spec_row(
                    spec_offer_all(
                        old(self).schema(),
                        old(self).pending(),
                        signals@,
                        signals@.len() as int,
                    ),
                    at,
                ),
            ) && final(self).pending() == blank(old(self).schema().len()),
            !closed ==> final(self).rows() == old(self).rows() && final(self).pending()
                == spec_offer_all(
                old(self).schema(),
                old(self).pending(),
                signals@,
                signals@.len() as int,
            ),
    {
        self.offer_all(signals);
        self.advance(at)
    }

    /// Ends the recording at `at`: the open window, however short, is closed
    /// like any other, and the columns are handed out. Every column then holds
    /// exactly one row for each window closed, this last one included.
    pub fn finish(self, at: Elapsed) -> (columns: Vec<GenericColumn>)
        requires
            self.wf(),
        ensures
            columns@.len() == self.schema().len(),
            forall|i: int|
                0 <= i < columns@.len() ==> {
                    &&& (#[trigger] columns@[i]).storage() == self.schema()[i].storage
                    &&& columns@[i].rows().len() == self.rows().len() + 1
                    &&& forall|j: int|
                        0 <= j < self.rows().len() ==> columns@[i].rows()[j] == self.rows()[j][i]
                    &&& columns@[i].rows()[self.rows().len() as int] == spec_row(self.pending(), at)[i]
                },
    {
        let mut acc = self;
        acc.close_window(at);
        proof {
            acc.lemma_row_count();
            assert forall|i: int| 0 <= i < acc.columns@.len() implies {
                &&& (#[trigger] acc.columns@[i]).storage() == self.schema()[i].storage
                &&& acc.columns@[i].rows().len() == self.rows().len() + 1
                &&& forall|j: int|
                    0 <= j < self.rows().len() ==> acc.columns@[i].rows()[j] == self.rows()[j][i]
                &&& acc.columns@[i].rows()[self.rows().len() as int] == spec_row(self.pending(), at)[i]
            } by {
                assert(acc.column(i) == acc.columns@[i].rows());
                assert(acc.pending()[i] is None);
                assert forall|j: int| 0 <= j < acc.rows().len() implies acc.columns@[i].rows()[j]
                    == acc.rows()[j][i] by {
                    assert(acc.column(i)[j] == acc.rows()[j][i]);
                }
            }
        }
        acc.columns
    }

    /// Ends the recording at `at` like `finish`, and binds the columns into
    /// a table under the schema. This cannot fail: the columns of an
    /// accumulator are of even length and of the types of the schema, and
    /// the time column holds no null.
    pub fn into_batch(self, at: Elapsed) -> (batch: RecordBatch)
        requires
            self.wf(),
        ensures
            batch.schema() == self.schema(),
            batch.rows() == self.rows().len() + 1,
            forall|i: int, j: int|
                0 <= i < self.schema().len() && 0 <= j < self.rows().len() ==> #[trigger] batch.column(
                    i,
                )[j] == self.rows()[j][i],
            forall|i: int|
                0 <= i < self.schema().len() ==> (#[trigger] batch.column(i))[self.rows().len() as int]
                    == spec_row(self.pending(), at)[i],
    {
        let mut acc = self;
        acc.close_window(at);
        let ghost cols = acc.columns@;
        proof {
            acc.lemma_row_count();
            acc.lemma_is_table();
            assert forall|i: int| 0 <= i < cols.len() implies {
                &&& (#[trigger] cols[i]).rows().len() == self.rows().len() + 1
                &&& forall|j: int| 0 <= j < self.rows().len() ==> cols[i].rows()[j] == self.rows()[j][i]
                &&& cols[i].rows()[self.rows().len() as int] == spec_row(self.pending(), at)[i]
            } by {
                assert(acc.column(i) == cols[i].rows());
                assert(acc.pending()[i] is None);
                assert forall|j: int| 0 <= j < acc.rows().len() implies cols[i].rows()[j]
                    == acc.rows()[j][i] by {
                    assert(acc.column(i)[j] == acc.rows()[j][i]);
                }
            }
        }
        let Accumulator { schema, columns, filled: _, width_ms: _ } = acc;
        match finish_record_batch(columns, schema) {
            Ok(batch) => {
                proof {
                    assert forall|i: int| 0 <= i < self.schema().len() implies #[trigger] batch.column(
                        i,
                    ) == cols[i].rows() by {
                        assert(batch.column(i) == columns@[i].rows());
                    }
                }
                batch
            },
            Err(_) => vstd::pervasive::unreached(),
        }
    }

    /// Between windows the columns of a well-formed accumulator make a
    /// table: nothing is wrong with them under the schema.
    proof fn lemma_is_table(self)
        requires
            self.wf(),
            self.pending() == blank(self.schema().len()),
        ensures
            spec_verdict(self.columns@, self.schema@) is None,
    {
        assert forall|i: int| 0 <= i < self.columns@.len() implies !self.filled@[i] by {
            assert(self.pending()[i] is None);
        }
        lemma_all_even(self.columns@, 1);
        lemma_all_sound(self.columns@, self.schema@, 0);
    }
}

/// Columns that all have the length of column 0 are even.
proof fn lemma_all_even(columns: Seq<GenericColumn>, from: int)
    requires
        0 <= from,
        forall|i: int|
            0 <= i < columns.len() ==> (#[trigger] columns[i]).rows().len() == columns[0].rows().len(),
    ensures
        first_uneven(columns, from) is None,
    decreases columns.len() - from,
{
    if from < columns.len() {
        lemma_all_even(columns, from + 1);
    }
}

/// Columns of which none has a fault have no first fault.
proof fn lemma_all_sound(columns: Seq<GenericColumn>, schema: Seq<ColumnSpec>, from: int)
    requires
        0 <= from,
        forall|i: int|
            0 <= i < columns.len() ==> column_fault(#[trigger] columns[i], schema[i], i) is None,
    ensures
        first_fault(columns, schema, from) is None,
    decreases columns.len() - from,
{
    if from < columns.len() {
        lemma_all_sound(columns, schema, from + 1);
    }
}

} // verus!
