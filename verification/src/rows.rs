//! Row-oriented writing: validation of each row and the batching of rows
//! between writes.

use vstd::prelude::*;
use vstd::string::*;
use crate::conversion::{
    ArrayArg, ConversionError, ExceptionKind, class_exception, classify_conversion_error, spec_classify,
};
use crate::value::{ParquetValue, estimate_row_size, row_size};

verus! {

/// Why a row was refused.
pub enum RowError {
    /// The row is not an array.
    NotArray,
    /// One of the row's values failed to convert.
    Conversion(ConversionError),
}

impl RowError {
    /// The exception this refusal is raised as.
    pub fn exception(&self) -> (k: ExceptionKind)
        ensures
            k == (match self {
                RowError::NotArray => ExceptionKind::TypeError,
                RowError::Conversion(e) => class_exception(e.class),
            }),
    {
        match self {
            RowError::NotArray => ExceptionKind::TypeError,
            RowError::Conversion(e) => e.exception(),
        }
    }

    /// The text raised for this refusal.
    pub fn message(&self) -> (m: String)
        ensures
            m@ == (match self {
                RowError::NotArray => "each row must be an array"@,
                RowError::Conversion(e) => e.message@,
            }),
    {
        match self {
            RowError::NotArray => String::from_str("each row must be an array"),
            RowError::Conversion(e) => e.message(),
        }
    }
}

/// The values of a row: refused when the row is not an array or when one of
/// its values failed to convert, reporting the first failure.
pub fn row_values(arg: ArrayArg) -> (r: Result<Vec<ParquetValue>, RowError>)
    ensures
        match arg {
            ArrayArg::NotArray => r matches Err(RowError::NotArray),
            ArrayArg::Items(items) => match items.failure {
                Some(m) => r matches Err(RowError::Conversion(e)) && (e.class, e.message@)
                    == spec_classify(m@),
                None => r matches Ok(v) && v@ == items.values@,
            },
        },
{
    match arg {
        ArrayArg::NotArray => Err(RowError::NotArray),
        ArrayArg::Items(items) => match items.failure {
            Some(m) => Err(RowError::Conversion(classify_conversion_error(m.as_str()))),
            None => Ok(items.values),
        },
    }
}

/// The values of a sequence of rows.
pub open spec fn row_views(rows: Seq<Vec<ParquetValue>>) -> Seq<Seq<ParquetValue>> {
    rows.map_values(|r: Vec<ParquetValue>| r@)
}

/// The sum of the estimated sizes of a sequence of rows.
pub open spec fn rows_size(rows: Seq<Seq<ParquetValue>>) -> nat
    decreases rows.len(),
{
    if rows.len() == 0 {
        0
    } else {
        rows_size(rows.drop_last()) + row_size(rows.last())
    }
}

/// The rows of a sequence of batches, laid end to end.
pub open spec fn flatten(batches: Seq<Seq<Seq<ParquetValue>>>) -> Seq<Seq<ParquetValue>>
    decreases batches.len(),
{
    if batches.len() == 0 {
        Seq::empty()
    } else {
        flatten(batches.drop_last()) + batches.last()
    }
}

/// One operation on a batcher: pushing a row, or taking the pending batch.
pub enum BatchOp {
    Push(Seq<ParquetValue>),
    Take,
}

/// The state of a batcher: the batches handed out so far, in order, and the
/// rows pending.
pub struct BatchRun {
    pub batches: Seq<Seq<Seq<ParquetValue>>>,
    pub pending: Seq<Seq<ParquetValue>>,
}

/// A batcher that has seen no row.
pub open spec fn empty_run() -> BatchRun {
    BatchRun { batches: Seq::empty(), pending: Seq::empty() }
}

/// The state after one operation: a push adds the row to the pending
/// rows; a take hands the pending rows out as one batch.
pub open spec fn step(s: BatchRun, op: BatchOp) -> BatchRun {
    match op {
        BatchOp::Push(r) => BatchRun { batches: s.batches, pending: s.pending.push(r) },
        BatchOp::Take => BatchRun { batches: s.batches.push(s.pending), pending: Seq::empty() },
    }
}

/// The state after a sequence of operations, from a fresh batcher.
pub open spec fn run(ops: Seq<BatchOp>) -> BatchRun
    decreases ops.len(),
{
    if ops.len() == 0 {
        empty_run()
    } else {
        step(run(ops.drop_last()), ops.last())
    }
}

/// The rows pushed by a sequence of operations, in order.
pub open spec fn pushed_rows(ops: Seq<BatchOp>) -> Seq<Seq<ParquetValue>>
    decreases ops.len(),
{
    if ops.len() == 0 {
        Seq::empty()
    } else {
        match ops.last() {
            BatchOp::Push(r) => pushed_rows(ops.drop_last()).push(r),
            BatchOp::Take => pushed_rows(ops.drop_last()),
        }
    }
}

/// Whatever the points at which batches are taken, the batches handed out
/// followed by the rows still pending are exactly the rows pushed, each
/// once and in order.
pub proof fn law_run_hands_out_pushed_rows(ops: Seq<BatchOp>)
    ensures
        flatten(run(ops).batches) + run(ops).pending == pushed_rows(ops),
    decreases ops.len(),
{
    if ops.len() > 0 {
        law_run_hands_out_pushed_rows(ops.drop_last());
        let prev = run(ops.drop_last());
        match ops.last() {
            BatchOp::Push(r) => {
                assert(flatten(prev.batches) + prev.pending.push(r) =~= (flatten(prev.batches)
                    + prev.pending).push(r));
            },
            BatchOp::Take => {
                assert(prev.batches.push(prev.pending).drop_last() =~= prev.batches);
                assert(flatten(prev.batches.push(prev.pending)) + Seq::<Seq<ParquetValue>>::empty()
                    =~= flatten(prev.batches) + prev.pending);
            },
        }
    }
}

/// Two runs that push the same rows in the same order hand out the same
/// rows in the same order, once their pending rows are taken too; only the
/// split into batches may differ.
pub proof fn law_flush_points_do_not_change_rows(a: Seq<BatchOp>, b: Seq<BatchOp>)
    requires
        pushed_rows(a) == pushed_rows(b),
    ensures
        flatten(run(a).batches) + run(a).pending == flatten(run(b).batches) + run(b).pending,
        flatten(run(a.push(BatchOp::Take)).batches) == flatten(run(b.push(BatchOp::Take)).batches),
{
    law_run_hands_out_pushed_rows(a);
    law_run_hands_out_pushed_rows(b);
    law_run_hands_out_pushed_rows(a.push(BatchOp::Take));
    law_run_hands_out_pushed_rows(b.push(BatchOp::Take));
    assert(a.push(BatchOp::Take).drop_last() =~= a);
    assert(b.push(BatchOp::Take).drop_last() =~= b);
    assert(flatten(run(a.push(BatchOp::Take)).batches) =~= flatten(run(a.push(BatchOp::Take)).batches)
        + run(a.push(BatchOp::Take)).pending);
    assert(flatten(run(b.push(BatchOp::Take)).batches) =~= flatten(run(b.push(BatchOp::Take)).batches)
        + run(b.push(BatchOp::Take)).pending);
}

/// Rows collected between writes, with the estimated memory they hold.
///
/// Every row pushed is handed out exactly once, by [`RowBatcher::take_batch`]
/// or [`RowBatcher::into_remaining`], in the order in which it was pushed.
pub struct RowBatcher {
    batch: Vec<Vec<ParquetValue>>,
    batch_memory_size: usize,
    total_rows: u64,
    handed_out: Ghost<Seq<Seq<Seq<ParquetValue>>>>,
}

impl RowBatcher {
    /// The rows waiting to be written.
    pub closed spec fn pending(&self) -> Seq<Seq<ParquetValue>> {
        row_views(self.batch@)
    }

    /// The batches already handed out for writing, in order.
    pub closed spec fn batches(&self) -> Seq<Seq<Seq<ParquetValue>>> {
        self.handed_out@
    }

    /// The rows already handed out for writing, in order.
    pub open spec fn written(&self) -> Seq<Seq<ParquetValue>> {
        flatten(self.batches())
    }

    /// The batcher's state, as [`step`] describes its operations.
    pub open spec fn state(&self) -> BatchRun {
        BatchRun { batches: self.batches(), pending: self.pending() }
    }

    /// Every row pushed so far, in order.
    pub open spec fn pushed(&self) -> Seq<Seq<ParquetValue>> {
        self.written() + self.pending()
    }

    /// The estimated memory held by the pending rows.
    pub closed spec fn memory(&self) -> nat {
        self.batch_memory_size as nat
    }

    /// The number of rows pushed so far.
    pub closed spec fn count(&self) -> nat {
        self.total_rows as nat
    }

    /// The counters agree with the rows: the memory is the estimate of the
    /// pending rows and the count is the number of rows pushed.
    pub closed spec fn wf(&self) -> bool {
        &&& self.batch_memory_size == rows_size(row_views(self.batch@))
        &&& self.total_rows == flatten(self.handed_out@).len() + self.batch@.len()
    }

    /// An empty batcher.
    pub fn new() -> (b: Self)
        ensures
            b.wf(),
            b.state() == empty_run(),
            b.pending() == Seq::<Seq<ParquetValue>>::empty(),
            b.written() == Seq::<Seq<ParquetValue>>::empty(),
            b.memory() == 0,
            b.count() == 0,
    {
        let b = RowBatcher {
            batch: Vec::new(),
            batch_memory_size: 0,
            total_rows: 0,
            handed_out: Ghost(Seq::empty()),
        };
        proof {
            assert(row_views(b.batch@) =~= Seq::<Seq<ParquetValue>>::empty());
            assert(b.state() == empty_run());
        }
        b
    }

    /// Adds a row to the pending batch and returns its estimated size.
    pub fn push_row(&mut self, row: Vec<ParquetValue>) -> (size: usize)
        requires
            old(self).wf(),
            old(self).memory() + row_size(row@) <= usize::MAX,
            old(self).count() < u64::MAX,
        ensures
            final(self).wf(),
            final(self).state() == step(old(self).state(), BatchOp::Push(row@)),
            size == row_size(row@),
            final(self).pending() == old(self).pending().push(row@),
            final(self).written() == old(self).written(),
            final(self).pushed() == old(self).pushed().push(row@),
            final(self).memory() == old(self).memory() + size,
            final(self).count() == old(self).count() + 1,
    {
        let size = estimate_row_size(row.as_slice());
        let ghost before = self.batch@;
        self.batch.push(row);
        self.batch_memory_size = self.batch_memory_size + size;
        self.total_rows = self.total_rows + 1;
        proof {
            assert(row_views(self.batch@) =~= row_views(before).push(row@));
            assert(row_views(self.batch@).drop_last() =~= row_views(before));
            assert(self.pushed() =~= old(self).pushed().push(row@));
            assert(self.state() == step(old(self).state(), BatchOp::Push(row@)));
        }
        size
    }

    /// Number of pending rows.
    pub fn batch_len(&self) -> (n: usize)
        ensures
            n == self.pending().len(),
    {
        self.batch.len()
    }

    /// Estimated memory held by the pending rows.
    pub fn batch_memory_size(&self) -> (n: usize)
        ensures
            n == self.memory(),
    {
        self.batch_memory_size
    }

    /// Number of rows pushed so far.
    pub fn total_rows(&self) -> (n: u64)
        ensures
            n == self.count(),
    {
        self.total_rows
    }

    /// Hands out the pending rows for writing and starts an empty batch.
    pub fn take_batch(&mut self) -> (rows: Vec<Vec<ParquetValue>>)
        requires
            old(self).wf(),
        ensures
            final(self).wf(),
            final(self).state() == step(old(self).state(), BatchOp::Take),
            row_views(rows@) == old(self).pending(),
            final(self).written() == old(self).written() + old(self).pending(),
            final(self).pending() == Seq::<Seq<ParquetValue>>::empty(),
            final(self).pushed() == old(self).pushed(),
            final(self).memory() == 0,
            final(self).count() == old(self).count(),
    {
        let mut rows: Vec<Vec<ParquetValue>> = Vec::new();
        rows.append(&mut self.batch);
        self.handed_out = Ghost(self.handed_out@.push(row_views(rows@)));
        self.batch_memory_size = 0;
        proof {
            assert(self.handed_out@.drop_last() =~= old(self).batches());
            assert(row_views(rows@) == old(self).pending());
            assert(row_views(self.batch@) =~= Seq::<Seq<ParquetValue>>::empty());
            assert(self.batches() =~= old(self).batches().push(old(self).pending()));
            assert(self.state() == step(old(self).state(), BatchOp::Take));
            assert(self.pushed() =~= old(self).pushed());
        }
        rows
    }

    /// Hands out the rows still pending, if there are any.
    pub fn into_remaining(self) -> (rows: Option<Vec<Vec<ParquetValue>>>)
        requires
            self.wf(),
        ensures
            self.pending().len() == 0 ==> rows is None,
            self.pending().len() > 0 ==> (rows matches Some(v) && row_views(v@) == self.pending()),
    {
        if self.batch.len() == 0 {
            None
        } else {
            Some(self.batch)
        }
    }
}

} // verus!
