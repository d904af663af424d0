//! Column-oriented writing: the assembly of columns from batches of column
//! values.

use vstd::prelude::*;
use crate::bloom::texts;
use vstd::string::*;
use crate::conversion::{
    ArrayArg, ConversionError, ExceptionKind, class_exception, classify_conversion_error, spec_classify,
};
use crate::text::{decimal, spec_decimal};
use crate::value::ParquetValue;

verus! {

/// One batch of the caller's data, which must be an array holding one array
/// of values per column.
pub enum BatchArg {
    /// The batch is not an array.
    NotArray,
    /// The batch's elements, one per column.
    Columns(Vec<ArrayArg>),
}

/// Why a batch was refused.
pub enum ColumnsError {
    /// The batch is not an array.
    BatchNotArray,
    /// The batch does not have one element per column of the schema.
    ColumnCountMismatch { found: usize, expected: usize },
    /// The element for this column is not an array.
    ColumnNotArray { column: usize },
    /// A value failed to convert.
    Conversion(ConversionError),
}

impl ColumnsError {
    /// The exception this refusal is raised as.
    pub fn exception(&self) -> (k: ExceptionKind)
        ensures
            k == (match self {
                ColumnsError::BatchNotArray => ExceptionKind::TypeError,
                ColumnsError::ColumnCountMismatch { .. } => ExceptionKind::RuntimeError,
                ColumnsError::ColumnNotArray { .. } => ExceptionKind::TypeError,
                ColumnsError::Conversion(e) => class_exception(e.class),
            }),
    {
        match self {
            ColumnsError::BatchNotArray => ExceptionKind::TypeError,
            ColumnsError::ColumnCountMismatch { .. } => ExceptionKind::RuntimeError,
            ColumnsError::ColumnNotArray { .. } => ExceptionKind::TypeError,
            ColumnsError::Conversion(e) => e.exception(),
        }
    }

    /// The text raised for this refusal.
    pub fn message(&self) -> (m: String)
        ensures
            m@ == (match self {
                ColumnsError::BatchNotArray => "each batch must be an array of column values"@,
                ColumnsError::ColumnCountMismatch { found, expected } => "Batch has "@
                    + spec_decimal(*found as nat) + " columns but schema has "@ + spec_decimal(
                    *expected as nat,
                ),
                ColumnsError::ColumnNotArray { column } => "Column "@ + spec_decimal(
                    *column as nat,
                ) + " values must be an array"@,
                ColumnsError::Conversion(e) => e.message@,
            }),
    {
        match self {
            ColumnsError::BatchNotArray => String::from_str(
                "each batch must be an array of column values",
            ),
            ColumnsError::ColumnCountMismatch { found, expected } => {
                let mut m = String::from_str("Batch has ");
                let f = decimal(*found);
                m.append(f.as_str());
                m.append(" columns but schema has ");
                let e = decimal(*expected);
                m.append(e.as_str());
                m
            },
            ColumnsError::ColumnNotArray { column } => {
                let mut m = String::from_str("Column ");
                let c = decimal(*column);
                m.append(c.as_str());
                m.append(" values must be an array");
                m
            },
            ColumnsError::Conversion(e) => e.message(),
        }
    }
}

/// Whether a column's element makes its batch fail.
pub open spec fn column_fails(col: ArrayArg) -> bool {
    match col {
        ArrayArg::NotArray => true,
        ArrayArg::Items(items) => items.failure is Some,
    }
}

/// Index of the first failing column, searching from `from`.
pub open spec fn first_failing_from(cols: Seq<ArrayArg>, from: int) -> Option<int>
    decreases cols.len() - from,
{
    if from < 0 || from >= cols.len() {
        None
    } else if column_fails(cols[from]) {
        Some(from)
    } else {
        first_failing_from(cols, from + 1)
    }
}

/// The values of each column of a batch whose columns all converted.
pub open spec fn batch_values(cols: Seq<ArrayArg>) -> Seq<Seq<ParquetValue>> {
    cols.map_values(|c: ArrayArg| c->Items_0.values@)
}

/// The name and values of each assembled column.
pub open spec fn column_views(cols: Seq<(String, Vec<ParquetValue>)>) -> Seq<
    (Seq<char>, Seq<ParquetValue>),
> {
    cols.map_values(|c: (String, Vec<ParquetValue>)| (c.0@, c.1@))
}

/// Collects the values of each column over successive batches.
pub struct ColumnAssembler {
    names: Vec<String>,
    columns: Vec<(String, Vec<ParquetValue>)>,
    started: bool,
}

proof fn lemma_first_failing_skip(cols: Seq<ArrayArg>, i: int)
    requires
        0 <= i <= cols.len(),
        forall|j: int| 0 <= j < i ==> !column_fails(#[trigger] cols[j]),
    ensures
        first_failing_from(cols, 0) == first_failing_from(cols, i),
    decreases i,
{
    if i > 0 {
        lemma_first_failing_skip(cols, i - 1);
    }
}

/// The first failing column of a batch, if any.
fn find_failing_column(cols: &Vec<ArrayArg>) -> (r: Option<usize>)
    ensures
        match first_failing_from(cols@, 0) {
            Some(c) => r == Some(c as usize),
            None => r is None,
        },
{
    let n = cols.len();
    let mut i: usize = 0;
    while i < n
        invariant
            n == cols@.len(),
            0 <= i <= n,
            forall|j: int| 0 <= j < i ==> !column_fails(#[trigger] cols@[j]),
        decreases n - i,
    {
        let fails = match &cols[i] {
            ArrayArg::NotArray => true,
            ArrayArg::Items(items) => items.failure.is_some(),
        };
        if fails {
            proof {
                lemma_first_failing_skip(cols@, i as int);
            }
            return Some(i);
        }
        i = i + 1;
    }
    proof {
        lemma_first_failing_skip(cols@, n as int);
    }
    None
}

impl ColumnAssembler {
    /// The schema's column names.
    pub closed spec fn names(&self) -> Seq<Seq<char>> {
        texts(self.names@)
    }

    /// The columns assembled so far, each with its name.
    pub closed spec fn columns(&self) -> Seq<(Seq<char>, Seq<ParquetValue>)> {
        column_views(self.columns@)
    }

    /// Whether a batch was added.
    pub closed spec fn started(&self) -> bool {
        self.started
    }

    /// Before the first batch there is no column; after it, one per name,
    /// in the order of the names.
    pub closed spec fn wf(&self) -> bool {
        &&& !self.started ==> self.columns@.len() == 0
        &&& self.started ==> self.columns@.len() == self.names@.len()
        &&& self.started ==> forall|c: int|
            0 <= c < self.columns@.len() ==> (#[trigger] self.columns@[c]).0@ == self.names@[c]@
    }

    /// An assembler for the columns of a schema, by name.
    pub fn new(names: Vec<String>) -> (a: Self)
        ensures
            a.wf(),
            a.names() == texts(names@),
            !a.started(),
            a.columns() == Seq::<(Seq<char>, Seq<ParquetValue>)>::empty(),
    {
        let a = ColumnAssembler { names, columns: Vec::new(), started: false };
        proof {
            assert(a.columns() =~= Seq::<(Seq<char>, Seq<ParquetValue>)>::empty());
        }
        a
    }

    /// Adds one batch.
    ///
    /// The batch is refused when it is not an array, when it does not hold
    /// one element per column, or at its first column whose element is not
    /// an array or has a value that failed to convert; a refused batch leaves
    /// the assembler as it was. Otherwise each column's values are appended
    /// to that column; the first batch creates the columns.
    pub fn add_batch(&mut self, batch: BatchArg) -> (r: Result<(), ColumnsError>)
        requires
            old(self).wf(),
        ensures
            final(self).wf(),
            final(self).names() == old(self).names(),
            match batch {
                BatchArg::NotArray => r matches Err(ColumnsError::BatchNotArray) && *final(self)
                    == *old(self),
                BatchArg::Columns(cols) => if cols@.len() != old(self).names().len() {
                    r matches Err(ColumnsError::ColumnCountMismatch { found, expected }) && found
                        == cols@.len() && expected == old(self).names().len() && *final(self)
                        == *old(self)
                } else {
                    match first_failing_from(cols@, 0) {
                        Some(c) => *final(self) == *old(self) && match cols@[c] {
                            ArrayArg::NotArray => r matches Err(
                                ColumnsError::ColumnNotArray { column },
                            ) && column == c,
                            ArrayArg::Items(items) => r matches Err(ColumnsError::Conversion(e))
                                && (e.class, e.message@) == spec_classify(items.failure->Some_0@),
                        },
                        None => r is Ok && final(self).started() && final(self).columns().len()
                            == cols@.len() && forall|c: int|
                            0 <= c < cols@.len() ==> #[trigger] final(self).columns()[c] == (
                                old(self).names()[c],
                                (if old(self).started() {
                                    old(self).columns()[c].1
                                } else {
                                    Seq::<ParquetValue>::empty()
                                }) + batch_values(cols@)[c],
                            ),
                    }
                },
            },
    {
        match batch {
            BatchArg::NotArray => Err(ColumnsError::BatchNotArray),
            BatchArg::Columns(cols) => {
                if cols.len() != self.names.len() {
                    return Err(
                        ColumnsError::ColumnCountMismatch {
                            found: cols.len(),
                            expected: self.names.len(),
                        },
                    );
                }
                match find_failing_column(&cols) {
                    Some(c) => {
                        proof {
                            lemma_first_failing_found(cols@, 0);
                        }
                        return match &cols[c] {
                            ArrayArg::NotArray => Err(ColumnsError::ColumnNotArray { column: c }),
                            ArrayArg::Items(items) => {
                                let m = match &items.failure {
                                    Some(m) => m,
                                    None => {
                                        proof {
                                            assert(false);
                                        }
                                        return Err(ColumnsError::ColumnNotArray { column: c });
                                    },
                                };
                                Err(ColumnsError::Conversion(classify_conversion_error(m.as_str())))
                            },
                        };
                    },
                    None => {},
                }
                self.append_batch(cols);
                Ok(())
            },
        }
    }

    /// Appends the values of a batch that has one converted element per
    /// column.
    fn append_batch(&mut self, cols: Vec<ArrayArg>)
        requires
            old(self).wf(),
            cols@.len() == old(self).names@.len(),
            first_failing_from(cols@, 0) is None,
        ensures
            final(self).wf(),
            final(self).names == old(self).names,
            final(self).started,
            final(self).columns@.len() == cols@.len(),
            forall|c: int|
                0 <= c < cols@.len() ==> #[trigger] column_views(final(self).columns@)[c] == (
                    old(self).names@[c]@,
                    (if old(self).started {
                        old(self).columns@[c].1@
                    } else {
                        Seq::<ParquetValue>::empty()
                    }) + batch_values(cols@)[c],
                ),
    {
        let n = cols.len();
        if !self.started {
            let mut i: usize = 0;
            while i < n
                invariant
                    n == self.names@.len(),
                    self.names == old(self).names,
                    0 <= i <= n,
                    self.columns@.len() == i,
                    forall|c: int|
                        0 <= c < i ==> (#[trigger] self.columns@[c]).0@ == self.names@[c]@
                            && self.columns@[c].1@ == Seq::<ParquetValue>::empty(),
                decreases n - i,
            {
                let name = self.names[i].clone();
                self.columns.push((name, Vec::new()));
                i = i + 1;
            }
            self.started = true;
        }
        let ghost base = self.columns@;
        let ghost all = cols@;
        let mut rest = cols;
        let mut k: usize = n;
        proof {
            lemma_none_failing(all);
        }
        while k > 0
            invariant
                n == all.len(),
                n == self.names@.len(),
                self.names == old(self).names,
                self.started,
                0 <= k <= n,
                rest@ == all.take(k as int),
                base.len() == n,
                self.columns@.len() == n,
                forall|c: int| 0 <= c < n ==> !column_fails(#[trigger] all[c]),
                forall|c: int|
                    0 <= c < n ==> (#[trigger] self.columns@[c]).0 == base[c].0,
                forall|c: int|
                    0 <= c < k ==> (#[trigger] self.columns@[c]).1 == base[c].1,
                forall|c: int|
                    k <= c < n ==> (#[trigger] self.columns@[c]).1@ == base[c].1@ + all[c]->Items_0.values@,
            decreases k,
        {
            let arg = rest.pop();
            k = k - 1;
            proof {
                assert(arg == Some(all[k as int]));
            }
            match arg {
                Some(ArrayArg::Items(items)) => {
                    let mut values = items.values;
                    self.columns[k].1.append(&mut values);
                },
                _ => {
                    proof {
                        assert(column_fails(all[k as int]));
                    }
                },
            }
        }
        proof {
            assert forall|c: int| 0 <= c < n implies #[trigger] column_views(self.columns@)[c] == (
                old(self).names@[c]@,
                (if old(self).started {
                    old(self).columns@[c].1@
                } else {
                    Seq::<ParquetValue>::empty()
                }) + batch_values(all)[c],
            ) by {
                assert(self.columns@[c].1@ == base[c].1@ + all[c]->Items_0.values@);
            }
        }
    }

    /// The assembled columns, each with its name, in schema order; none when
    /// no batch was added.
    pub fn into_columns(self) -> (cols: Vec<(String, Vec<ParquetValue>)>)
        ensures
            column_views(cols@) == self.columns(),
    {
        self.columns
    }
}

/// A batch is refused at or before any column that is not an array or has
/// a value that failed to convert, whatever values were converted before
/// the failure: the first failing column exists and comes no later.
pub proof fn law_failed_column_refuses_batch(cols: Seq<ArrayArg>, c: int)
    requires
        0 <= c < cols.len(),
        cols[c] is NotArray || cols[c]->Items_0.failure is Some,
    ensures
        first_failing_from(cols, 0) matches Some(k) && 0 <= k <= c,
{
    lemma_first_failing_before(cols, 0, c);
}

proof fn lemma_first_failing_before(cols: Seq<ArrayArg>, from: int, c: int)
    requires
        0 <= from <= c < cols.len(),
        cols[c] is NotArray || cols[c]->Items_0.failure is Some,
    ensures
        first_failing_from(cols, from) matches Some(k) && from <= k <= c,
    decreases c - from,
{
    if from < c && !column_fails(cols[from]) {
        lemma_first_failing_before(cols, from + 1, c);
    }
}

/// A batch none of whose columns failed is accepted: there is no first
/// failing column exactly when every column is an array whose values all
/// converted.
pub proof fn law_batch_accepted_iff_all_converted(cols: Seq<ArrayArg>)
    ensures
        first_failing_from(cols, 0) is None <==> forall|c: int|
            0 <= c < cols.len() ==> (#[trigger] cols[c] matches ArrayArg::Items(v) && v.failure is None),
{
    if first_failing_from(cols, 0) is None {
        lemma_none_failing(cols);
    } else {
        lemma_first_failing_found(cols, 0);
    }
}

proof fn lemma_first_failing_found(cols: Seq<ArrayArg>, from: int)
    requires
        0 <= from,
    ensures
        first_failing_from(cols, from) matches Some(c) ==> from <= c < cols.len() && column_fails(
            cols[c],
        ),
    decreases cols.len() - from,
{
    if from < cols.len() && !column_fails(cols[from]) {
        lemma_first_failing_found(cols, from + 1);
    }
}

proof fn lemma_none_failing(cols: Seq<ArrayArg>)
    requires
        first_failing_from(cols, 0) is None,
    ensures
        forall|c: int| 0 <= c < cols.len() ==> !column_fails(#[trigger] cols[c]),
{
    assert forall|c: int| 0 <= c < cols.len() implies !column_fails(#[trigger] cols[c]) by {
        lemma_none_failing_from(cols, 0, c);
    }
}

proof fn lemma_none_failing_from(cols: Seq<ArrayArg>, from: int, c: int)
    requires
        0 <= from <= c < cols.len(),
        first_failing_from(cols, from) is None,
    ensures
        !column_fails(cols[c]),
    decreases c - from,
{
    if from < c {
        lemma_none_failing_from(cols, from + 1, c);
    }
}

} // verus!
