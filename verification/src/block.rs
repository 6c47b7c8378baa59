//! The unit of data moved through a pipeline: an immutable batch of column
//! values with a row count. A block may be empty (zero rows), which the
//! exchange layer treats as a no-op rather than data worth shipping.

use vstd::prelude::*;

verus! {

/// An immutable batch of column values with a row count.
///
/// Ownership is transferred, never duplicated, as a block moves from an
/// output port to an input port; the type is deliberately not `Clone`.
#[derive(Debug)]
pub struct ColumnarBlock {
    num_rows: usize,
    columns: Vec<Vec<i64>>,
    dict_encoded: bool,
}

impl ColumnarBlock {
    /// The columns as a mathematical sequence of sequences of values.
    pub closed spec fn cols(&self) -> Seq<Seq<i64>> {
        Seq::new(self.columns@.len(), |i: int| self.columns@[i]@)
    }

    /// The row count as a mathematical number.
    pub closed spec fn rows(&self) -> nat {
        self.num_rows as nat
    }

    /// Whether serializing this block would emit auxiliary dictionary pages.
    pub closed spec fn spec_dict_encoded(&self) -> bool {
        self.dict_encoded
    }

    /// Shape invariant: every column holds exactly one value per row, and
    /// the column count is addressable.
    pub open spec fn wf(&self) -> bool {
        &&& self.cols().len() <= usize::MAX
        &&& self.rows() <= usize::MAX
        &&& forall|i: int|
            0 <= i < self.cols().len() ==> (#[trigger] self.cols()[i]).len() == self.rows()
    }

    /// Whether the block carries no rows at all.
    pub open spec fn spec_is_empty(&self) -> bool {
        self.rows() == 0
    }

    /// Builds a block, checking that every column has exactly `num_rows` values.
    pub fn new(num_rows: usize, columns: Vec<Vec<i64>>, dict_encoded: bool) -> (r: Option<
        ColumnarBlock,
    >)
        ensures
            r is Some <==> (forall|i: int|
                0 <= i < columns@.len() ==> (#[trigger] columns@[i]@).len() == num_rows),
            r is Some ==> {
                &&& r->Some_0.rows() == num_rows
                &&& r->Some_0.cols() == Seq::new(columns@.len(), |i: int| columns@[i]@)
                &&& r->Some_0.spec_dict_encoded() == dict_encoded
                &&& r->Some_0.wf()
            },
    {
        let mut i: usize = 0;
        while i < columns.len()
            invariant
                0 <= i <= columns@.len(),
                forall|k: int| 0 <= k < i ==> (#[trigger] columns@[k]@).len() == num_rows,
            decreases columns@.len() - i,
        {
            if columns[i].len() != num_rows {
                return None;
            }
            i = i + 1;
        }
        Some(ColumnarBlock { num_rows, columns, dict_encoded })
    }

    /// A zero-row, zero-column block: the no-op signal.
    pub fn empty() -> (r: ColumnarBlock)
        ensures
            r.rows() == 0,
            r.cols().len() == 0,
            !r.spec_dict_encoded(),
            r.wf(),
    {
        ColumnarBlock { num_rows: 0, columns: Vec::new(), dict_encoded: false }
    }

    /// The number of rows in the block.
    pub fn num_rows(&self) -> (r: usize)
        ensures
            r == self.rows(),
    {
        self.num_rows
    }

    /// The number of columns in the block.
    pub fn num_columns(&self) -> (r: usize)
        ensures
            r == self.cols().len(),
    {
        self.columns.len()
    }

    /// Whether the block carries no rows.
    pub fn is_empty(&self) -> (r: bool)
        ensures
            r == self.spec_is_empty(),
    {
        self.num_rows == 0
    }

    /// Whether serializing this block would require dictionary pages.
    pub fn is_dict_encoded(&self) -> (r: bool)
        ensures
            r == self.spec_dict_encoded(),
    {
        self.dict_encoded
    }

    /// The value at column `col`, row `row`.
    pub fn value_at(&self, col: usize, row: usize) -> (r: i64)
        requires
            self.wf(),
            col < self.cols().len(),
            row < self.rows(),
        ensures
            r == self.cols()[col as int][row as int],
    {
        assert(self.cols()[col as int] == self.columns@[col as int]@);
        self.columns[col][row]
    }
}

} // verus!
