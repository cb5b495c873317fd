use vstd::prelude::*;

use crate::error::Error;

verus! {

/// A dense matrix of fixed shape, stored row-major.
pub struct Matrix<T> {
    pub rows: usize,
    pub cols: usize,
    /// Entry `(i, j)` is at index `i * cols + j`.
    pub data: Vec<T>,
}

impl<T> Matrix<T> {
    /// The storage holds exactly one value per entry.
    pub open spec fn wf(&self) -> bool {
        self.data@.len() == self.rows * self.cols
    }

    /// The entry in row `i` and column `j`.
    pub open spec fn entry(&self, i: int, j: int) -> T {
        self.data@[i * self.cols + j]
    }

    /// A well-formed matrix of the given shape whose every entry is `v`.
    pub open spec fn is_filled(&self, rows: int, cols: int, v: T) -> bool {
        &&& self.wf()
        &&& self.rows == rows
        &&& self.cols == cols
        &&& forall|i: int, j: int| 0 <= i < rows && 0 <= j < cols ==> self.entry(i, j) == v
    }

    /// The number of rows and of columns.
    pub fn shape(&self) -> (r: (usize, usize))
        ensures
            r == (self.rows, self.cols),
    {
        (self.rows, self.cols)
    }
}

/// Whether a matrix of `rows` by `cols` entries can be made: neither
/// dimension is zero and the entry count fits in `isize`.
pub open spec fn shape_ok(rows: int, cols: int) -> bool {
    rows >= 1 && cols >= 1 && rows * cols <= isize::MAX
}

/// Index `i * cols + j` of an entry lies within `rows * cols`.
proof fn lemma_entry_index(i: int, j: int, rows: int, cols: int)
    requires
        0 <= i < rows,
        0 <= j < cols,
    ensures
        0 <= i * cols + j < rows * cols,
{
    assert(0 <= i * cols) by (nonlinear_arith)
        requires
            0 <= i,
            0 <= cols,
    ;
    assert((i + 1) * cols <= rows * cols) by (nonlinear_arith)
        requires
            i + 1 <= rows,
            0 <= cols,
    ;
    assert((i + 1) * cols == i * cols + cols) by (nonlinear_arith);
}

/// Creates a `len_2d` by `len_1d` matrix whose every entry is `zero`.
pub fn create_layer<T: Copy>(len_2d: usize, len_1d: usize, zero: T) -> (r: Result<Matrix<T>, Error>)
    ensures
        r is Ok <==> shape_ok(len_2d as int, len_1d as int),
        r matches Ok(m) ==> m.is_filled(len_2d as int, len_1d as int, zero),
        r matches Err(e) ==> e == Error::Allocation,
{
    if len_2d == 0 || len_1d == 0 {
        return Err(Error::Allocation);
    }
    proof {
        assert(len_2d as int * len_1d as int <= u64::MAX as int * u64::MAX as int)
            by (nonlinear_arith)
            requires
                len_2d <= u64::MAX,
                len_1d <= u64::MAX,
        ;
    }
    if len_2d as u128 * len_1d as u128 > isize::MAX as u128 {
        return Err(Error::Allocation);
    }
    let n = len_2d * len_1d;
    let mut data: Vec<T> = Vec::new();
    let mut k: usize = 0;
    while k < n
        invariant
            k <= n,
            data@.len() == k,
            forall|q: int| 0 <= q < k ==> data@[q] == zero,
        decreases n - k,
    {
        data.push(zero);
        k += 1;
    }
    let m = Matrix { rows: len_2d, cols: len_1d, data };
    assert forall|i: int, j: int| 0 <= i < len_2d && 0 <= j < len_1d implies m.entry(i, j)
        == zero by {
        lemma_entry_index(i, j, len_2d as int, len_1d as int);
    }
    Ok(m)
}

/// Whether every declared `(rows, cols)` pair can be made into a matrix.
pub open spec fn topology_ok(dim: Seq<(usize, usize)>) -> bool {
    forall|k: int| 0 <= k < dim.len() ==> shape_ok(#[trigger] dim[k].0 as int, dim[k].1 as int)
}

/// Creates one matrix per declared `(rows, cols)` pair, in order, each with
/// every entry equal to `zero`.
pub fn create_network<T: Copy>(dim: &Vec<(usize, usize)>, zero: T) -> (r: Result<
    Vec<Matrix<T>>,
    Error,
>)
    ensures
        r is Ok <==> topology_ok(dim@),
        r matches Ok(net) ==> {
            &&& net@.len() == dim@.len()
            &&& forall|k: int|
                0 <= k < dim@.len() ==> (#[trigger] net@[k]).is_filled(
                    dim@[k].0 as int,
                    dim@[k].1 as int,
                    zero,
                )
        },
        r matches Err(e) ==> e == Error::Allocation,
{
    let mut network: Vec<Matrix<T>> = Vec::new();
    let mut i: usize = 0;
    while i < dim.len()
        invariant
            i <= dim@.len(),
            network@.len() == i,
            forall|k: int| 0 <= k < i ==> shape_ok(#[trigger] dim@[k].0 as int, dim@[k].1 as int),
            forall|k: int|
                0 <= k < i ==> (#[trigger] network@[k]).is_filled(
                    dim@[k].0 as int,
                    dim@[k].1 as int,
                    zero,
                ),
        decreases dim@.len() - i,
    {
        let (rows, cols) = dim[i];
        match create_layer(rows, cols, zero) {
            Ok(layer) => network.push(layer),
            Err(e) => return Err(e),
        }
        i += 1;
    }
    Ok(network)
}

} // verus!
