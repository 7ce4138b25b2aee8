//! Arrays of 32-bit cells, stored by `ndarray`.
//!
//! An array is seen as a [`Grid`]: the lengths of its axes, and its cells in
//! row-major order, whatever the order in which they lie in memory.

use vstd::prelude::*;

verus! {

/// The lengths of an array's axes, and its cells in row-major order (the last
/// index varies fastest).
#[verifier::ext_equal]
pub struct Grid {
    pub dims: Seq<usize>,
    pub cells: Seq<i32>,
}

/// The number of cells of an array with these axes.
pub open spec fn size(dims: Seq<usize>) -> nat
    decreases dims.len(),
{
    if dims.len() == 0 {
        1
    } else {
        size(dims.drop_last()) * dims.last() as nat
    }
}

/// The product of the axes that are not empty.
pub open spec fn span(dims: Seq<usize>) -> nat
    decreases dims.len(),
{
    if dims.len() == 0 {
        1
    } else if dims.last() == 0 {
        span(dims.drop_last())
    } else {
        span(dims.drop_last()) * dims.last() as nat
    }
}

/// The axes are ones that an array can have: the product of those that are not
/// empty does not exceed `isize::MAX`.
pub open spec fn fits(dims: Seq<usize>) -> bool {
    span(dims) <= isize::MAX
}

/// Why `len` cells cannot be given the axes `dims`, in `ndarray`'s words; `None`
/// if they can.
pub open spec fn shape_fault(dims: Seq<usize>, len: nat) -> Option<Seq<char>> {
    if !fits(dims) {
        Some("ShapeError/Overflow: arithmetic overflow"@)
    } else if size(dims) > len {
        Some("ShapeError/OutOfBounds: out of bounds indexing"@)
    } else if size(dims) != len {
        Some("ShapeError/IncompatibleShape: incompatible shapes"@)
    } else {
        None
    }
}

/// Storage with any number of axes.
#[verifier::external_body]
#[derive(Debug)]
pub struct Store {
    inner: ndarray::ArrayD<i32>,
}

/// The lengths of a store's axes.
pub uninterp spec fn store_dims(store: Store) -> Seq<usize>;

/// A store's cells in row-major order.
pub uninterp spec fn store_cells(store: Store) -> Seq<i32>;

/// `ndarray::ArrayBase::from_shape_vec`: takes the cells in row-major order.
/// It fails where the product of the axes that are not empty exceeds `isize::MAX`,
/// where there are fewer cells than the axes ask for, or more; the error is handed
/// on as its text.
#[verifier::external_body]
fn store_from_shape_vec(dims: &[usize], cells: Vec<i32>) -> (result: Result<Store, String>)
    ensures
        match result {
            Ok(store) => {
                &&& shape_fault(dims@, cells@.len()) is None
                &&& store_dims(store) == dims@
                &&& store_cells(store) == cells@
            },
            Err(text) => shape_fault(dims@, cells@.len()) == Some(text@),
        },
{
    match ndarray::ArrayD::from_shape_vec(dims, cells) {
        Ok(inner) => Ok(Store { inner }),
        Err(error) => Err(error.to_string()),
    }
}

/// `ndarray::ArrayBase::zeros`: an array with the given axes whose cells are all
/// zero. It panics where the axes do not fit, or where the cells' bytes exceed
/// `isize::MAX`.
#[verifier::external_body]
fn store_zeros(dims: &[usize]) -> (store: Store)
    requires
        fits(dims@),
        4 * size(dims@) <= isize::MAX,
    ensures
        store_dims(store) == dims@,
        store_cells(store) == Seq::new(size(dims@), |i: int| 0i32),
{
    Store { inner: ndarray::ArrayD::zeros(dims) }
}

/// `ndarray::ArrayBase::shape`: the lengths of the axes.
#[verifier::external_body]
fn store_shape(store: &Store) -> (dims: &[usize])
    ensures
        dims@ == store_dims(*store),
{
    store.inner.shape()
}

/// `ndarray::ArrayBase::as_standard_layout`, read through `as_slice`: the cells in
/// row-major order.
#[verifier::external_body]
fn store_standard_cells(store: &Store) -> (cells: Vec<i32>)
    ensures
        cells@ == store_cells(*store),
{
    store.inner.as_standard_layout().as_slice().unwrap().to_vec()
}

/// `ndarray::ArrayBase::t` on two axes: the axes change places, and the cell at
/// row `i` and column `j` is the one that was at row `j` and column `i`.
#[verifier::external_body]
fn store_t(store: &Store) -> (turned: Store)
    requires
        store_dims(*store).len() == 2,
    ensures
        store_dims(turned) == seq![store_dims(*store)[1], store_dims(*store)[0]],
        store_cells(turned) == transposed(
            store_cells(*store),
            store_dims(*store)[0],
            store_dims(*store)[1],
        ),
{
    Store { inner: store.inner.t().to_owned() }
}

/// `ndarray::ArrayBase::to_shape`: the same cells in the same row-major order,
/// under other axes. It fails where the new axes do not fit or ask for another
/// number of cells; the error is handed on as its text.
#[verifier::external_body]
fn store_to_shape(store: &Store, dims: &[usize]) -> (result: Result<Store, String>)
    ensures
        match result {
            Ok(shaped) => {
                &&& fits(dims@) && size(dims@) == size(store_dims(*store))
                &&& store_dims(shaped) == dims@
                &&& store_cells(shaped) == store_cells(*store)
            },
            Err(text) => {
                &&& !(fits(dims@) && size(dims@) == size(store_dims(*store)))
                &&& text@ == "ShapeError/IncompatibleShape: incompatible shapes"@
            },
        },
{
    match store.inner.to_shape(ndarray::IxDyn(dims)) {
        Ok(shaped) => Ok(Store { inner: shaped.into_owned() }),
        Err(error) => Err(error.to_string()),
    }
}

/// `ndarray::ArrayBase::slice` on three axes, with an index for the first and the
/// last one and the whole of the middle one: the cells along the middle axis. It
/// panics where an index is out of bounds.
#[verifier::external_body]
fn store_slice(store: &Store, first: usize, last: usize) -> (line: Store)
    requires
        store_dims(*store).len() == 3,
        first < store_dims(*store)[0],
        last < store_dims(*store)[2],
    ensures
        store_dims(line) == seq![store_dims(*store)[1]],
        store_cells(line) == middle_line(
            store_cells(*store),
            store_dims(*store)[1],
            store_dims(*store)[2],
            first as int,
            last as int,
        ),
{
    let index = [
        ndarray::SliceInfoElem::from(first),
        ndarray::SliceInfoElem::from(..),
        ndarray::SliceInfoElem::from(last),
    ];
    Store { inner: store.inner.slice(index.as_slice()).to_owned() }
}

/// The cells of a `rows` by `columns` array with its axes swapped: cell `k` of the
/// result stands at row `k / rows` and column `k % rows` of a `columns` by `rows`
/// array.
pub open spec fn transposed(cells: Seq<i32>, rows: usize, columns: usize) -> Seq<i32> {
    Seq::new(
        (rows * columns) as nat,
        |k: int| cells[(k % rows as int) * columns + k / rows as int],
    )
}

/// The cells along the middle one of three axes, at index `first` of the first axis
/// and `last` of the last one.
pub open spec fn middle_line(
    cells: Seq<i32>,
    middle_len: usize,
    last_len: usize,
    first: int,
    last: int,
) -> Seq<i32> {
    Seq::new(middle_len as nat, |i: int| cells[(first * middle_len + i) * last_len + last])
}

/// An array of 32-bit cells with `N` axes.
#[derive(Debug)]
pub struct Array<const N: usize> {
    store: Store,
}

/// An array with one axis.
pub type Array1 = Array<1>;

/// An array with two axes.
pub type Array2 = Array<2>;

/// An array with three axes.
pub type Array3 = Array<3>;

/// An array with four axes.
pub type Array4 = Array<4>;

impl<const N: usize> View for Array<N> {
    type V = Grid;

    closed spec fn view(&self) -> Grid {
        Grid { dims: store_dims(self.store), cells: store_cells(self.store) }
    }
}

/// The grid of an array with `rank` axes: the axes fit, and there are as many cells
/// as they ask for.
pub open spec fn is_grid(grid: Grid, rank: nat) -> bool {
    &&& grid.dims.len() == rank
    &&& fits(grid.dims)
    &&& grid.cells.len() == size(grid.dims)
}

impl<const N: usize> Array<N> {
    #[verifier::type_invariant]
    closed spec fn inv(self) -> bool {
        is_grid(self@, N as nat)
    }

    /// The array with the given axes and cells, the latter in row-major order.
    pub fn from_shape_vec(dims: [usize; N], cells: Vec<i32>) -> (result: Result<Self, String>)
        ensures
            match result {
                Ok(array) => {
                    &&& shape_fault(dims@, cells@.len()) is None
                    &&& array@ == (Grid { dims: dims@, cells: cells@ })
                    &&& is_grid(array@, N as nat)
                },
                Err(text) => shape_fault(dims@, cells@.len()) == Some(text@),
            },
    {
        match store_from_shape_vec(dims.as_slice(), cells) {
            Ok(store) => Ok(Array { store }),
            Err(text) => Err(text),
        }
    }

    /// The array with the given axes whose cells are all zero.
    pub fn zeros(dims: [usize; N]) -> (array: Self)
        requires
            fits(dims@),
            4 * size(dims@) <= isize::MAX,
        ensures
            array@ == (Grid { dims: dims@, cells: Seq::new(size(dims@), |i: int| 0i32) }),
            is_grid(array@, N as nat),
    {
        Array { store: store_zeros(dims.as_slice()) }
    }

    /// The lengths of the axes.
    pub fn shape(&self) -> (dims: &[usize])
        ensures
            dims@ == self@.dims,
            is_grid(self@, N as nat),
    {
        proof {
            use_type_invariant(self);
        }
        store_shape(&self.store)
    }

    /// The cells in row-major order.
    pub fn to_vec(&self) -> (cells: Vec<i32>)
        ensures
            cells@ == self@.cells,
            is_grid(self@, N as nat),
    {
        proof {
            use_type_invariant(self);
        }
        store_standard_cells(&self.store)
    }

    /// The same cells under other axes.
    pub fn to_shape<const M: usize>(&self, dims: [usize; M]) -> (result: Result<Array<M>, String>)
        ensures
            match result {
                Ok(array) => {
                    &&& fits(dims@) && size(dims@) == self@.cells.len()
                    &&& array@ == (Grid { dims: dims@, cells: self@.cells })
                    &&& is_grid(array@, M as nat)
                },
                Err(text) => {
                    &&& !(fits(dims@) && size(dims@) == self@.cells.len())
                    &&& text@ == "ShapeError/IncompatibleShape: incompatible shapes"@
                },
            },
    {
        proof {
            use_type_invariant(self);
        }
        match store_to_shape(&self.store, dims.as_slice()) {
            Ok(store) => Ok(Array { store }),
            Err(text) => Err(text),
        }
    }
}

impl Array<2> {
    /// The array with its two axes swapped.
    pub fn t(&self) -> (turned: Self)
        ensures
            turned@.dims == seq![self@.dims[1], self@.dims[0]],
            turned@.cells == transposed(self@.cells, self@.dims[0], self@.dims[1]),
            is_grid(self@, 2),
            is_grid(turned@, 2),
    {
        proof {
            use_type_invariant(self);
            lemma_two_axes(self@.dims);
            lemma_two_axes(seq![self@.dims[1], self@.dims[0]]);
            assert(self@.dims[0] * self@.dims[1] == self@.dims[1] * self@.dims[0])
                by (nonlinear_arith);
        }
        Array { store: store_t(&self.store) }
    }
}

impl Array<3> {
    /// The cells along the middle axis, at index `first` of the first axis and
    /// `last` of the last one.
    pub fn slice(&self, first: usize, last: usize) -> (line: Array<1>)
        requires
            first < self@.dims[0],
            last < self@.dims[2],
        ensures
            line@.dims == seq![self@.dims[1]],
            line@.cells == middle_line(
                self@.cells,
                self@.dims[1],
                self@.dims[2],
                first as int,
                last as int,
            ),
            is_grid(self@, 3),
            is_grid(line@, 1),
    {
        proof {
            use_type_invariant(self);
            lemma_axis_bound(self@.dims, 1);
            lemma_one_axis(seq![self@.dims[1]]);
        }
        Array { store: store_slice(&self.store, first, last) }
    }
}

/// The size and the span of one axis.
pub proof fn lemma_one_axis(dims: Seq<usize>)
    requires
        dims.len() == 1,
    ensures
        size(dims) == dims[0],
        span(dims) == if dims[0] == 0 { 1 } else { dims[0] as nat },
{
    assert(dims.drop_last() =~= Seq::<usize>::empty());
    let (one, len) = (size(dims.drop_last()), dims[0] as nat);
    assert(one * len == len) by (nonlinear_arith)
        requires
            one == 1,
    ;
    assert(span(dims.drop_last()) == one);
}

/// The size and the span of two axes.
pub proof fn lemma_two_axes(dims: Seq<usize>)
    requires
        dims.len() == 2,
    ensures
        size(dims) == dims[0] * dims[1],
        span(dims) == (if dims[0] == 0 { 1 } else { dims[0] as int }) * (if dims[1] == 0 {
            1
        } else {
            dims[1] as int
        }),
{
    lemma_one_axis(dims.drop_last());
}

/// No axis is longer than the span, unless the span is one.
pub proof fn lemma_axis_bound(dims: Seq<usize>, axis: int)
    requires
        0 <= axis < dims.len(),
    ensures
        dims[axis] <= span(dims),
        1 <= span(dims),
    decreases dims.len(),
{
    let rest = dims.drop_last();
    if rest.len() > 0 {
        lemma_axis_bound(rest, 0);
        if axis < rest.len() {
            lemma_axis_bound(rest, axis);
        }
    }
    assert(1 <= span(rest));
    if dims.last() != 0 {
        assert(span(rest) <= span(rest) * dims.last() && dims.last() <= span(rest) * dims.last())
            by (nonlinear_arith)
            requires
                1 <= span(rest),
                dims.last() >= 1,
        ;
    }
}

/// An axis of length one in front changes neither the size nor the span.
pub proof fn lemma_unit_axis_in_front(dims: Seq<usize>)
    ensures
        size(seq![1usize] + dims) == size(dims),
        span(seq![1usize] + dims) == span(dims),
    decreases dims.len(),
{
    let longer = seq![1usize] + dims;
    if dims.len() == 0 {
        lemma_one_axis(longer);
    } else {
        assert(longer.drop_last() =~= seq![1usize] + dims.drop_last());
        lemma_unit_axis_in_front(dims.drop_last());
    }
}

/// An axis of length one at the end changes neither the size nor the span.
pub proof fn lemma_unit_axis_at_end(dims: Seq<usize>)
    ensures
        size(dims.push(1)) == size(dims),
        span(dims.push(1)) == span(dims),
{
    assert(dims.push(1).drop_last() =~= dims);
    assert(size(dims) * 1 == size(dims) && span(dims) * 1 == span(dims));
}

/// An array without axes has one cell, and one more axis multiplies the cells by its
/// length; so does it the span, unless it is empty.
pub proof fn law_each_axis_multiplies(dims: Seq<usize>, len: usize)
    ensures
        size(Seq::empty()) == 1,
        size(dims.push(len)) == size(dims) * len,
        span(Seq::empty()) == 1,
        len > 0 ==> span(dims.push(len)) == span(dims) * len,
        len == 0 ==> span(dims.push(len)) == span(dims),
{
    assert(dims.push(len).drop_last() =~= dims);
}

/// Cells can be given axes exactly where the axes are not too long and ask for as many
/// cells as there are; otherwise the reason says what is wrong, the axes' lengths
/// first, then a lack of cells, then a surplus.
pub proof fn law_cells_must_match_the_axes(dims: Seq<usize>, len: nat)
    ensures
        fits(dims) <==> span(dims) <= isize::MAX,
        shape_fault(dims, len) is None <==> span(dims) <= isize::MAX && size(dims) == len,
        span(dims) > isize::MAX ==> shape_fault(dims, len) == Some(
            "ShapeError/Overflow: arithmetic overflow"@,
        ),
        span(dims) <= isize::MAX && len < size(dims) ==> shape_fault(dims, len) == Some(
            "ShapeError/OutOfBounds: out of bounds indexing"@,
        ),
        span(dims) <= isize::MAX && len > size(dims) ==> shape_fault(dims, len) == Some(
            "ShapeError/IncompatibleShape: incompatible shapes"@,
        ),
{
}

/// Swapping the axes swaps the indices: what stands at a row and a column stands at
/// that column and that row afterwards.
pub proof fn law_transposed_swaps_indices(
    cells: Seq<i32>,
    rows: usize,
    columns: usize,
    row: int,
    column: int,
)
    requires
        0 <= row < rows,
        0 <= column < columns,
    ensures
        transposed(cells, rows, columns).len() == rows * columns,
        0 <= column * rows + row < rows * columns,
        transposed(cells, rows, columns)[column * rows + row] == cells[row * columns + column],
{
    let k = column * rows + row;
    assert(0 <= k < rows * columns) by (nonlinear_arith)
        requires
            k == column * rows + row,
            0 <= row < rows,
            0 <= column < columns,
    ;
    vstd::arithmetic::div_mod::lemma_fundamental_div_mod_converse(k, rows as int, column, row);
}

/// The cells along the middle axis are those whose first and last index are the given
/// ones, in the order of the middle index.
pub proof fn law_middle_line_keeps_the_other_indices(
    cells: Seq<i32>,
    middle_len: usize,
    last_len: usize,
    first: int,
    last: int,
)
    ensures
        middle_line(cells, middle_len, last_len, first, last).len() == middle_len,
        forall|middle: int|
            0 <= middle < middle_len ==> #[trigger] middle_line(
                cells,
                middle_len,
                last_len,
                first,
                last,
            )[middle] == cells[first * middle_len * last_len + middle * last_len + last],
{
    assert forall|middle: int| 0 <= middle < middle_len implies #[trigger] middle_line(
        cells,
        middle_len,
        last_len,
        first,
        last,
    )[middle] == cells[first * middle_len * last_len + middle * last_len + last] by {
        assert((first * middle_len + middle) * last_len == first * middle_len * last_len + middle
            * last_len) by (nonlinear_arith);
    }
}

} // verus!
