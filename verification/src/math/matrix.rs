//! Matrices stored column by column: `Matrix<COLUMN, ROW, T>` has
//! `COLUMN` columns of `ROW` entries each.
use vstd::prelude::*;

use vstd::std_specs::ops::AddSpecImpl;
use vstd::std_specs::ops::MulSpecImpl;
use vstd::std_specs::ops::SubSpecImpl;

verus! {

/// A 4x4 matrix.
pub type Matrix4<T> = Matrix<4, 4, T>;

/// A matrix of `COLUMN` columns, each of `ROW` entries.
#[derive(Debug, PartialEq, Clone, Copy)]
pub struct Matrix<const COLUMN: usize, const ROW: usize, T> {
    cols: [[T; ROW]; COLUMN],
}

impl<const COLUMN: usize, const ROW: usize, T> Matrix<COLUMN, ROW, T> {
    /// The entry in column `i`, row `j`.
    pub closed spec fn entry(self, i: int, j: int) -> T {
        self.cols[i][j]
    }

    /// The matrix whose columns are `cols`.
    pub fn new(cols: [[T; ROW]; COLUMN]) -> (res: Self)
        ensures
            forall|i: int, j: int|
                0 <= i < COLUMN && 0 <= j < ROW ==> #[trigger] res.entry(i, j) == cols[i][j],
    {
        Self { cols }
    }

    /// Two matrices with the same entries are the same matrix.
    pub proof fn lemma_entries_determine(a: Self, b: Self)
        requires
            forall|i: int, j: int|
                0 <= i < COLUMN && 0 <= j < ROW ==> #[trigger] a.entry(i, j) == b.entry(i, j),
        ensures
            a == b,
    {
        assert forall|i: int| 0 <= i < COLUMN implies a.cols[i] == b.cols[i] by {
            assert forall|j: int| 0 <= j < ROW implies a.cols[i][j] == b.cols[i][j] by {
                assert(a.entry(i, j) == b.entry(i, j));
            }
            assert(a.cols[i] =~= b.cols[i]);
        }
        assert(a.cols =~= b.cols);
    }
}

impl<const COLUMN: usize, const ROW: usize> Matrix<COLUMN, ROW, i32> {
    /// Every entry of `self` times `k` fits an `i32`.
    pub open spec fn scale_fits(self, k: i32) -> bool {
        forall|i: int, j: int|
            0 <= i < COLUMN && 0 <= j < ROW ==> i32::MIN <= k * #[trigger] self.entry(i, j)
                <= i32::MAX
    }

    /// The matrix whose entries are those of `self` times `scale_factor`.
    pub fn scale(self, scale_factor: i32) -> (res: Matrix<COLUMN, ROW, i32>)
        requires
            self.scale_fits(scale_factor),
        ensures
            forall|i: int, j: int|
                0 <= i < COLUMN && 0 <= j < ROW ==> #[trigger] res.entry(i, j) == scale_factor
                    * self.entry(i, j),
    {
        let mut cols = self.cols;
        let mut i: usize = 0;
        while i < COLUMN
            invariant
                i <= COLUMN,
                self.scale_fits(scale_factor),
                forall|a: int, b: int|
                    0 <= a < i && 0 <= b < ROW ==> #[trigger] cols[a][b] == scale_factor * self.entry(
                        a,
                        b,
                    ),
            decreases COLUMN - i,
        {
            let mut col = cols[i];
            let mut j: usize = 0;
            while j < ROW
                invariant
                    i < COLUMN,
                    j <= ROW,
                    self.scale_fits(scale_factor),
                    forall|b: int| 0 <= b < j ==> #[trigger] col[b] == scale_factor * self.entry(i as int, b),
                decreases ROW - j,
            {
                assert(i32::MIN <= scale_factor * self.entry(i as int, j as int) <= i32::MAX);
                col.set(j, scale_factor * self.cols[i][j]);
                j = j + 1;
            }
            cols.set(i, col);
            i = i + 1;
        }
        Matrix { cols }
    }

    /// Entrywise sums of `self` and `rhs` all fit an `i32`.
    pub open spec fn sum_fits(self, rhs: Self) -> bool {
        forall|i: int, j: int|
            0 <= i < COLUMN && 0 <= j < ROW ==> i32::MIN <= #[trigger] self.entry(i, j) + rhs.entry(
                i,
                j,
            ) <= i32::MAX
    }

    /// Entrywise differences of `self` and `rhs` all fit an `i32`.
    pub open spec fn difference_fits(self, rhs: Self) -> bool {
        forall|i: int, j: int|
            0 <= i < COLUMN && 0 <= j < ROW ==> i32::MIN <= #[trigger] self.entry(i, j) - rhs.entry(
                i,
                j,
            ) <= i32::MAX
    }

    /// `m` is the entrywise sum of `a` and `b`.
    pub open spec fn is_sum(m: Self, a: Self, b: Self) -> bool {
        forall|i: int, j: int|
            0 <= i < COLUMN && 0 <= j < ROW ==> #[trigger] m.entry(i, j) == a.entry(i, j) + b.entry(
                i,
                j,
            )
    }

    /// `m` is the entrywise difference of `a` and `b`.
    pub open spec fn is_difference(m: Self, a: Self, b: Self) -> bool {
        forall|i: int, j: int|
            0 <= i < COLUMN && 0 <= j < ROW ==> #[trigger] m.entry(i, j) == a.entry(i, j) - b.entry(
                i,
                j,
            )
    }
}

impl<const COLUMN: usize, const ROW: usize> std::ops::Add for Matrix<COLUMN, ROW, i32> {
    type Output = Matrix<COLUMN, ROW, i32>;

    /// The entrywise sum.
    fn add(self, rhs: Self) -> (res: Self::Output)
        ensures
            Self::is_sum(res, self, rhs),
    {
        let mut cols = self.cols;
        let mut i: usize = 0;
        while i < COLUMN
            invariant
                i <= COLUMN,
                self.sum_fits(rhs),
                forall|a: int, b: int|
                    0 <= a < i && 0 <= b < ROW ==> #[trigger] cols[a][b] == self.entry(a, b)
                        + rhs.entry(a, b),
            decreases COLUMN - i,
        {
            let mut col = cols[i];
            let mut j: usize = 0;
            while j < ROW
                invariant
                    i < COLUMN,
                    j <= ROW,
                    self.sum_fits(rhs),
                    forall|b: int|
                        0 <= b < j ==> #[trigger] col[b] == self.entry(i as int, b) + rhs.entry(
                            i as int,
                            b,
                        ),
                decreases ROW - j,
            {
                assert(i32::MIN <= self.entry(i as int, j as int) + rhs.entry(i as int, j as int)
                    <= i32::MAX);
                col.set(j, self.cols[i][j] + rhs.cols[i][j]);
                j = j + 1;
            }
            cols.set(i, col);
            i = i + 1;
        }
        let res = Matrix { cols };
        proof {
            let chosen = choose|m: Self| Self::is_sum(m, self, rhs);
            assert(Self::is_sum(res, self, rhs));
            assert(Self::is_sum(chosen, self, rhs));
            assert forall|a: int, b: int|
                0 <= a < COLUMN && 0 <= b < ROW implies #[trigger] res.entry(a, b) == chosen.entry(a, b) by {
                assert(res.entry(a, b) == self.entry(a, b) + rhs.entry(a, b));
                assert(chosen.entry(a, b) == self.entry(a, b) + rhs.entry(a, b));
            }
            Self::lemma_entries_determine(res, chosen);
        }
        res
    }
}

impl<const COLUMN: usize, const ROW: usize> AddSpecImpl for Matrix<COLUMN, ROW, i32> {
    open spec fn obeys_add_spec() -> bool {
        true
    }

    open spec fn add_req(self, rhs: Self) -> bool {
        self.sum_fits(rhs)
    }

    open spec fn add_spec(self, rhs: Self) -> Self {
        choose|m: Self| Self::is_sum(m, self, rhs)
    }
}

impl<const COLUMN: usize, const ROW: usize> std::ops::Sub for Matrix<COLUMN, ROW, i32> {
    type Output = Matrix<COLUMN, ROW, i32>;

    /// The entrywise difference.
    fn sub(self, rhs: Self) -> (res: Self::Output)
        ensures
            Self::is_difference(res, self, rhs),
    {
        let mut cols = self.cols;
        let mut i: usize = 0;
        while i < COLUMN
            invariant
                i <= COLUMN,
                self.difference_fits(rhs),
                forall|a: int, b: int|
                    0 <= a < i && 0 <= b < ROW ==> #[trigger] cols[a][b] == self.entry(a, b)
                        - rhs.entry(a, b),
            decreases COLUMN - i,
        {
            let mut col = cols[i];
            let mut j: usize = 0;
            while j < ROW
                invariant
                    i < COLUMN,
                    j <= ROW,
                    self.difference_fits(rhs),
                    forall|b: int|
                        0 <= b < j ==> #[trigger] col[b] == self.entry(i as int, b) - rhs.entry(
                            i as int,
                            b,
                        ),
                decreases ROW - j,
            {
                assert(i32::MIN <= self.entry(i as int, j as int) - rhs.entry(i as int, j as int)
                    <= i32::MAX);
                col.set(j, self.cols[i][j] - rhs.cols[i][j]);
                j = j + 1;
            }
            cols.set(i, col);
            i = i + 1;
        }
        let res = Matrix { cols };
        proof {
            let chosen = choose|m: Self| Self::is_difference(m, self, rhs);
            assert(Self::is_difference(res, self, rhs));
            assert(Self::is_difference(chosen, self, rhs));
            assert forall|a: int, b: int|
                0 <= a < COLUMN && 0 <= b < ROW implies #[trigger] res.entry(a, b) == chosen.entry(a, b) by {
                assert(res.entry(a, b) == self.entry(a, b) - rhs.entry(a, b));
                assert(chosen.entry(a, b) == self.entry(a, b) - rhs.entry(a, b));
            }
            Self::lemma_entries_determine(res, chosen);
        }
        res
    }
}

impl<const COLUMN: usize, const ROW: usize> SubSpecImpl for Matrix<COLUMN, ROW, i32> {
    open spec fn obeys_sub_spec() -> bool {
        true
    }

    open spec fn sub_req(self, rhs: Self) -> bool {
        self.difference_fits(rhs)
    }

    open spec fn sub_spec(self, rhs: Self) -> Self {
        choose|m: Self| Self::is_difference(m, self, rhs)
    }
}

/// `sum(k < n) a.entry(k, j) * b.entry(i, k)`: the first `n` terms of the
/// entry in column `i`, row `j` of the product `a * b`.
pub open spec fn dot_prefix<const COLUMN: usize, const ROW: usize, const COLUMN_TWO: usize>(
    a: Matrix<COLUMN, ROW, i32>,
    b: Matrix<COLUMN_TWO, COLUMN, i32>,
    i: int,
    j: int,
    n: int,
) -> int
    decreases n,
{
    if n <= 0 {
        0
    } else {
        dot_prefix(a, b, i, j, n - 1) + a.entry(n - 1, j) * b.entry(i, n - 1)
    }
}

/// The product `a * b` can be formed: the shapes agree wherever an entry
/// is computed, and every term and every partial sum fits an `i32`.
pub open spec fn product_fits<const COLUMN: usize, const ROW: usize, const COLUMN_TWO: usize>(
    a: Matrix<COLUMN, ROW, i32>,
    b: Matrix<COLUMN_TWO, COLUMN, i32>,
) -> bool {
    &&& (COLUMN_TWO == 0 || COLUMN == 0 || ROW == COLUMN)
    &&& forall|i: int, j: int, k: int|
        0 <= i < COLUMN_TWO && 0 <= j < COLUMN && 0 <= k < ROW ==> i32::MIN <= #[trigger] a.entry(k, j)
            * #[trigger] b.entry(i, k) <= i32::MAX
    &&& forall|i: int, j: int, n: int|
        0 <= i < COLUMN_TWO && 0 <= j < COLUMN && 1 <= n <= ROW ==> i32::MIN <= #[trigger] dot_prefix(
            a,
            b,
            i,
            j,
            n,
        ) <= i32::MAX
}

/// `m` is the product `a * b`.
pub open spec fn is_product<const COLUMN: usize, const ROW: usize, const COLUMN_TWO: usize>(
    m: Matrix<COLUMN_TWO, COLUMN, i32>,
    a: Matrix<COLUMN, ROW, i32>,
    b: Matrix<COLUMN_TWO, COLUMN, i32>,
) -> bool {
    forall|i: int, j: int|
        0 <= i < COLUMN_TWO && 0 <= j < COLUMN ==> #[trigger] m.entry(i, j) == dot_prefix(a, b, i, j, ROW as int)
}

impl<const COLUMN: usize, const ROW: usize, const COLUMN_TWO: usize> std::ops::Mul<
    Matrix<COLUMN_TWO, COLUMN, i32>,
> for Matrix<COLUMN, ROW, i32> {
    type Output = Matrix<COLUMN_TWO, COLUMN, i32>;

    /// The matrix product: the entry in column `i`, row `j` is the sum over
    /// `k` of `self`'s entry in column `k`, row `j` times `rhs`'s entry in
    /// column `i`, row `k`.
    fn mul(self, rhs: Matrix<COLUMN_TWO, COLUMN, i32>) -> (res: Self::Output)
        ensures
            is_product(res, self, rhs),
    {
        let mut cols = rhs.cols;
        let mut i: usize = 0;
        while i < COLUMN_TWO
            invariant
                i <= COLUMN_TWO,
                product_fits(self, rhs),
                forall|a: int, b: int|
                    0 <= a < i && 0 <= b < COLUMN ==> #[trigger] cols[a][b] == dot_prefix(
                        self,
                        rhs,
                        a,
                        b,
                        ROW as int,
                    ),
            decreases COLUMN_TWO - i,
        {
            let mut col = cols[i];
            let mut j: usize = 0;
            while j < COLUMN
                invariant
                    i < COLUMN_TWO,
                    j <= COLUMN,
                    product_fits(self, rhs),
                    forall|b: int|
                        0 <= b < j ==> #[trigger] col[b] == dot_prefix(self, rhs, i as int, b, ROW as int),
                decreases COLUMN - j,
            {
                assert(ROW == COLUMN);
                assert(dot_prefix(self, rhs, i as int, j as int, 0) == 0);
                assert(i32::MIN <= self.entry(0, j as int) * rhs.entry(i as int, 0) <= i32::MAX);
                let mut acc: i32 = self.cols[0][j] * rhs.cols[i][0];
                let mut k: usize = 1;
                while k < ROW
                    invariant
                        ROW == COLUMN,
                        i < COLUMN_TWO,
                        j < COLUMN,
                        1 <= k <= ROW,
                        product_fits(self, rhs),
                        acc == dot_prefix(self, rhs, i as int, j as int, k as int),
                    decreases ROW - k,
                {
                    assert(i32::MIN <= self.entry(k as int, j as int) * rhs.entry(i as int, k as int)
                        <= i32::MAX);
                    assert(i32::MIN <= dot_prefix(self, rhs, i as int, j as int, k + 1) <= i32::MAX);
                    acc = acc + self.cols[k][j] * rhs.cols[i][k];
                    k = k + 1;
                }
                col.set(j, acc);
                j = j + 1;
            }
            cols.set(i, col);
            i = i + 1;
        }
        let res = Matrix { cols };
        proof {
            let chosen = choose|m: Matrix<COLUMN_TWO, COLUMN, i32>| is_product(m, self, rhs);
            assert(is_product(res, self, rhs));
            assert forall|a: int, b: int|
                0 <= a < COLUMN_TWO && 0 <= b < COLUMN implies #[trigger] res.entry(a, b) == chosen.entry(a, b) by {
                assert(res.entry(a, b) == dot_prefix(self, rhs, a, b, ROW as int));
                assert(chosen.entry(a, b) == dot_prefix(self, rhs, a, b, ROW as int));
            }
            Matrix::<COLUMN_TWO, COLUMN, i32>::lemma_entries_determine(res, chosen);
        }
        res
    }
}

impl<const COLUMN: usize, const ROW: usize, const COLUMN_TWO: usize> MulSpecImpl<
    Matrix<COLUMN_TWO, COLUMN, i32>,
> for Matrix<COLUMN, ROW, i32> {
    open spec fn obeys_mul_spec() -> bool {
        true
    }

    open spec fn mul_req(self, rhs: Matrix<COLUMN_TWO, COLUMN, i32>) -> bool {
        product_fits(self, rhs)
    }

    open spec fn mul_spec(self, rhs: Matrix<COLUMN_TWO, COLUMN, i32>) -> Matrix<COLUMN_TWO, COLUMN, i32> {
        choose|m: Matrix<COLUMN_TWO, COLUMN, i32>| is_product(m, self, rhs)
    }
}

impl<const COLUMN: usize, const ROW: usize, T> std::ops::Index<usize> for Matrix<COLUMN, ROW, T> {
    type Output = [T; ROW];

    /// Column `index`.
    fn index(&self, index: usize) -> (res: &[T; ROW])
        ensures
            forall|j: int| 0 <= j < ROW ==> #[trigger] res[j] == self.entry(index as int, j),
    {
        &self.cols[index]
    }
}

impl<const COLUMN: usize, const ROW: usize, T> vstd::std_specs::core::IndexSpecImpl<usize> for Matrix<COLUMN, ROW, T> {
    open spec fn index_req(&self, index: &usize) -> bool {
        *index < COLUMN
    }
}

} // verus!
