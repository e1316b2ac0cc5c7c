//! Dense matrices of scalars, stored column by column.
//!
//! A point in input space is a matrix with a single row; a Jacobian is a square matrix.

use vstd::prelude::*;

verus! {

/// What a [`Matrix`] holds: its dimensions and its entries, column after column.
pub struct MatrixView<S> {
    pub nrows: nat,
    pub ncols: nat,
    pub entries: Seq<S>,
}

impl<S> MatrixView<S> {
    /// The number of entries agrees with the dimensions.
    pub open spec fn well_formed(self) -> bool {
        self.entries.len() == self.nrows * self.ncols
    }

    /// The dimensions, rows first.
    pub open spec fn shape(self) -> (nat, nat) {
        (self.nrows, self.ncols)
    }

    /// The entry in row `i` and column `j`.
    pub open spec fn entry(self, i: int, j: int) -> S {
        self.entries[i + j * self.nrows]
    }

    /// The same matrix with the entry at position `ind` of the storage order replaced.
    pub open spec fn with_coordinate(self, ind: int, value: S) -> MatrixView<S> {
        MatrixView { nrows: self.nrows, ncols: self.ncols, entries: self.entries.update(ind, value) }
    }

    /// The same matrix with the entry in row `i` and column `j` replaced.
    pub open spec fn with_entry(self, i: int, j: int, value: S) -> MatrixView<S> {
        self.with_coordinate(i + j * self.nrows, value)
    }
}

/// The position in the storage order of the entry in row `i` and column `j` lies within
/// the matrix, and distinct entries have distinct positions.
pub proof fn lemma_position_in_range(nrows: nat, ncols: nat, i: int, j: int)
    requires
        0 <= i < nrows,
        0 <= j < ncols,
    ensures
        0 <= i + j * nrows < nrows * ncols,
        (i + j * nrows) % (nrows as int) == i,
        (i + j * nrows) / (nrows as int) == j,
{
    assert(j * nrows + nrows <= ncols * nrows) by (nonlinear_arith)
        requires
            0 <= j < ncols,
    ;
    assert(0 <= j * nrows) by (nonlinear_arith)
        requires
            0 <= j,
    ;
    assert(nrows * ncols == ncols * nrows) by (nonlinear_arith);
    vstd::arithmetic::div_mod::lemma_fundamental_div_mod_converse(
        i + j * nrows,
        nrows as int,
        j,
        i,
    );
}

/// The entry at position `k` of the storage order stands in row `k % nrows` and column
/// `k / nrows`.
pub proof fn lemma_row_and_column(nrows: nat, ncols: nat, k: int)
    requires
        0 <= k < nrows * ncols,
    ensures
        nrows > 0,
        0 <= k % (nrows as int) < nrows,
        0 <= k / (nrows as int) < ncols,
        k == k % (nrows as int) + (k / (nrows as int)) * nrows,
{
    assert(nrows > 0) by (nonlinear_arith)
        requires
            0 <= k < nrows * ncols,
    ;
    let n = nrows as int;
    vstd::arithmetic::div_mod::lemma_fundamental_div_mod(k, n);
    vstd::arithmetic::div_mod::lemma_mod_bound(k, n);
    let q = k / n;
    assert(n * q == q * n) by (nonlinear_arith);
    assert(0 <= q < ncols) by (nonlinear_arith)
        requires
            0 <= k < n * ncols,
            k == q * n + k % n,
            0 <= k % n < n,
            n > 0,
    ;
}

/// A matrix with `nrows` rows and `ncols` columns.
pub struct Matrix<S> {
    nrows: usize,
    ncols: usize,
    data: Vec<S>,
}

impl<S> View for Matrix<S> {
    type V = MatrixView<S>;

    closed spec fn view(&self) -> MatrixView<S> {
        MatrixView { nrows: self.nrows as nat, ncols: self.ncols as nat, entries: self.data@ }
    }
}

impl<S> Matrix<S> {
    #[verifier::type_invariant]
    spec fn consistent(&self) -> bool {
        self.data@.len() == self.nrows * self.ncols
    }
}

impl<S: Copy> Matrix<S> {
    /// The matrix with `nrows` rows and `ncols` columns whose entries all equal `value`.
    pub fn repeat(nrows: usize, ncols: usize, value: S) -> (m: Matrix<S>)
        requires
            nrows * ncols <= usize::MAX,
        ensures
            m@.nrows == nrows,
            m@.ncols == ncols,
            m@.entries == Seq::new((nrows * ncols) as nat, |k: int| value),
            m@.well_formed(),
    {
        let total: usize = nrows * ncols;
        let mut data: Vec<S> = Vec::with_capacity(total);
        let mut k: usize = 0;
        while k < total
            invariant
                k <= total,
                data@ == Seq::new(k as nat, |t: int| value),
            decreases total - k,
        {
            data.push(value);
            k += 1;
            assert(data@ =~= Seq::new(k as nat, |t: int| value));
        }
        Matrix { nrows, ncols, data }
    }

    /// The matrix with `nrows` rows and `ncols` columns whose rows, one after another, make
    /// up `data`.
    pub fn from_row_slice(nrows: usize, ncols: usize, data: &[S]) -> (m: Matrix<S>)
        requires
            data@.len() == nrows * ncols,
        ensures
            m@.nrows == nrows,
            m@.ncols == ncols,
            m@.well_formed(),
            forall|i: int, j: int|
                0 <= i < nrows && 0 <= j < ncols ==> #[trigger] m@.entry(i, j) == data@[i * ncols
                    + j],
    {
        let total: usize = data.len();
        let mut stored: Vec<S> = Vec::with_capacity(total);
        let mut k: usize = 0;
        while k < total
            invariant
                k <= total,
                total == nrows * ncols,
                data@.len() == total,
                stored@.len() == k,
                forall|t: int|
                    0 <= t < k ==> #[trigger] stored@[t] == data@[(t % (nrows as int)) * ncols + t
                        / (nrows as int)],
            decreases total - k,
        {
            proof {
                lemma_row_and_column(nrows as nat, ncols as nat, k as int);
                lemma_position_in_range(
                    ncols as nat,
                    nrows as nat,
                    (k as int) / (nrows as int),
                    (k as int) % (nrows as int),
                );
                assert(ncols * nrows == nrows * ncols) by (nonlinear_arith);
                assert(0 <= ((k as int) % (nrows as int)) * ncols) by (nonlinear_arith)
                    requires
                        0 <= (k as int) % (nrows as int),
                ;
            }
            let i: usize = k % nrows;
            let j: usize = k / nrows;
            let value: S = data[i * ncols + j];
            stored.push(value);
            k += 1;
        }
        proof {
            let built = MatrixView { nrows: nrows as nat, ncols: ncols as nat, entries: stored@ };
            assert forall|i: int, j: int| 0 <= i < nrows && 0 <= j < ncols implies #[trigger] built.entry(
                i,
                j,
            ) == data@[i * ncols + j] by {
                lemma_position_in_range(nrows as nat, ncols as nat, i, j);
                lemma_position_in_range(ncols as nat, nrows as nat, j, i);
            }
        }
        Matrix { nrows, ncols, data: stored }
    }

    /// The number of rows.
    pub fn nrows(&self) -> (n: usize)
        ensures
            n == self@.nrows,
            self@.well_formed(),
    {
        proof {
            use_type_invariant(self);
        }
        self.nrows
    }

    /// The number of columns.
    pub fn ncols(&self) -> (n: usize)
        ensures
            n == self@.ncols,
            self@.well_formed(),
    {
        proof {
            use_type_invariant(self);
        }
        self.ncols
    }

    /// The dimensions, rows first.
    pub fn shape(&self) -> (s: (usize, usize))
        ensures
            s.0 == self@.nrows,
            s.1 == self@.ncols,
            self@.well_formed(),
    {
        proof {
            use_type_invariant(self);
        }
        (self.nrows, self.ncols)
    }

    /// The number of entries.
    pub fn len(&self) -> (n: usize)
        ensures
            n == self@.entries.len(),
            self@.well_formed(),
    {
        proof {
            use_type_invariant(self);
        }
        self.data.len()
    }

    /// The entry in row `i` and column `j`.
    pub fn get(&self, i: usize, j: usize) -> (value: S)
        requires
            i < self@.nrows,
            j < self@.ncols,
        ensures
            value == self@.entry(i as int, j as int),
    {
        proof {
            use_type_invariant(self);
            assert(self.data.len() == self.data@.len());
            lemma_position_in_range(self.nrows as nat, self.ncols as nat, i as int, j as int);
        }
        self.data[i + j * self.nrows]
    }

    /// The entry at position `ind` of the storage order.
    pub fn at(&self, ind: usize) -> (value: S)
        requires
            ind < self@.entries.len(),
        ensures
            value == self@.entries[ind as int],
    {
        self.data[ind]
    }

    /// Replaces the entry in row `i` and column `j`.
    pub fn set(&mut self, i: usize, j: usize, value: S)
        requires
            i < old(self)@.nrows,
            j < old(self)@.ncols,
        ensures
            final(self)@ == old(self)@.with_entry(i as int, j as int, value),
        no_unwind
    {
        proof {
            use_type_invariant(&*self);
            assert(self.data.len() == self.data@.len());
            lemma_position_in_range(self.nrows as nat, self.ncols as nat, i as int, j as int);
        }
        let position: usize = i + j * self.nrows;
        self.data[position] = value;
    }

    /// Replaces the entry at position `ind` of the storage order.
    pub fn set_at(&mut self, ind: usize, value: S)
        requires
            ind < old(self)@.entries.len(),
        ensures
            final(self)@ == old(self)@.with_coordinate(ind as int, value),
        no_unwind
    {
        proof {
            use_type_invariant(&*self);
        }
        self.data[ind] = value;
    }
}

impl<S: Copy> Clone for Matrix<S> {
    fn clone(&self) -> (m: Self)
        ensures
            m@ == self@,
    {
        proof {
            use_type_invariant(self);
        }
        let total: usize = self.data.len();
        let mut data: Vec<S> = Vec::with_capacity(total);
        let mut k: usize = 0;
        while k < total
            invariant
                k <= total,
                total == self.data@.len(),
                data@ == self.data@.take(k as int),
            decreases total - k,
        {
            data.push(self.data[k]);
            k += 1;
            assert(data@ =~= self.data@.take(k as int));
        }
        assert(data@ =~= self.data@);
        Matrix { nrows: self.nrows, ncols: self.ncols, data }
    }
}

} // verus!
