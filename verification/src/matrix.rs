//! Dense row-major matrix over 64-bit signed integers, with validated
//! construction, bounds-checked access, shape-checked arithmetic and a
//! recursive cofactor determinant.

use vstd::prelude::*;

verus! {

/// The ways a matrix operation can fail.
#[derive(Debug, PartialEq)]
pub enum MatrixError {
    /// The backing data's length does not equal `rows * columns`.
    IncorrectDataSize,
    /// Operand shapes violate an operation's shape precondition.
    IncompatibleDimensions,
    /// `determinant` was called on a non-square matrix.
    SquareMatrixRequired,
    /// An access used an out-of-range coordinate; carries `(row, column)`.
    InvalidIndex(usize, usize),
}

/// A dense matrix stored in row-major order: element `(r, c)` sits at
/// linear index `c + r * columns`.
#[derive(Debug, PartialEq)]
pub struct Matrix {
    pub rows: usize,
    pub columns: usize,
    pub data: Vec<i64>,
}

impl Matrix {
    /// The structural invariant: the backing data holds exactly one
    /// element per coordinate.
    pub open spec fn wf(self) -> bool {
        self.data@.len() == self.rows * self.columns
    }

    /// The linear index of coordinate `(row, column)`.
    pub open spec fn flat(self, row: int, column: int) -> int {
        column + row * self.columns
    }

    /// Whether `(row, column)` is inside the matrix.
    pub open spec fn in_bounds(self, row: int, column: int) -> bool {
        0 <= row < self.rows && 0 <= column < self.columns
    }

    /// Builds a matrix from row-major backing data, rejecting data whose
    /// length does not match the requested shape.
    pub fn new(rows: usize, columns: usize, data: Vec<i64>) -> (r: Result<Matrix, MatrixError>)
        ensures
            data@.len() == rows * columns ==> (r matches Ok(m)
                && m.rows == rows
                && m.columns == columns
                && m.data@ == data@),
            data@.len() != rows * columns ==> r == Err::<Matrix, MatrixError>(
                MatrixError::IncorrectDataSize,
            ),
    {
        let len = data.len();
        let expected_size = rows.checked_mul(columns);

        match expected_size {
            Some(size) => {
                if len != size {
                    Err(MatrixError::IncorrectDataSize)
                } else {
                    Ok(Matrix { rows, columns, data })
                }
            },
            None => Err(MatrixError::IncorrectDataSize),
        }
    }

    /// Looks up the element at `(row, column)`, rejecting out-of-range
    /// coordinates.
    pub fn get(&self, row: usize, column: usize) -> (r: Result<i64, MatrixError>)
        requires
            self.wf(),
        ensures
            self.in_bounds(row as int, column as int) ==> r == Ok::<i64, MatrixError>(
                self.data@[self.flat(row as int, column as int)],
            ),
            !self.in_bounds(row as int, column as int) ==> r == Err::<i64, MatrixError>(
                MatrixError::InvalidIndex(row, column),
            ),
    {
        match self.get_index(row, column) {
            Ok(v) => Ok(self.data[v]),
            Err(e) => Err(e),
        }
    }

    /// Overwrites the element at `(row, column)`, rejecting out-of-range
    /// coordinates and leaving the matrix unchanged in that case.
    pub fn set(&mut self, row: usize, column: usize, value: i64) -> (r: Result<(), MatrixError>)
        requires
            old(self).wf(),
        ensures
            final(self).rows == old(self).rows,
            final(self).columns == old(self).columns,
            final(self).wf(),
            old(self).in_bounds(row as int, column as int) ==> (r == Ok::<(), MatrixError>(())
                && final(self).data@ == old(self).data@.update(
                    old(self).flat(row as int, column as int),
                    value,
                )),
            !old(self).in_bounds(row as int, column as int) ==> (r == Err::<(), MatrixError>(
                MatrixError::InvalidIndex(row, column),
            ) && final(self).data@ == old(self).data@),
    {
        match self.get_index(row, column) {
            Ok(v) => {
                self.data.set(v, value);
                Ok(())
            },
            Err(e) => Err(e),
        }
    }

    /// Bounds-checks a coordinate and converts it to its linear index.
    fn get_index(&self, row: usize, column: usize) -> (r: Result<usize, MatrixError>)
        requires
            self.wf(),
        ensures
            self.in_bounds(row as int, column as int) ==> (r matches Ok(idx)
                && idx == self.flat(row as int, column as int)
                && idx < self.data@.len()),
            !self.in_bounds(row as int, column as int) ==> r == Err::<usize, MatrixError>(
                MatrixError::InvalidIndex(row, column),
            ),
    {
        if row >= self.rows {
            return Err(MatrixError::InvalidIndex(row, column));
        }
        if column >= self.columns {
            return Err(MatrixError::InvalidIndex(row, column));
        }

        Ok(self.get_index_ok(row, column))
    }

    /// Converts an in-range coordinate to its linear index.
    fn get_index_ok(&self, row: usize, column: usize) -> (idx: usize)
        requires
            self.wf(),
            self.in_bounds(row as int, column as int),
        ensures
            idx == self.flat(row as int, column as int),
            idx < self.data@.len(),
    {
        proof {
            lemma_flat_in_range(self.rows as int, self.columns as int, row as int, column as int);
            assert(self.data.len() == self.data@.len());
        }
        column + (row * self.columns)
    }

    /// The identity matrix of the given dimension, built by setting the
    /// diagonal of an all-zero square matrix.
    pub fn identity(rows: usize) -> (m: Matrix)
        requires
            rows * rows <= usize::MAX,
        ensures
            m.rows == rows,
            m.columns == rows,
            m.wf(),
            is_identity(rows as int, m.data@),
    {
        let ghost n = rows as int;
        let mut m = Matrix::square_zeros(rows);
        let mut i: usize = 0;
        while i < rows
            invariant
                m.rows == rows,
                m.columns == rows,
                m.wf(),
                i <= rows,
                n == rows,
                rows * rows <= usize::MAX,
                forall|j: int| 0 <= j < m.data@.len() ==> #[trigger] m.data@[j] == (if j / n == j
                    % n && j / n < i {
                    1i64
                } else {
                    0i64
                }),
            decreases rows - i,
        {
            let index = m.get_index_ok(i, i);
            m.data.set(index, 1);
            proof {
                lemma_flat_coords(n, i as int, i as int);
                assert forall|j: int| 0 <= j < m.data@.len() implies #[trigger] m.data@[j] == (if j
                    / n == j % n && j / n < i + 1 {
                    1i64
                } else {
                    0i64
                }) by {
                    vstd::arithmetic::div_mod::lemma_fundamental_div_mod(j, n);
                    vstd::arithmetic::div_mod::lemma_mod_bound(j, n);
                    assert(n * (j / n) == (j / n) * n) by (nonlinear_arith);
                }
            }
            i = i + 1;
        }
        proof {
            assert forall|j: int| 0 <= j < m.data@.len() implies #[trigger] m.data@[j] == (if j / n
                == j % n {
                1i64
            } else {
                0i64
            }) by {
                if rows > 0 {
                    vstd::arithmetic::div_mod::lemma_fundamental_div_mod(j, n);
                    vstd::arithmetic::div_mod::lemma_mod_bound(j, n);
                    assert(j / n < n) by (nonlinear_arith)
                        requires
                            j == n * (j / n) + j % n,
                            0 <= j % n < n,
                            j < n * n,
                    ;
                }
            }
        }
        m
    }

    /// Whether two matrices have exactly the same shape, as `sum` demands.
    pub open spec fn same_shape(self, other: Matrix) -> bool {
        self.rows == other.rows && self.columns == other.columns
    }

    /// The elementwise sum of two equal-shaped matrices.
    pub fn sum(&self, other: &Matrix) -> (r: Result<Matrix, MatrixError>)
        requires
            self.wf(),
            other.wf(),
            self.same_shape(*other) ==> forall|i: int|
                0 <= i < self.data@.len() ==> in_i64(
                    #[trigger] sum_entries(self.data@, other.data@)[i],
                ),
        ensures
            self.same_shape(*other) ==> (r matches Ok(m)
                && m.rows == self.rows
                && m.columns == self.columns
                && m.wf()
                && m.data@.len() == self.data@.len()
                && forall|i: int|
                    0 <= i < m.data@.len() ==> #[trigger] m.data@[i] == sum_entries(
                        self.data@,
                        other.data@,
                    )[i]),
            !self.same_shape(*other) ==> r == Err::<Matrix, MatrixError>(
                MatrixError::IncompatibleDimensions,
            ),
    {
        if self.rows != other.rows || self.columns != other.columns {
            return Err(MatrixError::IncompatibleDimensions);
        }

        proof {
            assert(self.data.len() == self.data@.len());
        }
        let mut result = Matrix::zeros(self.rows, self.columns);
        let total = self.data.len();
        let mut index: usize = 0;
        while index < total
            invariant
                self.wf(),
                other.wf(),
                self.same_shape(*other),
                forall|i: int|
                    0 <= i < self.data@.len() ==> in_i64(
                        #[trigger] sum_entries(self.data@, other.data@)[i],
                    ),
                result.rows == self.rows,
                result.columns == self.columns,
                result.wf(),
                total == self.data@.len(),
                other.data@.len() == total,
                result.data@.len() == total,
                index <= total,
                forall|i: int|
                    0 <= i < index ==> #[trigger] result.data@[i] == sum_entries(
                        self.data@,
                        other.data@,
                    )[i],
            decreases total - index,
        {
            proof {
                assert(in_i64(sum_entries(self.data@, other.data@)[index as int]));
            }
            let v = self.data[index] + other.data[index];
            result.data.set(index, v);
            index = index + 1;
        }
        Ok(result)
    }

    /// Whether the operand shapes are accepted by `multiply`: each
    /// operand's row count must equal the other's column count.
    pub open spec fn mul_compat(self, other: Matrix) -> bool {
        self.rows == other.columns && self.columns == other.rows
    }

    /// The matrix product of two mutually transpose-compatible matrices:
    /// entry `(r, c)` of the result is the inner product of row `r` of
    /// `self` and column `c` of `other`.
    pub fn multiply(&self, other: &Matrix) -> (r: Result<Matrix, MatrixError>)
        requires
            self.wf(),
            other.wf(),
            self.mul_compat(*other) ==> self.rows * other.columns <= usize::MAX,
            self.mul_compat(*other) ==> forall|r2: int, c2: int|
                0 <= r2 < self.rows && 0 <= c2 < other.columns ==> #[trigger] prod_fits(
                    self.data@,
                    self.columns as int,
                    other.data@,
                    other.columns as int,
                    r2,
                    c2,
                    self.columns as int,
                ),
        ensures
            self.mul_compat(*other) ==> (r matches Ok(m)
                && m.rows == self.rows
                && m.columns == other.columns
                && m.wf()
                && forall|r2: int, c2: int|
                    0 <= r2 < m.rows && 0 <= c2 < m.columns ==> m.data@[c2 + r2 * m.columns]
                        == #[trigger] prod_prefix(
                        self.data@,
                        self.columns as int,
                        other.data@,
                        other.columns as int,
                        r2,
                        c2,
                        self.columns as int,
                    )),
            !self.mul_compat(*other) ==> r == Err::<Matrix, MatrixError>(
                MatrixError::IncompatibleDimensions,
            ),
    {
        if self.rows != other.columns || self.columns != other.rows {
            return Err(MatrixError::IncompatibleDimensions);
        }

        let rows = self.rows;
        let ocols = other.columns;
        let inner = self.columns;
        let mut result = Matrix::zeros(rows, ocols);
        let mut row: usize = 0;
        while row < rows
            invariant
                self.wf(),
                other.wf(),
                self.mul_compat(*other),
                rows == self.rows,
                ocols == other.columns,
                inner == self.columns,
                forall|r2: int, c2: int|
                    0 <= r2 < self.rows && 0 <= c2 < other.columns ==> #[trigger] prod_fits(
                        self.data@,
                        self.columns as int,
                        other.data@,
                        other.columns as int,
                        r2,
                        c2,
                        self.columns as int,
                    ),
                result.rows == rows,
                result.columns == ocols,
                result.wf(),
                row <= rows,
                forall|r2: int, c2: int|
                    0 <= r2 < row && 0 <= c2 < ocols ==> result.data@[c2 + r2 * ocols]
                        == #[trigger] prod_prefix(
                        self.data@,
                        inner as int,
                        other.data@,
                        ocols as int,
                        r2,
                        c2,
                        inner as int,
                    ),
            decreases rows - row,
        {
            let mut column: usize = 0;
            while column < ocols
                invariant
                    self.wf(),
                    other.wf(),
                    self.mul_compat(*other),
                    rows == self.rows,
                    ocols == other.columns,
                    inner == self.columns,
                    forall|r2: int, c2: int|
                        0 <= r2 < self.rows && 0 <= c2 < other.columns ==> #[trigger] prod_fits(
                            self.data@,
                            self.columns as int,
                            other.data@,
                            other.columns as int,
                            r2,
                            c2,
                            self.columns as int,
                        ),
                    result.rows == rows,
                    result.columns == ocols,
                    result.wf(),
                    row < rows,
                    column <= ocols,
                    forall|r2: int, c2: int|
                        0 <= r2 < row && 0 <= c2 < ocols ==> result.data@[c2 + r2 * ocols]
                            == #[trigger] prod_prefix(
                            self.data@,
                            inner as int,
                            other.data@,
                            ocols as int,
                            r2,
                            c2,
                            inner as int,
                        ),
                    forall|c2: int|
                        0 <= c2 < column ==> result.data@[c2 + row * ocols]
                            == #[trigger] prod_prefix(
                            self.data@,
                            inner as int,
                            other.data@,
                            ocols as int,
                            row as int,
                            c2,
                            inner as int,
                        ),
                decreases ocols - column,
            {
                let mut rr: i64 = 0;
                let mut elem: usize = 0;
                while elem < inner
                    invariant
                        self.wf(),
                        other.wf(),
                        self.mul_compat(*other),
                        rows == self.rows,
                        ocols == other.columns,
                        inner == self.columns,
                        row < rows,
                        column < ocols,
                        elem <= inner,
                        prod_fits(
                            self.data@,
                            inner as int,
                            other.data@,
                            ocols as int,
                            row as int,
                            column as int,
                            inner as int,
                        ),
                        rr == prod_prefix(
                            self.data@,
                            inner as int,
                            other.data@,
                            ocols as int,
                            row as int,
                            column as int,
                            elem as int,
                        ),
                    decreases inner - elem,
                {
                    let s_index = self.get_index_ok(row, elem);
                    let o_index = other.get_index_ok(elem, column);
                    proof {
                        lemma_prod_fits_prefix(
                            self.data@,
                            inner as int,
                            other.data@,
                            ocols as int,
                            row as int,
                            column as int,
                            inner as int,
                            elem as int + 1,
                        );
                    }
                    rr = rr + self.data[s_index] * other.data[o_index];
                    elem = elem + 1;
                }

                match result.set(row, column, rr) {
                    Ok(_) => (),
                    Err(_) => {
                        proof {
                            assert(false);
                        }
                    },
                }
                proof {
                    lemma_flat_in_range(rows as int, ocols as int, row as int, column as int);
                    assert forall|r2: int, c2: int| 0 <= r2 < row && 0 <= c2 < ocols implies
                        result.data@[c2 + r2 * ocols] == #[trigger] prod_prefix(
                        self.data@,
                        inner as int,
                        other.data@,
                        ocols as int,
                        r2,
                        c2,
                        inner as int,
                    ) by {
                        lemma_flat_in_range(rows as int, ocols as int, r2, c2);
                        if c2 + r2 * ocols == column + row * ocols {
                            lemma_flat_injective(ocols as int, r2, c2, row as int, column as int);
                        }
                    }
                    assert forall|c2: int| 0 <= c2 < column + 1 implies result.data@[c2 + row
                        * ocols] == #[trigger] prod_prefix(
                        self.data@,
                        inner as int,
                        other.data@,
                        ocols as int,
                        row as int,
                        c2,
                        inner as int,
                    ) by {
                        lemma_flat_in_range(rows as int, ocols as int, row as int, c2);
                        if c2 < column && c2 + row * ocols == column + row * ocols {
                            lemma_flat_injective(ocols as int, row as int, c2, row as int, column as int);
                        }
                    }
                }
                column = column + 1;
            }
            row = row + 1;
        }
        Ok(result)
    }

    /// The determinant of a square matrix: `ad - bc` for the 2 by 2 base
    /// case, and otherwise the Laplace expansion along row 0, computed on
    /// a freshly allocated minor per deleted column.
    pub fn determinant(&self) -> (r: Result<i64, MatrixError>)
        requires
            self.wf(),
            self.rows == self.columns ==> det_fits(self.rows as nat, self.data@),
        ensures
            self.rows == self.columns ==> (r matches Ok(d) && d == spec_det(
                self.rows as nat,
                self.data@,
            )),
            self.rows != self.columns ==> r == Err::<i64, MatrixError>(
                MatrixError::SquareMatrixRequired,
            ),
        decreases self.rows,
    {
        if self.rows != self.columns {
            return Err(MatrixError::SquareMatrixRequired);
        }

        let n = self.rows;

        if n == 2 {
            proof {
                assert(self.data.len() == self.data@.len());
                assert(self.data@.len() == self.rows * self.columns);
                assert(self.rows * self.columns == 4) by (nonlinear_arith)
                    requires
                        self.rows == 2,
                        self.columns == 2,
                ;
            }
            return Ok(self.data[0] * self.data[3] - self.data[1] * self.data[2]);
        }

        let mut result: i64 = 0;
        let mut column_mask: usize = 0;
        while column_mask < n
            invariant
                self.wf(),
                n == self.rows,
                n == self.columns,
                n != 2,
                det_fits(n as nat, self.data@),
                column_mask <= n,
                result == cofactor_sum(n as nat, self.data@, column_mask as nat),
            decreases n - column_mask,
        {
            proof {
                assert(self.data.len() == self.data@.len());
                assert((n - 1) * (n - 1) <= n * n) by (nonlinear_arith)
                    requires
                        n >= 1,
                ;
            }
            let ghost ms = minor_seq(n as int, self.data@, column_mask as int);
            let mut sub_m = Matrix::square_zeros(n - 1);
            let mut row: usize = 1;
            while row < n
                invariant
                    self.wf(),
                    n == self.rows,
                    n == self.columns,
                    column_mask < n,
                    ms == minor_seq(n as int, self.data@, column_mask as int),
                    sub_m.rows == n - 1,
                    sub_m.columns == n - 1,
                    sub_m.wf(),
                    1 <= row <= n,
                    forall|i2: int|
                        0 <= i2 < (row - 1) * (n - 1) ==> sub_m.data@[i2] == ms[i2],
                decreases n - row,
            {
                let mut column: usize = 0;
                let mut column_index: usize = 0;
                while column < n
                    invariant
                        self.wf(),
                        n == self.rows,
                        n == self.columns,
                        column_mask < n,
                        ms == minor_seq(n as int, self.data@, column_mask as int),
                        sub_m.rows == n - 1,
                        sub_m.columns == n - 1,
                        sub_m.wf(),
                        1 <= row < n,
                        column <= n,
                        column_index == (if column <= column_mask {
                            column as int
                        } else {
                            column - 1
                        }),
                        forall|i2: int|
                            0 <= i2 < (row - 1) * (n - 1) + column_index ==> sub_m.data@[i2]
                                == ms[i2],
                    decreases n - column,
                {
                    if column != column_mask {
                        let cell_value = match self.get(row, column) {
                            Ok(v) => v,
                            Err(_) => {
                                proof {
                                    assert(false);
                                }
                                0
                            },
                        };
                        match sub_m.set(row - 1, column_index, cell_value) {
                            Ok(_) => (),
                            Err(_) => {
                                proof {
                                    assert(false);
                                }
                            },
                        }
                        proof {
                            let nn = n as int;
                            let idx = column_index + (row - 1) * (nn - 1);
                            lemma_flat_in_range(nn - 1, nn - 1, row - 1, column_index as int);
                            lemma_flat_coords(nn - 1, row - 1, column_index as int);
                            assert(minor_index(nn, column_mask as int, idx) == (column as int) + (
                            row as int) * nn);
                            assert(sub_m.data@[idx] == ms[idx]);
                        }
                        column_index = column_index + 1;
                    }
                    column = column + 1;
                }
                proof {
                    assert((row - 1) * (n - 1) + (n - 1) == ((row + 1) - 1) * (n - 1))
                        by (nonlinear_arith);
                }
                row = row + 1;
            }

            proof {
                assert(cof_fits(n as nat, self.data@, n as nat));
                lemma_cof_fits_prefix(
                    n as nat,
                    self.data@,
                    n as nat,
                    (column_mask as nat) + 1,
                );
                assert(sub_m.data@.len() == (n - 1) * (n - 1));
                assert(ms.len() == (n - 1) * (n - 1));
                assert(sub_m.data@ =~= ms);
            }
            let sub_det = match sub_m.determinant() {
                Ok(d) => d,
                Err(_) => {
                    proof {
                        assert(false);
                    }
                    0
                },
            };
            let coeff_idx = self.get_index_ok(0, column_mask);
            let coeff = self.data[coeff_idx];
            proof {
                assert(coeff == self.data@[column_mask as int]);
                assert(sub_det == spec_det((n - 1) as nat, ms));
                assert(in_i64(coeff * sub_det));
                assert(cofactor_sum(n as nat, self.data@, (column_mask as nat) + 1)
                    == cofactor_sum(n as nat, self.data@, column_mask as nat) + cofactor_term(
                    n as nat,
                    self.data@,
                    column_mask as nat,
                ));
                let a = self.data@[column_mask as int] as int;
                let b = spec_det((n - 1) as nat, ms);
                assert(1 * a * b == a * b) by (nonlinear_arith);
                assert((-1) * a * b == -(a * b)) by (nonlinear_arith);
                assert(cofactor_term(n as nat, self.data@, column_mask as nat) == (
                if column_mask % 2 == 0 {
                    a * b
                } else {
                    -(a * b)
                }));
                assert(in_i64(cofactor_sum(n as nat, self.data@, (column_mask as nat) + 1)));
            }
            let prod = coeff * sub_det;
            if column_mask % 2 == 0 {
                result = result + prod;
            } else {
                result = result - prod;
            }
            column_mask = column_mask + 1;
        }

        Ok(result)
    }

    /// An all-zero matrix of the given shape.
    pub fn zeros(rows: usize, columns: usize) -> (m: Matrix)
        requires
            rows * columns <= usize::MAX,
        ensures
            m.rows == rows,
            m.columns == columns,
            m.wf(),
            forall|i: int| 0 <= i < m.data@.len() ==> m.data@[i] == 0i64,
    {
        let total = rows * columns;
        let mut data: Vec<i64> = Vec::new();
        while data.len() < total
            invariant
                data@.len() <= total,
                forall|i: int| 0 <= i < data@.len() ==> data@[i] == 0i64,
            decreases total - data@.len(),
        {
            data.push(0);
        }
        Matrix { rows, columns, data }
    }

    /// An all-zero square matrix.
    pub fn square_zeros(dimension: usize) -> (m: Matrix)
        requires
            dimension * dimension <= usize::MAX,
        ensures
            m.rows == dimension,
            m.columns == dimension,
            m.wf(),
            forall|i: int| 0 <= i < m.data@.len() ==> m.data@[i] == 0i64,
    {
        Matrix::zeros(dimension, dimension)
    }
}

/// Whether a mathematical integer fits in a 64-bit signed machine word.
pub open spec fn in_i64(x: int) -> bool {
    i64::MIN <= x <= i64::MAX
}

/// The elementwise sum of two equally laid out data sequences.
pub open spec fn sum_entries(a: Seq<i64>, b: Seq<i64>) -> Seq<int> {
    Seq::new(a.len(), |i: int| a[i] + b[i])
}

/// The partial inner product of row `r` of `a` (laid out with `acols`
/// columns) and column `c` of `b` (laid out with `bcols` columns), over
/// the first `k` terms.
pub open spec fn prod_prefix(
    a: Seq<i64>,
    acols: int,
    b: Seq<i64>,
    bcols: int,
    r: int,
    c: int,
    k: int,
) -> int
    decreases k,
{
    if k <= 0 {
        0
    } else {
        prod_prefix(a, acols, b, bcols, r, c, k - 1) + a[(k - 1) + r * acols] * b[c + (k - 1)
            * bcols]
    }
}

/// Whether every term and every partial sum of the inner product over the
/// first `k` terms fits in a 64-bit signed machine word.
pub open spec fn prod_fits(
    a: Seq<i64>,
    acols: int,
    b: Seq<i64>,
    bcols: int,
    r: int,
    c: int,
    k: int,
) -> bool
    decreases k,
{
    if k <= 0 {
        true
    } else {
        &&& prod_fits(a, acols, b, bcols, r, c, k - 1)
        &&& in_i64(a[(k - 1) + r * acols] * b[c + (k - 1) * bcols])
        &&& in_i64(prod_prefix(a, acols, b, bcols, r, c, k))
    }
}

/// A fitting inner product also fits over any shorter prefix.
proof fn lemma_prod_fits_prefix(
    a: Seq<i64>,
    acols: int,
    b: Seq<i64>,
    bcols: int,
    r: int,
    c: int,
    k: int,
    j: int,
)
    requires
        prod_fits(a, acols, b, bcols, r, c, k),
        j <= k,
    ensures
        prod_fits(a, acols, b, bcols, r, c, j),
    decreases k,
{
    if j < k && 0 < k {
        lemma_prod_fits_prefix(a, acols, b, bcols, r, c, k - 1, j);
    }
}

/// Distinct in-range coordinates have distinct linear indexes.
proof fn lemma_flat_injective(columns: int, r1: int, c1: int, r2: int, c2: int)
    requires
        0 <= r1,
        0 <= r2,
        0 <= c1 < columns,
        0 <= c2 < columns,
        c1 + r1 * columns == c2 + r2 * columns,
    ensures
        r1 == r2,
        c1 == c2,
{
    lemma_flat_coords(columns, r1, c1);
    lemma_flat_coords(columns, r2, c2);
}

/// The linear index, inside the row-major data of an `n` by `n` matrix,
/// of entry `i` of the minor formed by deleting row 0 and column `mask`.
pub open spec fn minor_index(n: int, mask: int, i: int) -> int {
    let r = i / (n - 1);
    let c = i % (n - 1);
    let cc = if c < mask {
        c
    } else {
        c + 1
    };
    cc + (r + 1) * n
}

/// The row-major data of the minor of an `n` by `n` matrix `s` formed by
/// deleting row 0 and column `mask`.
pub open spec fn minor_seq(n: int, s: Seq<i64>, mask: int) -> Seq<i64> {
    Seq::new(((n - 1) * (n - 1)) as nat, |i: int| s[minor_index(n, mask, i)])
}

/// The determinant of the `n` by `n` matrix held row-major in `s`:
/// `ad - bc` for a 2 by 2 matrix, and otherwise the Laplace expansion
/// along row 0, which makes any 0 by 0 or 1 by 1 determinant 0.
pub open spec fn spec_det(n: nat, s: Seq<i64>) -> int
    decreases n, n + 1,
{
    if n == 2 {
        s[0] * s[3] - s[1] * s[2]
    } else {
        cofactor_sum(n, s, n)
    }
}

/// One signed term of the Laplace expansion along row 0: the sign
/// alternates with the deleted column, times the row-0 entry there,
/// times the minor's determinant.
pub open spec fn cofactor_term(n: nat, s: Seq<i64>, mask: nat) -> int
    decreases n, 0nat,
{
    if n == 0 {
        0
    } else {
        let sign: int = if mask % 2 == 0 {
            1
        } else {
            -1
        };
        sign * s[mask as int] * spec_det((n - 1) as nat, minor_seq(n as int, s, mask as int))
    }
}

/// The sum of the first `k` terms of the Laplace expansion along row 0.
pub open spec fn cofactor_sum(n: nat, s: Seq<i64>, k: nat) -> int
    decreases n, k,
{
    if k == 0 || n == 0 {
        0
    } else {
        cofactor_sum(n, s, (k - 1) as nat) + cofactor_term(n, s, (k - 1) as nat)
    }
}

/// Whether every intermediate value of the determinant computation on the
/// `n` by `n` matrix `s` fits in a 64-bit signed machine word: the 2 by 2
/// products and difference, and recursively every minor's computation,
/// every signed term and every partial sum of the expansion.
pub open spec fn det_fits(n: nat, s: Seq<i64>) -> bool
    decreases n, n + 1,
{
    if n == 2 {
        in_i64(s[0] * s[3]) && in_i64(s[1] * s[2]) && in_i64(s[0] * s[3] - s[1] * s[2])
    } else {
        cof_fits(n, s, n)
    }
}

/// Whether the first `k` expansion steps stay inside the 64-bit range.
pub open spec fn cof_fits(n: nat, s: Seq<i64>, k: nat) -> bool
    decreases n, k,
{
    if k == 0 || n == 0 {
        true
    } else {
        &&& cof_fits(n, s, (k - 1) as nat)
        &&& det_fits((n - 1) as nat, minor_seq(n as int, s, (k - 1) as int))
        &&& in_i64(spec_det((n - 1) as nat, minor_seq(n as int, s, (k - 1) as int)))
        &&& in_i64(s[k - 1] * spec_det((n - 1) as nat, minor_seq(n as int, s, (k - 1) as int)))
        &&& in_i64(cofactor_sum(n, s, k))
    }
}

/// A fitting expansion also fits over any shorter run of steps.
proof fn lemma_cof_fits_prefix(n: nat, s: Seq<i64>, k: nat, j: nat)
    requires
        cof_fits(n, s, k),
        j <= k,
    ensures
        cof_fits(n, s, j),
    decreases k,
{
    if j < k && 0 < k {
        lemma_cof_fits_prefix(n, s, (k - 1) as nat, j);
    }
}

/// Whether `s` holds, in row-major order, the `n` by `n` identity matrix:
/// ones on the diagonal, zeros elsewhere.
pub open spec fn is_identity(n: int, s: Seq<i64>) -> bool {
    &&& s.len() == n * n
    &&& forall|i: int|
        0 <= i < s.len() ==> #[trigger] s[i] == (if i / n == i % n {
            1i64
        } else {
            0i64
        })
}

/// Splits an in-range linear index back into its coordinates.
pub proof fn lemma_flat_coords(n: int, row: int, column: int)
    requires
        0 <= row,
        0 <= column < n,
    ensures
        (column + row * n) / n == row,
        (column + row * n) % n == column,
{
    vstd::arithmetic::div_mod::lemma_fundamental_div_mod_converse(
        column + row * n,
        n,
        row,
        column,
    );
}

/// An in-range coordinate's linear index lies inside the row-major data.
pub proof fn lemma_flat_in_range(rows: int, columns: int, row: int, column: int)
    by (nonlinear_arith)
    requires
        0 <= row < rows,
        0 <= column < columns,
    ensures
        0 <= column + row * columns < rows * columns,
{
}

} // verus!
