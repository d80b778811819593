//! Dense row-major matrices of binary64 encodings.
//!
//! A matrix is a column count and a flat row-major buffer; the row count is
//! derived. The well-formedness invariant is that the buffer splits evenly
//! into at least one row. Every operation's contract gives each entry of the
//! result as an exact composition of the named scalar operations, and the
//! transpose involution is proved as a law below.

use crate::fp::{add_bits, fp_add, fp_mul, mul_bits, B_ZERO};
use crate::rng::{weight_seq, rng_state_after, WeightRng};
use vstd::prelude::*;

verus! {

/// Row-major matrix: `data[r * cols + c]` is the entry at row `r`, column
/// `c`.
pub struct Matrix {
    pub cols: usize,
    pub data: Vec<u64>,
}

/// The mathematical shadow of a matrix: a column count and the flat buffer.
pub struct MatModel {
    pub cols: int,
    pub data: Seq<u64>,
}

impl View for Matrix {
    type V = MatModel;

    open spec fn view(&self) -> MatModel {
        MatModel { cols: self.cols as int, data: self.data@ }
    }
}

/// Well-formedness of a model: at least one full row, split evenly.
pub open spec fn model_wf(m: MatModel) -> bool {
    1 <= m.cols <= m.data.len() && m.data.len() as int % m.cols == 0
}

/// The derived row count of a model.
pub open spec fn model_rows(m: MatModel) -> int {
    m.data.len() as int / m.cols
}

/// Row `r` of a model as a buffer slice.
pub open spec fn model_row(m: MatModel, r: int) -> Seq<u64> {
    m.data.subrange(r * m.cols, r * m.cols + m.cols)
}

/// Column `c` of a model, read top to bottom.
pub open spec fn model_col(m: MatModel, c: int) -> Seq<u64> {
    Seq::new(model_rows(m) as nat, |k: int| m.data[k * m.cols + c])
}

/// The flat row-major outer product of a column `og` with a row `input`:
/// entry `(i, j)` is `og[i] * input[j]` accumulated once onto zero, exactly
/// as a one-term dot product computes it.
pub open spec fn outer_flat(og: Seq<u64>, input: Seq<u64>) -> Seq<u64> {
    Seq::new(
        og.len() * input.len(),
        |idx: int|
            fp_add(
                B_ZERO,
                fp_mul(og[idx / input.len() as int], input[idx % input.len() as int]),
            ),
    )
}

/// The elementwise combination of two equal-length buffers.
pub open spec fn seq_zip_add(a: Seq<u64>, b: Seq<u64>) -> Seq<u64> {
    Seq::new(a.len(), |i: int| fp_add(a[i], b[i]))
}

pub open spec fn seq_zip_sub(a: Seq<u64>, b: Seq<u64>) -> Seq<u64> {
    Seq::new(a.len(), |i: int| crate::fp::fp_sub(a[i], b[i]))
}

pub open spec fn seq_zip_mul(a: Seq<u64>, b: Seq<u64>) -> Seq<u64> {
    Seq::new(a.len(), |i: int| fp_mul(a[i], b[i]))
}

/// Every entry multiplied by `ratio`, the entry on the left.
pub open spec fn seq_scale(a: Seq<u64>, ratio: u64) -> Seq<u64> {
    Seq::new(a.len(), |i: int| fp_mul(a[i], ratio))
}

/// The running left-to-right dot product of the first `n` entries, starting
/// from zero.
pub open spec fn dot_prefix(a: Seq<u64>, b: Seq<u64>, n: int) -> u64
    decreases n,
{
    if n <= 0 {
        B_ZERO
    } else {
        fp_add(dot_prefix(a, b, n - 1), fp_mul(a[n - 1], b[n - 1]))
    }
}

/// The dot product of two equal-length buffers.
pub open spec fn dot_seq(a: Seq<u64>, b: Seq<u64>) -> u64 {
    dot_prefix(a, b, a.len() as int)
}

/// The row-major buffer of the transpose of a `rows x cols` buffer: entry
/// `j` of the transpose is the source entry at row `j % rows`, column
/// `j / rows`.
pub open spec fn transpose_seq(cols: int, data: Seq<u64>) -> Seq<u64> {
    let rows = data.len() as int / cols;
    Seq::new(data.len(), |j: int| data[(j % rows) * cols + j / rows])
}

impl Matrix {
    /// At least one full row, split evenly into columns.
    pub open spec fn wf(&self) -> bool {
        1 <= self.cols <= self.data@.len() && self.data@.len() as int % (self.cols as int) == 0
    }

    /// The derived row count.
    pub open spec fn spec_rows(&self) -> int {
        self.data@.len() as int / (self.cols as int)
    }

    /// The entry at row `r`, column `c`.
    pub open spec fn entry(&self, r: int, c: int) -> u64 {
        self.data@[r * (self.cols as int) + c]
    }

    /// The row `r` as a buffer slice.
    pub open spec fn row_seq(&self, r: int) -> Seq<u64> {
        self.data@.subrange(r * (self.cols as int), r * (self.cols as int) + self.cols as int)
    }

    /// The column `c` read top to bottom.
    pub open spec fn col_seq(&self, c: int) -> Seq<u64> {
        Seq::new(self.spec_rows() as nat, |k: int| self.entry(k, c))
    }

    /// An all-zero matrix of the given shape.
    pub fn new(rows: usize, cols: usize) -> (m: Matrix)
        requires
            1 <= rows,
            1 <= cols,
            rows * cols <= usize::MAX,
        ensures
            m.wf(),
            m.cols == cols,
            m.data@.len() == rows * cols,
            forall|i: int| 0 <= i < m.data@.len() ==> m.data@[i] == B_ZERO,
    {
        proof {
            assert(rows * cols >= cols && rows * cols >= rows) by (nonlinear_arith)
                requires
                    rows >= 1,
                    cols >= 1,
            ;
        }
        let n: usize = rows * cols;
        let mut data: Vec<u64> = Vec::new();
        for i in 0..n
            invariant
                data@.len() == i,
                forall|j: int| 0 <= j < i ==> data@[j] == B_ZERO,
        {
            data.push(B_ZERO);
        }
        proof {
            assert((rows * cols) % (cols as int) == 0) by (nonlinear_arith)
                requires
                    cols >= 1,
            ;
        }
        Matrix { cols, data }
    }

    /// A single-row matrix holding a copy of the given vector.
    pub fn from(vec: &Vec<u64>) -> (m: Matrix)
        requires
            1 <= vec@.len(),
        ensures
            m.wf(),
            m.cols == vec@.len(),
            m.data@ == vec@,
            m.spec_rows() == 1,
    {
        let n: usize = vec.len();
        let mut data: Vec<u64> = Vec::new();
        for i in 0..n
            invariant
                n == vec@.len(),
                data@.len() == i,
                forall|j: int| 0 <= j < i ==> data@[j] == vec@[j],
        {
            data.push(vec[i]);
        }
        proof {
            assert(data@ =~= vec@);
        }
        Matrix { cols: n, data }
    }

    /// The derived row count: how many full rows the buffer holds.
    pub fn rows(&self) -> (r: usize)
        requires
            self.wf(),
        ensures
            r == self.spec_rows(),
    {
        self.data.len() / self.cols
    }

    /// Elementwise sum; operands must share the exact shape.
    pub fn add(&self, other: &Matrix) -> (r: Matrix)
        requires
            self.wf(),
            other.wf(),
            self.cols == other.cols,
            self.data@.len() == other.data@.len(),
        ensures
            r.wf(),
            r.cols == self.cols,
            r.data@ == seq_zip_add(self.data@, other.data@),
    {
        let n: usize = self.data.len();
        let mut data: Vec<u64> = Vec::new();
        for i in 0..n
            invariant
                n == self.data@.len(),
                n == other.data@.len(),
                data@.len() == i,
                forall|j: int| 0 <= j < i ==> data@[j] == fp_add(self.data@[j], other.data@[j]),
        {
            data.push(add_bits(self.data[i], other.data[i]));
        }
        proof {
            assert(data@ =~= seq_zip_add(self.data@, other.data@));
        }
        Matrix { cols: self.cols, data }
    }

    /// Elementwise difference; operands must share the exact shape.
    pub fn sub(&self, other: &Matrix) -> (r: Matrix)
        requires
            self.wf(),
            other.wf(),
            self.cols == other.cols,
            self.data@.len() == other.data@.len(),
        ensures
            r.wf(),
            r.cols == self.cols,
            r.data@ == seq_zip_sub(self.data@, other.data@),
    {
        let n: usize = self.data.len();
        let mut data: Vec<u64> = Vec::new();
        for i in 0..n
            invariant
                n == self.data@.len(),
                n == other.data@.len(),
                data@.len() == i,
                forall|j: int| 0 <= j < i
                    ==> data@[j] == crate::fp::fp_sub(self.data@[j], other.data@[j]),
        {
            data.push(crate::fp::sub_bits(self.data[i], other.data[i]));
        }
        proof {
            assert(data@ =~= seq_zip_sub(self.data@, other.data@));
        }
        Matrix { cols: self.cols, data }
    }

    /// Elementwise product; operands must share the exact shape.
    pub fn dot_mul(&self, other: &Matrix) -> (r: Matrix)
        requires
            self.wf(),
            other.wf(),
            self.cols == other.cols,
            self.data@.len() == other.data@.len(),
        ensures
            r.wf(),
            r.cols == self.cols,
            r.data@ == seq_zip_mul(self.data@, other.data@),
    {
        let n: usize = self.data.len();
        let mut data: Vec<u64> = Vec::new();
        for i in 0..n
            invariant
                n == self.data@.len(),
                n == other.data@.len(),
                data@.len() == i,
                forall|j: int| 0 <= j < i ==> data@[j] == fp_mul(self.data@[j], other.data@[j]),
        {
            data.push(mul_bits(self.data[i], other.data[i]));
        }
        proof {
            assert(data@ =~= seq_zip_mul(self.data@, other.data@));
        }
        Matrix { cols: self.cols, data }
    }

    /// Every entry multiplied by `ratio`.
    pub fn scale(&self, ratio: u64) -> (r: Matrix)
        requires
            self.wf(),
        ensures
            r.wf(),
            r.cols == self.cols,
            r.data@ == seq_scale(self.data@, ratio),
    {
        let n: usize = self.data.len();
        let mut data: Vec<u64> = Vec::new();
        for i in 0..n
            invariant
                n == self.data@.len(),
                data@.len() == i,
                forall|j: int| 0 <= j < i ==> data@[j] == fp_mul(self.data@[j], ratio),
        {
            data.push(mul_bits(self.data[i], ratio));
        }
        proof {
            assert(data@ =~= seq_scale(self.data@, ratio));
        }
        Matrix { cols: self.cols, data }
    }

    /// Row-column swap: the entry at row `r`, column `c` moves to row `c`,
    /// column `r`.
    pub fn transpose(&self) -> (t: Matrix)
        requires
            self.wf(),
        ensures
            t.wf(),
            t.cols as int == self.spec_rows(),
            t.data@ == transpose_seq(self.cols as int, self.data@),
            forall|r: int, c: int|
                0 <= r < self.spec_rows() && 0 <= c < self.cols ==> t.entry(c, r) == self.entry(
                    r,
                    c,
                ),
    {
        let n: usize = self.data.len();
        let rows: usize = self.data.len() / self.cols;
        proof {
            assert(rows * (self.cols as int) == n && rows >= 1) by (nonlinear_arith)
                requires
                    self.cols >= 1,
                    n == self.data@.len(),
                    rows == self.data@.len() as int / (self.cols as int),
                    self.data@.len() as int % (self.cols as int) == 0,
                    self.data@.len() >= self.cols,
            ;
        }
        let mut data: Vec<u64> = Vec::new();
        for j in 0..n
            invariant
                n == self.data@.len(),
                rows == self.spec_rows(),
                rows >= 1,
                rows * (self.cols as int) == n,
                self.wf(),
                data@.len() == j,
                forall|i: int| 0 <= i < j
                    ==> data@[i] == self.data@[(i % (rows as int)) * (self.cols as int) + i / (
                    rows as int)],
        {
            let r: usize = j % rows;
            let c: usize = j / rows;
            proof {
                assert(r * (self.cols as int) + c < n && c < self.cols) by (nonlinear_arith)
                    requires
                        rows >= 1,
                        self.cols >= 1,
                        rows * (self.cols as int) == n,
                        r == j as int % (rows as int),
                        c == j as int / (rows as int),
                        0 <= j < n,
                ;
            }
            data.push(self.data[r * self.cols + c]);
        }
        proof {
            assert(n as int % (rows as int) == 0 && rows <= n) by (nonlinear_arith)
                requires
                    rows >= 1,
                    self.cols >= 1,
                    rows * (self.cols as int) == n,
            ;
            assert(data@ =~= transpose_seq(self.cols as int, self.data@));
            assert forall|r: int, c: int|
                0 <= r < self.spec_rows() && 0 <= c
                    < self.cols implies data@[c * (rows as int) + r] == self.entry(r, c) by {
                let j = c * (rows as int) + r;
                assert(0 <= j < n && j % (rows as int) == r && j / (rows as int) == c)
                    by (nonlinear_arith)
                    requires
                        rows >= 1,
                        self.cols >= 1,
                        rows * (self.cols as int) == n,
                        0 <= r < rows,
                        0 <= c < self.cols,
                        j == c * (rows as int) + r,
                ;
            }
        }
        Matrix { cols: rows, data }
    }

    /// The matrix product: row-by-column dot products, accumulated left to
    /// right. The inner dimensions must agree.
    pub fn mul(&self, other: &Matrix) -> (r: Matrix)
        requires
            self.wf(),
            other.wf(),
            self.cols as int == other.spec_rows(),
            self.spec_rows() * (other.cols as int) <= usize::MAX,
        ensures
            r.wf(),
            r.cols == other.cols,
            r.data@.len() == self.spec_rows() * (other.cols as int),
            forall|i: int, j: int|
                0 <= i < self.spec_rows() && 0 <= j < other.cols ==> r.data@[i * (
                other.cols as int) + j] == dot_seq(self.row_seq(i), other.col_seq(j)),
    {
        let rows: usize = self.data.len() / self.cols;
        let orows: usize = other.data.len() / other.cols;
        let ocols: usize = other.cols;
        proof {
            assert(rows * (self.cols as int) == self.data@.len() && rows >= 1 && orows * (
            ocols as int) == other.data@.len() && orows >= 1) by (nonlinear_arith)
                requires
                    self.wf(),
                    other.wf(),
                    rows == self.data@.len() as int / (self.cols as int),
                    orows == other.data@.len() as int / (other.cols as int),
                    ocols == other.cols,
            ;
        }
        let mut data: Vec<u64> = Vec::new();
        let mut i: usize = 0;
        while i < rows
            invariant
                self.wf(),
                other.wf(),
                self.cols as int == other.spec_rows(),
                rows == self.spec_rows(),
                orows == other.spec_rows(),
                ocols == other.cols,
                rows * (self.cols as int) == self.data@.len(),
                orows * (ocols as int) == other.data@.len(),
                rows * (ocols as int) <= usize::MAX,
                self.data@.len() <= usize::MAX,
                other.data@.len() <= usize::MAX,
                0 <= i <= rows,
                data@.len() == i * (ocols as int),
                forall|a: int, b: int|
                    0 <= a < i && 0 <= b < ocols ==> data@[a * (ocols as int) + b] == dot_seq(
                        self.row_seq(a),
                        other.col_seq(b),
                    ),
            decreases rows - i,
        {
            proof {
                assert((i + 1) * (ocols as int) <= rows * (ocols as int) && i * (ocols as int) >= 0
                    && (i + 1) * (ocols as int) == i * (ocols as int) + ocols) by (nonlinear_arith)
                    requires
                        0 <= i < rows,
                        ocols >= 1,
                ;
            }
            let mut j: usize = 0;
            while j < ocols
                invariant
                    self.wf(),
                    other.wf(),
                    self.cols as int == other.spec_rows(),
                    rows == self.spec_rows(),
                    orows == other.spec_rows(),
                    ocols == other.cols,
                    rows * (self.cols as int) == self.data@.len(),
                    orows * (ocols as int) == other.data@.len(),
                    rows * (ocols as int) <= usize::MAX,
                    self.data@.len() <= usize::MAX,
                    other.data@.len() <= usize::MAX,
                    0 <= i < rows,
                    0 <= j <= ocols,
                    (i + 1) * (ocols as int) <= rows * (ocols as int),
                    (i + 1) * (ocols as int) == i * (ocols as int) + ocols,
                    data@.len() == i * (ocols as int) + j,
                    forall|a: int, b: int|
                        0 <= a < i && 0 <= b < ocols ==> data@[a * (ocols as int) + b] == dot_seq(
                            self.row_seq(a),
                            other.col_seq(b),
                        ),
                    forall|b: int|
                        0 <= b < j ==> data@[i * (ocols as int) + b] == dot_seq(
                            self.row_seq(i as int),
                            other.col_seq(b),
                        ),
                decreases ocols - j,
            {
                let inner: usize = self.cols;
                proof {
                    assert(0 <= i * (inner as int) && (i + 1) * (inner as int)
                        <= self.data@.len() && (i + 1) * (inner as int) == i * (inner as int)
                        + inner) by (nonlinear_arith)
                        requires
                            rows * (inner as int) == self.data@.len(),
                            0 <= i < rows,
                            inner >= 1,
                    ;
                }
                let mut acc: u64 = B_ZERO;
                let mut k: usize = 0;
                while k < inner
                    invariant
                        self.wf(),
                        other.wf(),
                        self.cols as int == other.spec_rows(),
                        rows == self.spec_rows(),
                        orows == other.spec_rows(),
                        ocols == other.cols,
                        inner == self.cols,
                        rows * (self.cols as int) == self.data@.len(),
                        orows * (ocols as int) == other.data@.len(),
                        self.data@.len() <= usize::MAX,
                        other.data@.len() <= usize::MAX,
                        0 <= i < rows,
                        0 <= j < ocols,
                        0 <= k <= inner,
                        0 <= i * (inner as int),
                        i * (inner as int) + inner <= self.data@.len(),
                        acc == dot_prefix(self.row_seq(i as int), other.col_seq(j as int), k as int),
                    decreases inner - k,
                {
                    proof {
                        assert(k * (ocols as int) + j < other.data@.len() && k * (ocols as int)
                            >= 0) by (nonlinear_arith)
                            requires
                                orows * (ocols as int) == other.data@.len(),
                                inner as int == orows,
                                0 <= j < ocols,
                                0 <= k < inner,
                        ;
                        assert(self.row_seq(i as int)[k as int] == self.data@[i * (inner as int)
                            + k]);
                        assert(other.col_seq(j as int)[k as int] == other.data@[k * (ocols as int)
                            + j]);
                    }
                    acc = add_bits(
                        acc,
                        mul_bits(self.data[i * inner + k], other.data[k * ocols + j]),
                    );
                    k = k + 1;
                }
                proof {
                    assert(self.row_seq(i as int).len() == inner);
                    assert(acc == dot_seq(self.row_seq(i as int), other.col_seq(j as int)));
                }
                data.push(acc);
                proof {
                    assert forall|a: int, b: int|
                        0 <= a < i && 0 <= b < ocols implies data@[a * (ocols as int) + b]
                        == dot_seq(self.row_seq(a), other.col_seq(b)) by {
                        assert(0 <= a * (ocols as int) + b < i * (ocols as int))
                            by (nonlinear_arith)
                            requires
                                0 <= a < i,
                                0 <= b < ocols,
                                ocols >= 1,
                        ;
                    }
                }
                j = j + 1;
            }
            proof {
                assert forall|a: int, b: int|
                    0 <= a < i + 1 && 0 <= b < ocols implies data@[a * (ocols as int) + b]
                    == dot_seq(self.row_seq(a), other.col_seq(b)) by {
                    if a == i {
                        assert(a * (ocols as int) + b == i * (ocols as int) + b);
                    }
                }
            }
            i = i + 1;
        }
        proof {
            assert(data@.len() == rows * (ocols as int));
            assert((rows * (ocols as int)) % (ocols as int) == 0 && rows * (ocols as int)
                >= ocols) by (nonlinear_arith)
                requires
                    rows >= 1,
                    ocols >= 1,
            ;
        }
        Matrix { cols: ocols, data }
    }

    /// A matrix of the given shape filled row by row with draws from the
    /// given generator.
    pub fn rnd(rows: usize, cols: usize, rng: &mut WeightRng) -> (m: Matrix)
        requires
            1 <= rows,
            1 <= cols,
            rows * cols <= usize::MAX,
        ensures
            m.wf(),
            m.cols == cols,
            m.data@.len() == rows * cols,
            m.data@ == weight_seq(old(rng).state, (rows * cols) as nat),
            final(rng).state == rng_state_after(old(rng).state, (rows * cols) as nat),
    {
        proof {
            assert(rows * cols >= cols && rows * cols >= rows) by (nonlinear_arith)
                requires
                    rows >= 1,
                    cols >= 1,
            ;
        }
        let n: usize = rows * cols;
        let mut data: Vec<u64> = Vec::new();
        for i in 0..n
            invariant
                n == rows * cols,
                data@.len() == i,
                data@ == weight_seq(old(rng).state, i as nat),
                rng.state == rng_state_after(old(rng).state, i as nat),
        {
            let w: u64 = rng.next_weight();
            data.push(w);
        }
        proof {
            assert((rows * cols) % (cols as int) == 0) by (nonlinear_arith)
                requires
                    cols >= 1,
            ;
        }
        Matrix { cols, data }
    }
}

/// Transposing twice gives back the original buffer: the transpose law of
/// the matrix algebra.
pub proof fn lemma_transpose_involution(cols: int, data: Seq<u64>)
    requires
        1 <= cols <= data.len(),
        data.len() as int % cols == 0,
    ensures
        transpose_seq(data.len() as int / cols, transpose_seq(cols, data)) == data,
{
    let rows = data.len() as int / cols;
    let t = transpose_seq(cols, data);
    let tt = transpose_seq(rows, t);
    assert(rows * cols == data.len() && rows >= 1) by (nonlinear_arith)
        requires
            1 <= cols <= data.len(),
            data.len() as int % cols == 0,
            rows == data.len() as int / cols,
    ;
    assert(t.len() == data.len());
    assert(t.len() as int / rows == cols) by (nonlinear_arith)
        requires
            rows * cols == t.len(),
            rows >= 1,
            cols >= 1,
    ;
    assert forall|j: int| 0 <= j < data.len() implies tt[j] == data[j] by {
        let r = j % cols;
        let c = j / cols;
        let i = r * rows + c;
        assert(0 <= r < cols && 0 <= c < rows && 0 <= i < data.len() && i % rows == c && i / rows
            == r && (j % rows as int * 1 == j % rows * 1)) by (nonlinear_arith)
            requires
                rows * cols == data.len(),
                rows >= 1,
                cols >= 1,
                0 <= j < data.len(),
                r == j % cols,
                c == j / cols,
                i == r * rows + c,
        ;
        assert(tt[j] == t[(j % cols) * rows + j / cols]);
        assert(t[i] == data[(i % rows) * cols + i / rows]);
        assert((i % rows) * cols + i / rows == c * cols + r == j) by (nonlinear_arith)
            requires
                i % rows == c,
                i / rows == r,
                r == j % cols,
                c == j / cols,
                cols >= 1,
                0 <= j,
        ;
    }
    assert(tt =~= data);
}

} // verus!
