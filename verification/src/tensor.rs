//! The dense two-dimensional tensor and its mathematical model.
use crate::errors::{is_shape_mismatch, NeuroxError, NeuroxResult};
use crate::scalar::{zero, Scalar};
use crate::text::{decimal, decimal_spec};
use vstd::arithmetic::div_mod::*;
use vstd::arithmetic::mul::*;
use vstd::pervasive::runtime_assert;
use vstd::prelude::*;
use vstd::string::StringExecFns;

verus! {

/// The mathematical value of a tensor: its dimensions and its entries as one
/// sequence in row-major order.
pub struct Matrix<S> {
    pub rows: nat,
    pub cols: nat,
    pub data: Seq<S>,
}

impl<S: Scalar> Matrix<S> {
    /// The buffer holds exactly `rows * cols` entries.
    pub open spec fn wf(self) -> bool {
        self.data.len() == self.rows * self.cols
    }

    /// The entry in row `r` and column `c`.
    pub open spec fn at(self, r: int, c: int) -> S {
        self.data[r * self.cols + c]
    }

    /// The matrix of the given dimensions whose entry at `(r, c)` is `f(r, c)`.
    pub open spec fn build(rows: nat, cols: nat, f: spec_fn(int, int) -> S) -> Self {
        Matrix {
            rows,
            cols,
            data: Seq::new(rows * cols, |k: int| f(k / (cols as int), k % (cols as int))),
        }
    }

    /// The matrix of the given dimensions filled with zero.
    pub open spec fn zeros(rows: nat, cols: nat) -> Self {
        Self::build(rows, cols, |r: int, c: int| zero::<S>())
    }

    /// Every entry lies in the range samples are drawn from.
    pub open spec fn sampled(self) -> bool {
        forall|k: int| 0 <= k < self.data.len() ==> (#[trigger] self.data[k]).in_sample_range()
    }

    /// This matrix with the entry at `(r, c)` replaced by `v`.
    pub open spec fn set(self, r: int, c: int, v: S) -> Self {
        Matrix { rows: self.rows, cols: self.cols, data: self.data.update(r * self.cols + c, v) }
    }

    /// This matrix with `f` applied to every entry.
    pub open spec fn map_values(self, f: spec_fn(S) -> S) -> Self {
        Matrix { rows: self.rows, cols: self.cols, data: self.data.map_values(f) }
    }

    /// This matrix with the single row `bias` added to each of its rows.
    pub open spec fn add_row(self, bias: Self) -> Self {
        Self::build(self.rows, self.cols, |r: int, c: int| self.at(r, c).add_spec(bias.at(0, c)))
    }

    /// The transpose: entry `(r, c)` of the result is entry `(c, r)` of `self`.
    pub open spec fn transpose(self) -> Self {
        Self::build(self.cols, self.rows, |r: int, c: int| self.at(c, r))
    }

    /// This matrix combined with `other` entry by entry through `f`.
    pub open spec fn zip_with(self, other: Self, f: spec_fn(S, S) -> S) -> Self {
        Matrix {
            rows: self.rows,
            cols: self.cols,
            data: Seq::new(self.data.len(), |k: int| f(self.data[k], other.data[k])),
        }
    }

    /// The sum of the first `n` products `self[i][t] * other[t][j]`,
    /// accumulated from zero in increasing order of `t`.
    pub open spec fn dot(self, other: Self, i: int, j: int, n: nat) -> S
        decreases n,
    {
        if n == 0 {
            zero::<S>()
        } else {
            self.dot(other, i, j, (n - 1) as nat).add_spec(
                self.at(i, n - 1).mul_spec(other.at(n - 1, j)),
            )
        }
    }

    /// The matrix product `self * other`.
    pub open spec fn matmul(self, other: Self) -> Self {
        Self::build(self.rows, other.cols, |i: int, j: int| self.dot(other, i, j, self.cols))
    }

    /// The sum of the first `n` entries of column `j`, accumulated from zero
    /// in increasing order of the row.
    pub open spec fn col_sum(self, j: int, n: nat) -> S
        decreases n,
    {
        if n == 0 {
            zero::<S>()
        } else {
            self.col_sum(j, (n - 1) as nat).add_spec(self.at(n - 1, j))
        }
    }

    /// The single row that holds the sum of each column.
    pub open spec fn col_sums(self) -> Self {
        Self::build(1, self.cols, |r: int, c: int| self.col_sum(c, self.rows))
    }

    /// The first `n` entries of row `i` written out, separated by commas.
    pub open spec fn entries_text(self, i: int, n: nat) -> Seq<char>
        decreases n,
    {
        if n == 0 {
            Seq::empty()
        } else if n == 1 {
            self.at(i, 0).show_spec()@
        } else {
            self.entries_text(i, (n - 1) as nat) + ", "@ + self.at(i, n - 1).show_spec()@
        }
    }

    /// Row `i` written out in brackets: at most six entries, then an
    /// ellipsis if there are more.
    pub open spec fn row_text(self, i: int) -> Seq<char> {
        "["@ + self.entries_text(
            i,
            if self.cols < 6 {
                self.cols
            } else {
                6
            },
        ) + (if self.cols > 6 {
            ", ..."@
        } else {
            Seq::empty()
        }) + "]"@
    }

    /// The first `n` rows written out, separated by commas.
    pub open spec fn rows_text(self, n: nat) -> Seq<char>
        decreases n,
    {
        if n == 0 {
            Seq::empty()
        } else if n == 1 {
            self.row_text(0)
        } else {
            self.rows_text((n - 1) as nat) + ", "@ + self.row_text(n - 1)
        }
    }

    /// The matrix written out for a reader: the shape, then at most three
    /// rows, then an ellipsis if there are more.
    pub open spec fn text(self) -> Seq<char> {
        "Tensor("@ + decimal_spec(self.rows) + ", "@ + decimal_spec(self.cols) + ") ["@
            + self.rows_text(
            if self.rows < 3 {
                self.rows
            } else {
                3
            },
        ) + (if self.rows > 3 {
            ", ..."@
        } else {
            Seq::empty()
        }) + "]"@
    }

    /// The rows `start..end` of this matrix.
    pub open spec fn slice_rows(self, start: int, end: int) -> Self {
        Self::build((end - start) as nat, self.cols, |r: int, c: int| self.at(start + r, c))
    }
}

/// A position inside the matrix maps to one slot of the buffer, and the
/// slot determines the position.
pub proof fn lemma_index_in_range(rows: nat, cols: nat, r: int, c: int)
    requires
        0 <= r < rows,
        0 <= c < cols,
    ensures
        0 <= r * cols + c < rows * cols,
        (r * cols + c) / (cols as int) == r,
        (r * cols + c) % (cols as int) == c,
{
    lemma_fundamental_div_mod_converse(r * cols + c, cols as int, r, c);
    assert(r * cols + c < rows * cols) by (nonlinear_arith)
        requires
            0 <= r < rows,
            0 <= c < cols,
    ;
    assert(0 <= r * cols + c) by (nonlinear_arith)
        requires
            0 <= r,
            0 <= c < cols,
    ;
}

/// Every slot of the buffer belongs to exactly one position of the matrix.
pub proof fn lemma_index_split(rows: nat, cols: nat, k: int)
    requires
        0 <= k < rows * cols,
    ensures
        cols > 0,
        0 <= k / (cols as int) < rows,
        0 <= k % (cols as int) < cols,
        (k / (cols as int)) * cols + k % (cols as int) == k,
{
    assert(cols > 0) by (nonlinear_arith)
        requires
            0 <= k < rows * cols,
    ;
    let d = cols as int;
    lemma_fundamental_div_mod(k, d);
    lemma_mod_bound(k, d);
    let q = k / d;
    assert(0 <= q < rows) by (nonlinear_arith)
        requires
            0 <= k < rows * d,
            k == d * q + k % d,
            0 <= k % d < d,
    ;
    assert(q * d == d * q) by (nonlinear_arith);
}

/// A position that comes before `(r, c)` in row-major order has a smaller slot.
pub proof fn lemma_index_before(r: int, c: int, cols: int, i: int, j: int)
    requires
        0 <= c <= cols,
        0 <= j < cols,
        0 <= i,
        i < r || (i == r && j < c),
    ensures
        0 <= i * cols + j < r * cols + c,
{
    assert(0 <= i * cols + j < r * cols + c) by (nonlinear_arith)
        requires
            0 <= c <= cols,
            0 <= j < cols,
            0 <= i,
            i < r || (i == r && j < c),
    ;
}

/// Reading a built matrix at a position gives the builder's value there.
pub proof fn lemma_build_at<S: Scalar>(
    rows: nat,
    cols: nat,
    f: spec_fn(int, int) -> S,
    r: int,
    c: int,
)
    requires
        0 <= r < rows,
        0 <= c < cols,
    ensures
        Matrix::build(rows, cols, f).at(r, c) == f(r, c),
{
    lemma_index_in_range(rows, cols, r, c);
}

/// Two well-formed matrices of the same dimensions that agree at every
/// position are equal.
pub proof fn lemma_matrix_ext<S: Scalar>(a: Matrix<S>, b: Matrix<S>)
    requires
        a.wf(),
        b.wf(),
        a.rows == b.rows,
        a.cols == b.cols,
        forall|r: int, c: int| 0 <= r < a.rows && 0 <= c < a.cols ==> a.at(r, c) == b.at(r, c),
    ensures
        a == b,
{
    assert forall|k: int| 0 <= k < a.data.len() implies a.data[k] == b.data[k] by {
        lemma_index_split(a.rows, a.cols, k);
        let r = k / (a.cols as int);
        let c = k % (a.cols as int);
        assert(a.at(r, c) == b.at(r, c));
    }
    assert(a.data =~= b.data);
}

/// A well-formed matrix whose entry at every position `(r, c)` is `g(r, c)`
/// is the matrix built from `g`.
pub proof fn lemma_is_build<S: Scalar>(m: Matrix<S>, g: spec_fn(int, int) -> S)
    requires
        m.wf(),
        forall|r: int, c: int| 0 <= r < m.rows && 0 <= c < m.cols ==> m.at(r, c) == g(r, c),
    ensures
        m == Matrix::build(m.rows, m.cols, g),
{
    let b = Matrix::build(m.rows, m.cols, g);
    assert forall|r: int, c: int| 0 <= r < m.rows && 0 <= c < m.cols implies m.at(r, c) == b.at(
        r,
        c,
    ) by {
        lemma_build_at(m.rows, m.cols, g, r, c);
    }
    lemma_matrix_ext(m, b);
}

/// All the rows of a matrix, taken as a slice, are the matrix itself.
pub proof fn lemma_slice_of_all_rows<S: Scalar>(m: Matrix<S>)
    requires
        m.wf(),
    ensures
        m.slice_rows(0, m.rows as int) == m,
{
    lemma_is_build(m, |r: int, c: int| m.at(0 + r, c));
}

/// Transposing twice gives the matrix back, entry for entry.
pub proof fn lemma_transpose_involution<S: Scalar>(m: Matrix<S>)
    requires
        m.wf(),
    ensures
        m.transpose().transpose() == m,
{
    let t = m.transpose();
    let tt = t.transpose();
    assert(m.cols * m.rows == m.rows * m.cols) by (nonlinear_arith);
    assert forall|r: int, c: int| 0 <= r < m.rows && 0 <= c < m.cols implies tt.at(r, c) == m.at(
        r,
        c,
    ) by {
        lemma_build_at(t.cols, t.rows, |r: int, c: int| t.at(c, r), r, c);
        lemma_build_at(m.cols, m.rows, |r: int, c: int| m.at(c, r), c, r);
    }
    lemma_matrix_ext(tt, m);
}

/// A dense two-dimensional tensor: `rows * cols` scalars in row-major order.
pub struct Tensor<S> {
    pub data: Vec<S>,
    pub rows: usize,
    pub cols: usize,
}

impl<S: Scalar> View for Tensor<S> {
    type V = Matrix<S>;

    open spec fn view(&self) -> Matrix<S> {
        Matrix { rows: self.rows as nat, cols: self.cols as nat, data: self.data@ }
    }
}

/// The mathematical value of a tensor that may be absent.
pub open spec fn view_of<S: Scalar>(t: Option<Tensor<S>>) -> Option<Matrix<S>> {
    match t {
        Some(t) => Some(t@),
        None => None,
    }
}

/// The contents of a list of buffers.
pub open spec fn buffers<A>(v: Vec<Vec<A>>) -> Seq<Seq<A>> {
    Seq::new(v@.len(), |i: int| v@[i]@)
}

/// A buffer of `n` copies of `v`.
pub(crate) fn filled<S: Scalar>(n: usize, v: S) -> (out: Vec<S>)
    ensures
        out@ == Seq::new(n as nat, |k: int| v),
{
    let mut out: Vec<S> = Vec::new();
    let mut k: usize = 0;
    while k < n
        invariant
            k <= n,
            out@ == Seq::new(k as nat, |i: int| v),
        decreases n - k,
    {
        out.push(v);
        k += 1;
        assert(out@ =~= Seq::new(k as nat, |i: int| v));
    }
    out
}

impl<S: Scalar> Tensor<S> {
    /// The buffer length matches the dimensions.
    pub open spec fn wf(&self) -> bool {
        self@.wf()
    }

    /// Creates a `rows` x `cols` tensor filled with zero.
    pub fn new(rows: usize, cols: usize) -> (t: Self)
        requires
            rows * cols <= usize::MAX,
        ensures
            t@ == Matrix::<S>::zeros(rows as nat, cols as nat),
            t.wf(),
    {
        let data = filled(rows * cols, S::from_count(0));
        let t = Tensor { data, rows, cols };
        assert(t@.data =~= Matrix::<S>::zeros(rows as nat, cols as nat).data);
        t
    }

    /// Creates a tensor from a buffer in row-major order, whose length must
    /// be `rows * cols`.
    pub fn from_data(data: Vec<S>, rows: usize, cols: usize) -> (t: Self)
        requires
            data.len() == rows * cols,
        ensures
            t@ == (Matrix { rows: rows as nat, cols: cols as nat, data: data@ }),
            t.data == data,
            t.wf(),
    {
        runtime_assert(data.len() == rows * cols);
        Tensor { data, rows, cols }
    }

    /// Creates a `rows` x `cols` tensor of independent samples from `[-1, 1)`.
    pub fn random(rows: usize, cols: usize) -> (t: Self)
        requires
            rows * cols <= usize::MAX,
        ensures
            t.rows == rows,
            t.cols == cols,
            t.wf(),
            t@.sampled(),
    {
        let n = rows * cols;
        let mut data: Vec<S> = Vec::new();
        let mut k: usize = 0;
        while k < n
            invariant
                k <= n,
                data.len() == k,
                forall|i: int| 0 <= i < k ==> (#[trigger] data@[i]).in_sample_range(),
            decreases n - k,
        {
            data.push(S::sample());
            k += 1;
        }
        Tensor { data, rows, cols }
    }

    /// Returns the shape as `(rows, cols)`.
    pub fn shape(&self) -> (s: (usize, usize))
        ensures
            s == (self.rows, self.cols),
    {
        (self.rows, self.cols)
    }

    /// The slot of the buffer that holds the entry at `(r, c)`.
    fn index(&self, r: usize, c: usize) -> (k: usize)
        requires
            self.wf(),
            r < self.rows,
            c < self.cols,
        ensures
            k == r * self.cols + c,
            k < self.data.len(),
    {
        proof {
            lemma_index_in_range(self.rows as nat, self.cols as nat, r as int, c as int);
            assert(0 <= r * self.cols) by (nonlinear_arith);
            assert(self.data.len() <= usize::MAX);
            assert(r * self.cols + c < self.rows * self.cols);
        }
        r * self.cols + c
    }

    /// Returns the entry at `(r, c)`.
    pub fn get(&self, r: usize, c: usize) -> (v: S)
        requires
            self.wf(),
            r < self.rows,
            c < self.cols,
        ensures
            v == self@.at(r as int, c as int),
    {
        let k = self.index(r, c);
        self.data[k]
    }

    /// Replaces the entry at `(r, c)` by `v`.
    pub fn set(&mut self, r: usize, c: usize, v: S)
        requires
            old(self).wf(),
            r < old(self).rows,
            c < old(self).cols,
        ensures
            final(self)@ == old(self)@.set(r as int, c as int, v),
            final(self).wf(),
    {
        let k = self.index(r, c);
        self.data.set(k, v);
    }

    /// Creates the `rows` x `cols` tensor whose entry at `(r, c)` is what
    /// `f(r, c)` returns, calling `f` once per entry in row-major order.
    /// `g` names the value that `f` returns at each position.
    pub(crate) fn tabulate<F: Fn(usize, usize) -> S>(
        rows: usize,
        cols: usize,
        f: &F,
        Ghost(g): Ghost<spec_fn(int, int) -> S>,
    ) -> (t: Self)
        requires
            rows * cols <= usize::MAX,
            forall|r: usize, c: usize| r < rows && c < cols ==> call_requires(*f, (r, c)),
            forall|r: usize, c: usize, v: S|
                r < rows && c < cols && call_ensures(*f, (r, c), v) ==> v == g(r as int, c as int),
        ensures
            t@ == Matrix::build(rows as nat, cols as nat, g),
            t.wf(),
    {
        let mut data: Vec<S> = Vec::new();
        let mut r: usize = 0;
        while r < rows
            invariant
                r <= rows,
                rows * cols <= usize::MAX,
                data.len() == r * cols,
                forall|i: usize, j: usize| i < rows && j < cols ==> call_requires(*f, (i, j)),
                forall|i: usize, j: usize, v: S|
                    i < rows && j < cols && call_ensures(*f, (i, j), v) ==> v == g(
                        i as int,
                        j as int,
                    ),
                forall|i: int, j: int|
                    0 <= i < r && 0 <= j < cols ==> #[trigger] data@[i * cols + j] == g(i, j),
            decreases rows - r,
        {
            let mut c: usize = 0;
            while c < cols
                invariant
                    r < rows,
                    c <= cols,
                    rows * cols <= usize::MAX,
                    data.len() == r * cols + c,
                    forall|i: usize, j: usize| i < rows && j < cols ==> call_requires(*f, (i, j)),
                    forall|i: usize, j: usize, v: S|
                        i < rows && j < cols && call_ensures(*f, (i, j), v) ==> v == g(
                            i as int,
                            j as int,
                        ),
                    forall|i: int, j: int|
                        (0 <= i < r && 0 <= j < cols) || (i == r && 0 <= j < c)
                            ==> #[trigger] data@[i * cols + j] == g(i, j),
                decreases cols - c,
            {
                let ghost before = data@;
                let v = f(r, c);
                data.push(v);
                proof {
                    assert forall|i: int, j: int|
                        (0 <= i < r && 0 <= j < cols) || (i == r && 0 <= j < c + 1)
                        implies #[trigger] data@[i * cols + j] == g(i, j) by {
                        if i == r && j == c {
                        } else {
                            lemma_index_before(r as int, c as int, cols as int, i, j);
                            assert(data@[i * cols + j] == before[i * cols + j]);
                        }
                    }
                }
                c += 1;
            }
            proof {
                assert((r + 1) * cols == r * cols + cols) by (nonlinear_arith);
            }
            r += 1;
        }
        let t = Tensor { data, rows, cols };
        proof {
            lemma_is_build(t@, g);
        }
        t
    }

    /// Applies `f` to every entry, giving a new tensor of the same shape.
    pub fn map<F: Fn(S) -> S>(&self, f: F) -> (out: Tensor<S>)
        requires
            self.wf(),
            forall|k: int|
                0 <= k < self.data@.len() ==> call_requires(f, (#[trigger] self.data@[k],)),
        ensures
            out.rows == self.rows,
            out.cols == self.cols,
            out.wf(),
            forall|k: int|
                0 <= k < self.data@.len() ==> call_ensures(
                    f,
                    (self.data@[k],),
                    #[trigger] out.data@[k],
                ),
    {
        let n = self.data.len();
        let mut data: Vec<S> = Vec::new();
        let mut k: usize = 0;
        while k < n
            invariant
                k <= n,
                n == self.data@.len(),
                data.len() == k,
                forall|i: int| 0 <= i < n ==> call_requires(f, (#[trigger] self.data@[i],)),
                forall|i: int|
                    0 <= i < k ==> call_ensures(f, (self.data@[i],), #[trigger] data@[i]),
            decreases n - k,
        {
            let v = f(self.data[k]);
            data.push(v);
            k += 1;
        }
        Tensor { data, rows: self.rows, cols: self.cols }
    }

    /// Combines two tensors of the same shape entry by entry through `f`.
    /// `g` names the value that `f` returns for each pair of entries.
    pub(crate) fn zip_with<F: Fn(S, S) -> S>(
        &self,
        other: &Tensor<S>,
        f: &F,
        Ghost(g): Ghost<spec_fn(S, S) -> S>,
    ) -> (out: Tensor<S>)
        requires
            self.wf(),
            other.wf(),
            self.rows == other.rows,
            self.cols == other.cols,
            forall|a: S, b: S| call_requires(*f, (a, b)),
            forall|a: S, b: S, v: S| call_ensures(*f, (a, b), v) ==> v == g(a, b),
        ensures
            out@ == self@.zip_with(other@, g),
            out.wf(),
    {
        let n = self.data.len();
        let mut data: Vec<S> = Vec::new();
        let mut k: usize = 0;
        while k < n
            invariant
                k <= n,
                n == self.data@.len(),
                n == other.data@.len(),
                data.len() == k,
                forall|a: S, b: S| call_requires(*f, (a, b)),
                forall|a: S, b: S, v: S| call_ensures(*f, (a, b), v) ==> v == g(a, b),
                forall|i: int|
                    0 <= i < k ==> #[trigger] data@[i] == g(self.data@[i], other.data@[i]),
            decreases n - k,
        {
            let v = f(self.data[k], other.data[k]);
            data.push(v);
            k += 1;
        }
        let out = Tensor { data, rows: self.rows, cols: self.cols };
        assert(out@.data =~= self@.zip_with(other@, g).data);
        out
    }

    /// Adds the single row `bias` to every row of this tensor.
    ///
    /// Fails with a shape mismatch unless `bias` is `1` x `self.cols`.
    pub fn add_row_broadcast(&self, bias: &Tensor<S>) -> (res: NeuroxResult<Tensor<S>>)
        requires
            self.wf(),
            bias.wf(),
        ensures
            bias.rows == 1 && bias.cols == self.cols ==> (res matches Ok(out) && out@
                == self@.add_row(bias@) && out.wf()),
            !(bias.rows == 1 && bias.cols == self.cols) ==> is_shape_mismatch(
                res,
                "bias shape must be (1, cols)"@,
            ),
    {
        if bias.rows != 1 || bias.cols != self.cols {
            return Err(NeuroxError::shape_mismatch("bias shape must be (1, cols)"));
        }
        let f = |r: usize, c: usize| -> (v: S)
            requires
                r < self.rows,
                c < self.cols,
            ensures
                v == self@.at(r as int, c as int).add_spec(bias@.at(0, c as int)),
            { self.get(r, c).add(bias.get(0, c)) };
        assert(self.rows * self.cols == self.data.len() <= usize::MAX);
        Ok(
            Self::tabulate(
                self.rows,
                self.cols,
                &f,
                Ghost(|r: int, c: int| self@.at(r, c).add_spec(bias@.at(0, c))),
            ),
        )
    }

    /// Returns the transpose of this tensor.
    pub fn transpose(&self) -> (out: Tensor<S>)
        requires
            self.wf(),
        ensures
            out@ == self@.transpose(),
            out.wf(),
    {
        proof {
            assert(self.cols * self.rows == self.rows * self.cols) by (nonlinear_arith);
            assert(self.rows * self.cols == self.data.len() <= usize::MAX);
        }
        let f = |r: usize, c: usize| -> (v: S)
            requires
                r < self.cols,
                c < self.rows,
            ensures
                v == self@.at(c as int, r as int),
            { self.get(c, r) };
        Self::tabulate(self.cols, self.rows, &f, Ghost(|r: int, c: int| self@.at(c, r)))
    }

    /// Writes row `i` out in brackets, cut after six entries.
    fn row_text(&self, i: usize) -> (text: String)
        requires
            self.wf(),
            i < self.rows,
        ensures
            text@ == self@.row_text(i as int),
    {
        let shown = if self.cols < 6 {
            self.cols
        } else {
            6
        };
        let mut text = "[".to_owned();
        let mut j: usize = 0;
        while j < shown
            invariant
                j <= shown,
                shown <= self.cols,
                self.wf(),
                i < self.rows,
                text@ == "["@ + self@.entries_text(i as int, j as nat),
            decreases shown - j,
        {
            let ghost before = self@.entries_text(i as int, j as nat);
            let entry = self.get(i, j).show();
            if j > 0 {
                text.append(", ");
            }
            text.append(entry.as_str());
            j += 1;
            proof {
                let after = self@.entries_text(i as int, j as nat);
                if j == 1 {
                    assert(before =~= Seq::<char>::empty());
                    assert(text@ =~= "["@ + after);
                } else {
                    assert(after == before + ", "@ + entry@);
                    assert(text@ =~= "["@ + after);
                }
            }
        }
        if self.cols > 6 {
            text.append(", ...");
        } else {
            assert(text@ =~= text@ + Seq::<char>::empty());
        }
        text.append("]");
        text
    }

    /// Writes the tensor out for a reader: the shape, then at most three
    /// rows of at most six entries each, with an ellipsis wherever
    /// something was left out.
    pub fn render(&self) -> (text: String)
        requires
            self.wf(),
        ensures
            text@ == self@.text(),
    {
        let shown = if self.rows < 3 {
            self.rows
        } else {
            3
        };
        let mut text = "Tensor(".to_owned();
        text.append(decimal(self.rows).as_str());
        text.append(", ");
        text.append(decimal(self.cols).as_str());
        text.append(") [");
        let ghost head = text@;
        assert(head =~= "Tensor("@ + decimal_spec(self@.rows) + ", "@ + decimal_spec(self@.cols)
            + ") ["@);
        let mut i: usize = 0;
        while i < shown
            invariant
                i <= shown,
                shown <= self.rows,
                self.wf(),
                text@ == head + self@.rows_text(i as nat),
            decreases shown - i,
        {
            let ghost before = self@.rows_text(i as nat);
            let row = self.row_text(i);
            if i > 0 {
                text.append(", ");
            }
            text.append(row.as_str());
            i += 1;
            proof {
                let after = self@.rows_text(i as nat);
                if i == 1 {
                    assert(before =~= Seq::<char>::empty());
                    assert(text@ =~= head + after);
                } else {
                    assert(after == before + ", "@ + row@);
                    assert(text@ =~= head + after);
                }
            }
        }
        if self.rows > 3 {
            text.append(", ...");
        } else {
            assert(text@ =~= text@ + Seq::<char>::empty());
        }
        text.append("]");
        text
    }

    /// Creates a `rows` x `cols` tensor filled with zero; the same as `new`.
    pub fn zeros(rows: usize, cols: usize) -> (t: Self)
        requires
            rows * cols <= usize::MAX,
        ensures
            t@ == Matrix::<S>::zeros(rows as nat, cols as nat),
            t.wf(),
    {
        Self::new(rows, cols)
    }
}

impl<S: Scalar> Clone for Tensor<S> {
    /// Copies the buffer and the dimensions.
    fn clone(&self) -> (out: Self)
        ensures
            out@ == self@,
    {
        let n = self.data.len();
        let mut data: Vec<S> = Vec::new();
        let mut k: usize = 0;
        while k < n
            invariant
                k <= n,
                n == self.data@.len(),
                data@ == self.data@.take(k as int),
            decreases n - k,
        {
            data.push(self.data[k]);
            k += 1;
            assert(data@ =~= self.data@.take(k as int));
        }
        assert(self.data@.take(n as int) =~= self.data@);
        Tensor { data, rows: self.rows, cols: self.cols }
    }
}

} // verus!
