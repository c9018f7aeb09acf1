//! Activation functions and their derivatives.
use crate::scalar::{one, zero, Scalar};
use crate::tensor::{lemma_index_before, lemma_is_build, Matrix, Tensor};
use vstd::prelude::*;

verus! {

/// The rectified linear unit: `v` where `v > 0`, zero elsewhere.
pub open spec fn relu_value<S: Scalar>(v: S) -> S {
    if v.gt_spec(zero::<S>()) {
        v
    } else {
        zero::<S>()
    }
}

/// The derivative of the rectified linear unit: one where `v > 0`, zero
/// elsewhere.
pub open spec fn relu_slope<S: Scalar>(v: S) -> S {
    if v.gt_spec(zero::<S>()) {
        one::<S>()
    } else {
        zero::<S>()
    }
}

/// The logistic function `1 / (1 + e^(-v))`.
pub open spec fn sigmoid_value<S: Scalar>(v: S) -> S {
    one::<S>().div_spec(one::<S>().add_spec(v.neg_spec().exp_spec()))
}

/// The derivative of the logistic function, from its output `s`: `s * (1 - s)`.
pub open spec fn sigmoid_slope<S: Scalar>(s: S) -> S {
    s.mul_spec(one::<S>().sub_spec(s))
}

/// The derivative of the hyperbolic tangent, from its output `t`: `1 - t * t`.
pub open spec fn tanh_slope<S: Scalar>(t: S) -> S {
    one::<S>().sub_spec(t.mul_spec(t))
}

/// The running maximum of the first `n` entries of row `i`, starting from
/// the lowest scalar.
pub open spec fn row_max<S: Scalar>(m: Matrix<S>, i: int, n: nat) -> S
    decreases n,
{
    if n == 0 {
        S::lowest_spec()
    } else {
        row_max(m, i, (n - 1) as nat).max_spec(m.at(i, n - 1))
    }
}

/// The exponential of entry `(i, j)` after the maximum of its row has been
/// subtracted.
pub open spec fn shifted_exp<S: Scalar>(m: Matrix<S>, i: int, j: int) -> S {
    m.at(i, j).sub_spec(row_max(m, i, m.cols)).exp_spec()
}

/// The sum of the shifted exponentials of the first `n` entries of row `i`,
/// accumulated from zero in increasing order of the column.
pub open spec fn row_exp_sum<S: Scalar>(m: Matrix<S>, i: int, n: nat) -> S
    decreases n,
{
    if n == 0 {
        zero::<S>()
    } else {
        row_exp_sum(m, i, (n - 1) as nat).add_spec(shifted_exp(m, i, n - 1))
    }
}

/// The entry `(i, j)` of the row-wise softmax of `m`.
pub open spec fn softmax_value<S: Scalar>(m: Matrix<S>, i: int, j: int) -> S {
    shifted_exp(m, i, j).div_spec(row_exp_sum(m, i, m.cols))
}

/// The row-wise softmax of `m`.
pub open spec fn softmax_of<S: Scalar>(m: Matrix<S>) -> Matrix<S> {
    Matrix::build(m.rows, m.cols, |i: int, j: int| softmax_value(m, i, j))
}

/// Applies the rectified linear unit to every entry.
pub fn relu<S: Scalar>(x: &Tensor<S>) -> (out: Tensor<S>)
    requires
        x.wf(),
    ensures
        out@ == x@.map_values(|v: S| relu_value(v)),
        out.wf(),
{
    let f = |v: S| -> (r: S)
        ensures
            r == relu_value(v),
        {
            if v.gt(S::from_count(0)) {
                v
            } else {
                S::from_count(0)
            }
        };
    let out = x.map(f);
    assert(out@.data =~= x@.map_values(|v: S| relu_value(v)).data);
    out
}

/// The derivative of the rectified linear unit at every entry of `x`.
pub fn relu_grad<S: Scalar>(x: &Tensor<S>) -> (out: Tensor<S>)
    requires
        x.wf(),
    ensures
        out@ == x@.map_values(|v: S| relu_slope(v)),
        out.wf(),
{
    let f = |v: S| -> (r: S)
        ensures
            r == relu_slope(v),
        {
            if v.gt(S::from_count(0)) {
                S::from_count(1)
            } else {
                S::from_count(0)
            }
        };
    let out = x.map(f);
    assert(out@.data =~= x@.map_values(|v: S| relu_slope(v)).data);
    out
}

/// Applies the logistic function to every entry.
pub fn sigmoid<S: Scalar>(x: &Tensor<S>) -> (out: Tensor<S>)
    requires
        x.wf(),
    ensures
        out@ == x@.map_values(|v: S| sigmoid_value(v)),
        out.wf(),
{
    let f = |v: S| -> (r: S)
        ensures
            r == sigmoid_value(v),
        { S::from_count(1).div(S::from_count(1).add(v.neg().exp())) };
    let out = x.map(f);
    assert(out@.data =~= x@.map_values(|v: S| sigmoid_value(v)).data);
    out
}

/// The derivative of the logistic function, computed from its output.
pub fn sigmoid_grad_from_out<S: Scalar>(sig_out: &Tensor<S>) -> (out: Tensor<S>)
    requires
        sig_out.wf(),
    ensures
        out@ == sig_out@.map_values(|s: S| sigmoid_slope(s)),
        out.wf(),
{
    let f = |s: S| -> (r: S)
        ensures
            r == sigmoid_slope(s),
        { s.mul(S::from_count(1).sub(s)) };
    let out = sig_out.map(f);
    assert(out@.data =~= sig_out@.map_values(|s: S| sigmoid_slope(s)).data);
    out
}

/// Applies the hyperbolic tangent to every entry.
pub fn tanh<S: Scalar>(x: &Tensor<S>) -> (out: Tensor<S>)
    requires
        x.wf(),
    ensures
        out@ == x@.map_values(|v: S| v.tanh_spec()),
        out.wf(),
{
    let f = |v: S| -> (r: S)
        ensures
            r == v.tanh_spec(),
        { v.tanh() };
    let out = x.map(f);
    assert(out@.data =~= x@.map_values(|v: S| v.tanh_spec()).data);
    out
}

/// The derivative of the hyperbolic tangent, computed from its output.
pub fn tanh_grad_from_out<S: Scalar>(tanh_out: &Tensor<S>) -> (out: Tensor<S>)
    requires
        tanh_out.wf(),
    ensures
        out@ == tanh_out@.map_values(|t: S| tanh_slope(t)),
        out.wf(),
{
    let f = |t: S| -> (r: S)
        ensures
            r == tanh_slope(t),
        { S::from_count(1).sub(t.mul(t)) };
    let out = tanh_out.map(f);
    assert(out@.data =~= tanh_out@.map_values(|t: S| tanh_slope(t)).data);
    out
}

/// Applies softmax to each row: the row maximum is subtracted before
/// exponentiating, and the exponentials are divided by their sum.
pub fn softmax<S: Scalar>(x: &Tensor<S>) -> (out: Tensor<S>)
    requires
        x.wf(),
    ensures
        out@ == softmax_of(x@),
        out.wf(),
{
    let rows = x.rows;
    let cols = x.cols;
    let mut data: Vec<S> = Vec::new();
    let mut i: usize = 0;
    while i < rows
        invariant
            i <= rows,
            rows == x.rows,
            cols == x.cols,
            x.wf(),
            data.len() == i * cols,
            forall|r: int, c: int|
                0 <= r < i && 0 <= c < cols ==> #[trigger] data@[r * cols + c] == softmax_value(
                    x@,
                    r,
                    c,
                ),
        decreases rows - i,
    {
        let mut max = S::lowest();
        let mut j: usize = 0;
        while j < cols
            invariant
                j <= cols,
                i < rows,
                rows == x.rows,
                cols == x.cols,
                x.wf(),
                max == row_max(x@, i as int, j as nat),
            decreases cols - j,
        {
            max = max.max(x.get(i, j));
            j += 1;
        }
        let mut exps: Vec<S> = Vec::new();
        let mut sum = S::from_count(0);
        let mut j: usize = 0;
        while j < cols
            invariant
                j <= cols,
                i < rows,
                rows == x.rows,
                cols == x.cols,
                x.wf(),
                max == row_max(x@, i as int, cols as nat),
                exps.len() == j,
                forall|c: int| 0 <= c < j ==> #[trigger] exps@[c] == shifted_exp(x@, i as int, c),
                sum == row_exp_sum(x@, i as int, j as nat),
            decreases cols - j,
        {
            let v = x.get(i, j).sub(max).exp();
            exps.push(v);
            sum = sum.add(v);
            j += 1;
        }
        let mut j: usize = 0;
        while j < cols
            invariant
                j <= cols,
                i < rows,
                rows == x.rows,
                cols == x.cols,
                x.wf(),
                exps.len() == cols,
                forall|c: int|
                    0 <= c < cols ==> #[trigger] exps@[c] == shifted_exp(x@, i as int, c),
                sum == row_exp_sum(x@, i as int, cols as nat),
                data.len() == i * cols + j,
                forall|r: int, c: int|
                    (0 <= r < i && 0 <= c < cols) || (r == i && 0 <= c < j) ==> #[trigger] data@[r
                        * cols + c] == softmax_value(x@, r, c),
            decreases cols - j,
        {
            let ghost before = data@;
            data.push(exps[j].div(sum));
            proof {
                assert forall|r: int, c: int|
                    (0 <= r < i && 0 <= c < cols) || (r == i && 0 <= c < j + 1)
                    implies #[trigger] data@[r * cols + c] == softmax_value(x@, r, c) by {
                    if r == i && c == j {
                    } else {
                        lemma_index_before(i as int, j as int, cols as int, r, c);
                        assert(data@[r * cols + c] == before[r * cols + c]);
                    }
                }
            }
            j += 1;
        }
        proof {
            assert((i + 1) * cols == i * cols + cols) by (nonlinear_arith);
        }
        i += 1;
    }
    let out = Tensor { data, rows, cols };
    proof {
        lemma_is_build(out@, |i: int, j: int| softmax_value(x@, i, j));
    }
    out
}

} // verus!
