//! Matrix multiplication and element-wise arithmetic on tensors.
use crate::errors::{is_shape_mismatch, NeuroxError, NeuroxResult};
use crate::scalar::Scalar;
use crate::tensor::Tensor;
use vstd::prelude::*;

verus! {

/// The entry `(i, j)` of the product `a * b`: the products `a[i][t] * b[t][j]`
/// added up from zero in increasing order of `t`.
fn dot<S: Scalar>(a: &Tensor<S>, b: &Tensor<S>, i: usize, j: usize) -> (s: S)
    requires
        a.wf(),
        b.wf(),
        a.cols == b.rows,
        i < a.rows,
        j < b.cols,
    ensures
        s == a@.dot(b@, i as int, j as int, a.cols as nat),
{
    let mut s = S::from_count(0);
    let mut t: usize = 0;
    while t < a.cols
        invariant
            t <= a.cols,
            a.wf(),
            b.wf(),
            a.cols == b.rows,
            i < a.rows,
            j < b.cols,
            s == a@.dot(b@, i as int, j as int, t as nat),
        decreases a.cols - t,
    {
        s = s.add(a.get(i, t).mul(b.get(t, j)));
        t += 1;
    }
    s
}

/// Multiplies an `m` x `k` tensor by a `k` x `n` tensor, giving an `m` x `n`
/// tensor.
///
/// Fails with a shape mismatch unless `a.cols == b.rows`.
pub fn matmul<S: Scalar>(a: &Tensor<S>, b: &Tensor<S>) -> (res: NeuroxResult<Tensor<S>>)
    requires
        a.wf(),
        b.wf(),
        a.cols == b.rows ==> a.rows * b.cols <= usize::MAX,
    ensures
        a.cols == b.rows ==> (res matches Ok(out) && out@ == a@.matmul(b@) && out.wf()),
        a.cols != b.rows ==> is_shape_mismatch(res, "a.cols must equal b.rows for matmul"@),
{
    if a.cols != b.rows {
        return Err(NeuroxError::shape_mismatch("a.cols must equal b.rows for matmul"));
    }
    let f = |i: usize, j: usize| -> (v: S)
        requires
            i < a.rows,
            j < b.cols,
        ensures
            v == a@.dot(b@, i as int, j as int, a.cols as nat),
        { dot(a, b, i, j) };
    Ok(Tensor::tabulate(a.rows, b.cols, &f, Ghost(|i: int, j: int| a@.dot(b@, i, j, a@.cols))))
}

/// Adds two tensors of the same shape entry by entry.
///
/// Fails with a shape mismatch unless the shapes are identical.
pub fn add<S: Scalar>(a: &Tensor<S>, b: &Tensor<S>) -> (res: NeuroxResult<Tensor<S>>)
    requires
        a.wf(),
        b.wf(),
    ensures
        a.rows == b.rows && a.cols == b.cols ==> (res matches Ok(out) && out@ == a@.zip_with(
            b@,
            |x: S, y: S| x.add_spec(y),
        ) && out.wf()),
        !(a.rows == b.rows && a.cols == b.cols) ==> is_shape_mismatch(
            res,
            "tensors must have the same shape for element-wise add"@,
        ),
{
    if a.rows != b.rows || a.cols != b.cols {
        return Err(
            NeuroxError::shape_mismatch("tensors must have the same shape for element-wise add"),
        );
    }
    let f = |x: S, y: S| -> (v: S)
        ensures
            v == x.add_spec(y),
        { x.add(y) };
    Ok(a.zip_with(b, &f, Ghost(|x: S, y: S| x.add_spec(y))))
}

/// Multiplies two tensors of the same shape entry by entry.
///
/// Fails with a shape mismatch unless the shapes are identical.
pub fn mul_elementwise<S: Scalar>(a: &Tensor<S>, b: &Tensor<S>) -> (res: NeuroxResult<Tensor<S>>)
    requires
        a.wf(),
        b.wf(),
    ensures
        a.rows == b.rows && a.cols == b.cols ==> (res matches Ok(out) && out@ == a@.zip_with(
            b@,
            |x: S, y: S| x.mul_spec(y),
        ) && out.wf()),
        !(a.rows == b.rows && a.cols == b.cols) ==> is_shape_mismatch(
            res,
            "tensors must have the same shape for element-wise mul"@,
        ),
{
    if a.rows != b.rows || a.cols != b.cols {
        return Err(
            NeuroxError::shape_mismatch("tensors must have the same shape for element-wise mul"),
        );
    }
    let f = |x: S, y: S| -> (v: S)
        ensures
            v == x.mul_spec(y),
        { x.mul(y) };
    Ok(a.zip_with(b, &f, Ghost(|x: S, y: S| x.mul_spec(y))))
}

} // verus!
