//! Loss functions: a scalar loss over a batch and its gradient with respect
//! to the predictions.
use crate::scalar::{ratio, two, zero, Scalar};
use crate::tensor::Tensor;
use vstd::pervasive::runtime_assert;
use vstd::prelude::*;

verus! {

/// The sum of the squared differences of the first `n` entries, accumulated
/// from zero in buffer order.
pub open spec fn squared_error_sum<S: Scalar>(pred: Seq<S>, target: Seq<S>, n: nat) -> S
    decreases n,
{
    if n == 0 {
        zero::<S>()
    } else {
        let diff = pred[n - 1].sub_spec(target[n - 1]);
        squared_error_sum(pred, target, (n - 1) as nat).add_spec(diff.mul_spec(diff))
    }
}

/// The gradient of the mean squared error at one entry: `2 * (p - t) / rows`.
pub open spec fn mse_grad_value<S: Scalar>(p: S, t: S, rows: usize) -> S {
    two::<S>().mul_spec(p.sub_spec(t)).div_spec(S::from_count_spec(rows))
}

/// The smallest probability whose logarithm cross-entropy takes: one
/// ten-millionth.
pub open spec fn probability_floor<S: Scalar>() -> S {
    ratio::<S>(1, 10_000_000)
}

/// The probability `p` raised to the floor.
pub open spec fn floored<S: Scalar>(p: S) -> S {
    p.max_spec(probability_floor::<S>())
}

/// The cross-entropy of the first `n` entries: starting from zero,
/// `t * ln(floored(p))` is subtracted entry after entry in buffer order.
pub open spec fn cross_entropy_sum<S: Scalar>(prob: Seq<S>, target: Seq<S>, n: nat) -> S
    decreases n,
{
    if n == 0 {
        zero::<S>()
    } else {
        cross_entropy_sum(prob, target, (n - 1) as nat).sub_spec(
            target[n - 1].mul_spec(floored(prob[n - 1]).ln_spec()),
        )
    }
}

/// The gradient of cross-entropy at one entry: `(floored(p) - t) / rows`.
pub open spec fn cross_entropy_grad_value<S: Scalar>(p: S, t: S, rows: usize) -> S {
    floored(p).sub_spec(t).div_spec(S::from_count_spec(rows))
}

/// Mean squared error of a batch and its gradient.
///
/// The loss is the sum of the squared differences divided by the number of
/// rows (not by the number of entries). Both tensors must have the same
/// shape.
pub fn mse_loss<S: Scalar>(pred: &Tensor<S>, target: &Tensor<S>) -> (res: (S, Tensor<S>))
    requires
        pred.wf(),
        target.wf(),
        pred.rows == target.rows,
        pred.cols == target.cols,
    ensures
        res.0 == squared_error_sum(pred.data@, target.data@, pred.data@.len()).div_spec(
            S::from_count_spec(pred.rows),
        ),
        res.1@ == pred@.zip_with(target@, |p: S, t: S| mse_grad_value(p, t, pred.rows)),
        res.1.wf(),
{
    runtime_assert(pred.rows == target.rows);
    runtime_assert(pred.cols == target.cols);
    let n = pred.data.len();
    let rows = S::from_count(pred.rows);
    let mut sum = S::from_count(0);
    let mut grad: Vec<S> = Vec::new();
    let mut i: usize = 0;
    while i < n
        invariant
            i <= n,
            n == pred.data@.len(),
            n == target.data@.len(),
            rows == S::from_count_spec(pred.rows),
            sum == squared_error_sum(pred.data@, target.data@, i as nat),
            grad.len() == i,
            forall|k: int|
                0 <= k < i ==> #[trigger] grad@[k] == mse_grad_value(
                    pred.data@[k],
                    target.data@[k],
                    pred.rows,
                ),
        decreases n - i,
    {
        let diff = pred.data[i].sub(target.data[i]);
        sum = sum.add(diff.mul(diff));
        grad.push(S::from_count(2).mul(diff).div(rows));
        i += 1;
    }
    let g = Tensor::from_data(grad, pred.rows, pred.cols);
    assert(g@.data =~= pred@.zip_with(
        target@,
        |p: S, t: S| mse_grad_value(p, t, pred.rows),
    ).data);
    (sum.div(rows), g)
}

/// Cross-entropy of a batch of probabilities against targets, and its
/// gradient.
///
/// The inputs are taken to be probabilities already (softmax applied). Each
/// probability is raised to a floor of one ten-millionth before its
/// logarithm is taken. The loss is the plain sum over all entries; only the
/// gradient is divided by the number of rows. Both tensors must have the
/// same shape.
pub fn cross_entropy_loss<S: Scalar>(prob: &Tensor<S>, target: &Tensor<S>) -> (res: (
    S,
    Tensor<S>,
))
    requires
        prob.wf(),
        target.wf(),
        prob.rows == target.rows,
        prob.cols == target.cols,
    ensures
        res.0 == cross_entropy_sum(prob.data@, target.data@, prob.data@.len()),
        res.1@ == prob@.zip_with(target@, |p: S, t: S| cross_entropy_grad_value(p, t, prob.rows)),
        res.1.wf(),
{
    runtime_assert(prob.rows == target.rows);
    runtime_assert(prob.cols == target.cols);
    let n = prob.data.len();
    let rows = S::from_count(prob.rows);
    let floor = S::from_count(1).div(S::from_count(10_000_000));
    let mut loss = S::from_count(0);
    let mut grad: Vec<S> = Vec::new();
    let mut i: usize = 0;
    while i < n
        invariant
            i <= n,
            n == prob.data@.len(),
            n == target.data@.len(),
            rows == S::from_count_spec(prob.rows),
            floor == probability_floor::<S>(),
            loss == cross_entropy_sum(prob.data@, target.data@, i as nat),
            grad.len() == i,
            forall|k: int|
                0 <= k < i ==> #[trigger] grad@[k] == cross_entropy_grad_value(
                    prob.data@[k],
                    target.data@[k],
                    prob.rows,
                ),
        decreases n - i,
    {
        let p = prob.data[i].max(floor);
        let t = target.data[i];
        loss = loss.sub(t.mul(p.ln()));
        grad.push(p.sub(t).div(rows));
        i += 1;
    }
    let g = Tensor::from_data(grad, prob.rows, prob.cols);
    assert(g@.data =~= prob@.zip_with(
        target@,
        |p: S, t: S| cross_entropy_grad_value(p, t, prob.rows),
    ).data);
    (loss, g)
}

} // verus!
