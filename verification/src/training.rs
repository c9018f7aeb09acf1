//! Training: the batches of an epoch, and the loops that run them with
//! gradient descent or with Adam.
use crate::errors::{is_shape_mismatch, NeuroxResult};
use crate::layers::{layer_states, DenseState};
use crate::model::{
    chain_accepts, chain_after_forward, chain_wf, chain_width, chain_with_gradients,
    same_architecture, slice_rows, Model,
};
use crate::optimizer::{Adam, AdamState, SGD};
use crate::scalar::Scalar;
use crate::tensor::{Matrix, Tensor};
use vstd::arithmetic::mul::*;
use vstd::prelude::*;

verus! {

/// The row after the last one of the batch that starts at row `start`.
pub open spec fn batch_end(start: int, batch_size: int, rows: int) -> int {
    if start + batch_size < rows {
        start + batch_size
    } else {
        rows
    }
}

/// The number of rows from row `start` on.
pub open spec fn rows_left(rows: nat, start: int) -> nat {
    if start < rows {
        (rows - start) as nat
    } else {
        0
    }
}

/// The layers after one batch of gradient descent with rate `lr`.
pub open spec fn sgd_batch<S: Scalar>(
    layers: Seq<DenseState<S>>,
    bx: Matrix<S>,
    by: Matrix<S>,
    lr: S,
) -> Seq<DenseState<S>> {
    let g = chain_with_gradients(layers, bx, by);
    Seq::new(g.len(), |i: int| g[i].apply_gradients(lr))
}

/// The layers after the batches of one epoch from row `start` on: the rows
/// are taken in order, `batch_size` at a time, the last batch as many as
/// are left.
#[verifier::opaque]
pub open spec fn sgd_epoch<S: Scalar>(
    layers: Seq<DenseState<S>>,
    x: Matrix<S>,
    y: Matrix<S>,
    start: int,
    batch_size: int,
    lr: S,
) -> Seq<DenseState<S>>
    decreases rows_left(x.rows, start),
{
    if 0 <= start && start < x.rows && batch_size > 0 {
        sgd_epoch(
            sgd_batch(
                layers,
                x.slice_rows(start, batch_end(start, batch_size, x.rows as int)),
                y.slice_rows(start, batch_end(start, batch_size, x.rows as int)),
                lr,
            ),
            x,
            y,
            start + batch_size,
            batch_size,
            lr,
        )
    } else {
        layers
    }
}

/// The layers after `epochs` epochs of gradient descent.
#[verifier::opaque]
pub open spec fn sgd_train<S: Scalar>(
    layers: Seq<DenseState<S>>,
    x: Matrix<S>,
    y: Matrix<S>,
    epochs: nat,
    batch_size: int,
    lr: S,
) -> Seq<DenseState<S>>
    decreases epochs,
{
    if epochs == 0 {
        layers
    } else {
        sgd_train(
            sgd_epoch(layers, x, y, 0, batch_size, lr),
            x,
            y,
            (epochs - 1) as nat,
            batch_size,
            lr,
        )
    }
}

/// An epoch from row `start` on is its first batch followed by the rest.
pub proof fn lemma_sgd_epoch_unfold<S: Scalar>(
    layers: Seq<DenseState<S>>,
    x: Matrix<S>,
    y: Matrix<S>,
    start: int,
    batch_size: int,
    lr: S,
)
    ensures
        start < 0 || start >= x.rows || batch_size <= 0 ==> sgd_epoch(
            layers,
            x,
            y,
            start,
            batch_size,
            lr,
        ) == layers,
        0 <= start < x.rows && batch_size > 0 ==> sgd_epoch(layers, x, y, start, batch_size, lr)
            == sgd_epoch(
            sgd_batch(
                layers,
                x.slice_rows(start, batch_end(start, batch_size, x.rows as int)),
                y.slice_rows(start, batch_end(start, batch_size, x.rows as int)),
                lr,
            ),
            x,
            y,
            start + batch_size,
            batch_size,
            lr,
        ),
{
    reveal_with_fuel(sgd_epoch, 2);
}

/// Training for some epochs is one epoch followed by the rest.
pub proof fn lemma_sgd_train_unfold<S: Scalar>(
    layers: Seq<DenseState<S>>,
    x: Matrix<S>,
    y: Matrix<S>,
    epochs: nat,
    batch_size: int,
    lr: S,
)
    ensures
        epochs == 0 ==> sgd_train(layers, x, y, epochs, batch_size, lr) == layers,
        epochs > 0 ==> sgd_train(layers, x, y, epochs, batch_size, lr) == sgd_train(
            sgd_epoch(layers, x, y, 0, batch_size, lr),
            x,
            y,
            (epochs - 1) as nat,
            batch_size,
            lr,
        ),
{
    reveal_with_fuel(sgd_train, 2);
}

/// The number of batches of one epoch from row `start` on.
pub open spec fn batches_left(rows: nat, start: int, batch_size: int) -> nat
    decreases rows_left(rows, start),
{
    if 0 <= start && start < rows && batch_size > 0 {
        1 + batches_left(rows, start + batch_size, batch_size)
    } else {
        0
    }
}

/// An epoch has at most as many batches as there are rows.
pub proof fn lemma_batches_left_bound(rows: nat, start: int, batch_size: int)
    ensures
        batches_left(rows, start, batch_size) <= rows_left(rows, start),
    decreases rows_left(rows, start),
{
    if 0 <= start && start < rows && batch_size > 0 {
        lemma_batches_left_bound(rows, start + batch_size, batch_size);
    }
}

/// The layers and the optimizer after one batch of Adam.
pub open spec fn adam_batch<S: Scalar>(
    layers: Seq<DenseState<S>>,
    adam: AdamState<S>,
    bx: Matrix<S>,
    by: Matrix<S>,
) -> (Seq<DenseState<S>>, AdamState<S>) {
    let g = chain_with_gradients(layers, bx, by);
    (Seq::new(g.len(), |i: int| adam.step_layer(g[i], i)), adam.after_step(g))
}

/// The layers and the optimizer after the batches of one epoch of Adam
/// from row `start` on.
#[verifier::opaque]
pub open spec fn adam_epoch<S: Scalar>(
    layers: Seq<DenseState<S>>,
    adam: AdamState<S>,
    x: Matrix<S>,
    y: Matrix<S>,
    start: int,
    batch_size: int,
) -> (Seq<DenseState<S>>, AdamState<S>)
    decreases rows_left(x.rows, start),
{
    if 0 <= start && start < x.rows && batch_size > 0 {
        let next = adam_batch(
            layers,
            adam,
            x.slice_rows(start, batch_end(start, batch_size, x.rows as int)),
            y.slice_rows(start, batch_end(start, batch_size, x.rows as int)),
        );
        adam_epoch(next.0, next.1, x, y, start + batch_size, batch_size)
    } else {
        (layers, adam)
    }
}

/// The layers and the optimizer after `epochs` epochs of Adam.
#[verifier::opaque]
pub open spec fn adam_train<S: Scalar>(
    layers: Seq<DenseState<S>>,
    adam: AdamState<S>,
    x: Matrix<S>,
    y: Matrix<S>,
    epochs: nat,
    batch_size: int,
) -> (Seq<DenseState<S>>, AdamState<S>)
    decreases epochs,
{
    if epochs == 0 {
        (layers, adam)
    } else {
        let next = adam_epoch(layers, adam, x, y, 0, batch_size);
        adam_train(next.0, next.1, x, y, (epochs - 1) as nat, batch_size)
    }
}

/// An epoch of Adam from row `start` on is its first batch followed by the
/// rest.
pub proof fn lemma_adam_epoch_unfold<S: Scalar>(
    layers: Seq<DenseState<S>>,
    adam: AdamState<S>,
    x: Matrix<S>,
    y: Matrix<S>,
    start: int,
    batch_size: int,
)
    ensures
        !(0 <= start < x.rows && batch_size > 0) ==> adam_epoch(
            layers,
            adam,
            x,
            y,
            start,
            batch_size,
        ) == (layers, adam),
        0 <= start < x.rows && batch_size > 0 ==> adam_epoch(layers, adam, x, y, start, batch_size)
            == adam_epoch(
            adam_batch(
                layers,
                adam,
                x.slice_rows(start, batch_end(start, batch_size, x.rows as int)),
                y.slice_rows(start, batch_end(start, batch_size, x.rows as int)),
            ).0,
            adam_batch(
                layers,
                adam,
                x.slice_rows(start, batch_end(start, batch_size, x.rows as int)),
                y.slice_rows(start, batch_end(start, batch_size, x.rows as int)),
            ).1,
            x,
            y,
            start + batch_size,
            batch_size,
        ),
{
    reveal_with_fuel(adam_epoch, 2);
}

/// Training with Adam for some epochs is one epoch followed by the rest.
pub proof fn lemma_adam_train_unfold<S: Scalar>(
    layers: Seq<DenseState<S>>,
    adam: AdamState<S>,
    x: Matrix<S>,
    y: Matrix<S>,
    epochs: nat,
    batch_size: int,
)
    ensures
        epochs == 0 ==> adam_train(layers, adam, x, y, epochs, batch_size) == (layers, adam),
        epochs > 0 ==> adam_train(layers, adam, x, y, epochs, batch_size) == adam_train(
            adam_epoch(layers, adam, x, y, 0, batch_size).0,
            adam_epoch(layers, adam, x, y, 0, batch_size).1,
            x,
            y,
            (epochs - 1) as nat,
            batch_size,
        ),
{
    reveal_with_fuel(adam_train, 2);
}

/// The training data fit the model: there are targets for every input row,
/// the batches are not empty, the targets are as wide as the model's
/// output, and no tensor of a batch outgrows the machine's word.
pub open spec fn trainable<S: Scalar>(
    layers: Seq<DenseState<S>>,
    x: Tensor<S>,
    y: Tensor<S>,
    epochs: usize,
    batch_size: usize,
) -> bool {
    &&& x.wf()
    &&& y.wf()
    &&& epochs > 0 ==> batch_size > 0 && x.rows <= y.rows
    &&& epochs > 0 && x.rows > 0 && chain_accepts(layers, x@) ==> {
        &&& y.cols == chain_width(layers, x.cols as nat)
        &&& forall|i: int|
            0 <= i < layers.len() ==> batch_end(0, batch_size as int, x.rows as int) * (
            #[trigger] layers[i]).w.cols <= usize::MAX
    }
}

/// Training stops at its first batch: there is one, and the model rejects
/// the width of the inputs.
pub open spec fn rejected<S: Scalar>(
    layers: Seq<DenseState<S>>,
    x: Matrix<S>,
    epochs: usize,
) -> bool {
    epochs > 0 && x.rows > 0 && !chain_accepts(layers, x)
}

/// The first batch of the inputs.
pub open spec fn first_batch<S: Scalar>(x: Matrix<S>, batch_size: usize) -> Matrix<S> {
    x.slice_rows(0, batch_end(0, batch_size as int, x.rows as int))
}

/// The batch is one of the data: as many target rows as input rows, the
/// widths of the data, and no more rows than a full batch.
spec fn batch_of<S: Scalar>(
    bx: Tensor<S>,
    by: Tensor<S>,
    x: Tensor<S>,
    y: Tensor<S>,
    batch_size: usize,
) -> bool {
    &&& bx.wf()
    &&& by.wf()
    &&& bx.rows == by.rows
    &&& bx.rows > 0
    &&& bx.cols == x.cols
    &&& by.cols == y.cols
    &&& bx.rows <= batch_end(0, batch_size as int, x.rows as int)
}

/// What holds of the model and the data throughout training: the model is
/// a well-formed chain of the architecture it started with, and the data
/// fit it.
spec fn in_training<S: Scalar>(
    layers: Seq<DenseState<S>>,
    start: Seq<DenseState<S>>,
    x: Tensor<S>,
    y: Tensor<S>,
    batch_size: usize,
) -> bool {
    &&& chain_wf(layers)
    &&& same_architecture(layers, start)
    &&& x.wf()
    &&& y.wf()
    &&& batch_size > 0
    &&& x.rows <= y.rows
    &&& x.rows > 0 && chain_accepts(start, x@) ==> {
        &&& y.cols == chain_width(start, x.cols as nat)
        &&& forall|i: int|
            0 <= i < start.len() ==> batch_end(0, batch_size as int, x.rows as int) * (
            #[trigger] start[i]).w.cols <= usize::MAX
    }
}

/// A batch of the data meets what computing the gradients asks for.
proof fn lemma_batch_fits<S: Scalar>(
    layers: Seq<DenseState<S>>,
    start: Seq<DenseState<S>>,
    bx: Tensor<S>,
    by: Tensor<S>,
    x: Tensor<S>,
    y: Tensor<S>,
    batch_size: usize,
)
    requires
        in_training(layers, start, x, y, batch_size),
        batch_of(bx, by, x, y, batch_size),
        x.rows > 0,
    ensures
        chain_accepts(layers, bx@) == chain_accepts(start, x@),
        chain_accepts(layers, bx@) ==> by.cols == chain_width(layers, bx.cols as nat),
        chain_accepts(layers, bx@) ==> forall|i: int|
            0 <= i < layers.len() ==> bx.rows * (#[trigger] layers[i]).w.cols <= usize::MAX,
{
    if chain_accepts(layers, bx@) {
        assert(chain_width(layers, bx.cols as nat) == chain_width(start, x.cols as nat));
        let full = batch_end(0, batch_size as int, x.rows as int);
        assert forall|i: int| 0 <= i < layers.len() implies bx.rows * (#[trigger] layers[i]).w.cols
            <= usize::MAX by {
            let c = start[i].w.cols;
            assert(layers[i].w.cols == c);
            assert(bx.rows * c <= full * c) by (nonlinear_arith)
                requires
                    0 <= c,
                    bx.rows <= full,
            ;
        }
    }
}

/// Having the same architecture carries over from chain to chain.
proof fn lemma_same_architecture<S: Scalar>(
    a: Seq<DenseState<S>>,
    b: Seq<DenseState<S>>,
    c: Seq<DenseState<S>>,
)
    requires
        same_architecture(a, b),
        same_architecture(b, c),
    ensures
        same_architecture(a, c),
{
}

impl<S: Scalar> Model<S> {
    /// One batch of gradient descent: the gradients of the loss on the
    /// batch, then one step of the optimizer.
    fn sgd_step(&mut self, opt: &SGD<S>, bx: &Tensor<S>, by: &Tensor<S>) -> (res: NeuroxResult<()>)
        requires
            old(self).wf(),
            bx.wf(),
            by.wf(),
            by.rows == bx.rows,
            chain_accepts(old(self)@, bx@) ==> by.cols == chain_width(old(self)@, bx.cols as nat),
            chain_accepts(old(self)@, bx@) ==> forall|i: int|
                0 <= i < old(self)@.len() ==> bx.rows * (#[trigger] old(self)@[i]).w.cols
                    <= usize::MAX,
        ensures
            final(self).wf(),
            same_architecture(final(self)@, old(self)@),
            chain_accepts(old(self)@, bx@) ==> res is Ok && final(self)@ == sgd_batch(
                old(self)@,
                bx@,
                by@,
                opt.lr,
            ),
            !chain_accepts(old(self)@, bx@) ==> is_shape_mismatch(
                res,
                "a.cols must equal b.rows for matmul"@,
            ) && final(self)@ == chain_after_forward(old(self)@, bx@),
    {
        let ghost before = self@;
        match self.compute_gradients(bx, by) {
            Ok(()) => {},
            Err(e) => {
                return Err(e);
            },
        }
        let ghost with_grads = self@;
        proof {
            assert forall|i: int| 0 <= i < self.layers@.len() implies (
            #[trigger] self.layers@[i]).wf() && self.layers@[i]@.grads_fit() by {
                assert(self@[i] == self.layers@[i]@);
            }
        }
        opt.step(&mut self.layers);
        proof {
            assert forall|i: int| 0 <= i < self@.len() implies {
                &&& #[trigger] self@[i] == with_grads[i].apply_gradients(opt.lr)
                &&& self@[i].wf()
                &&& self@[i].w.rows == before[i].w.rows
                &&& self@[i].w.cols == before[i].w.cols
            } by {
                assert(self@[i] == self.layers@[i]@);
                assert(self.layers@[i].wf());
            }
            assert(self@ =~= sgd_batch(before, bx@, by@, opt.lr));
        }
        Ok(())
    }

    /// Trains the model by gradient descent on softmax cross-entropy.
    ///
    /// Each epoch walks the rows of `x` in order, `batch_size` at a time
    /// (the last batch may be shorter); each batch is one forward pass, one
    /// backward pass and one update with rate `lr`. Fails with a shape
    /// mismatch, on the first batch, unless `x` is as wide as the first
    /// layer expects.
    pub fn train_sgd(
        &mut self,
        x: &Tensor<S>,
        y: &Tensor<S>,
        epochs: usize,
        batch_size: usize,
        lr: S,
    ) -> (res: NeuroxResult<()>)
        requires
            old(self).wf(),
            trainable(old(self)@, *x, *y, epochs, batch_size),
        ensures
            final(self).wf(),
            same_architecture(final(self)@, old(self)@),
            rejected(old(self)@, x@, epochs) ==> is_shape_mismatch(
                res,
                "a.cols must equal b.rows for matmul"@,
            ) && final(self)@ == chain_after_forward(old(self)@, first_batch(x@, batch_size)),
            !rejected(old(self)@, x@, epochs) ==> res is Ok && final(self)@ == sgd_train(
                old(self)@,
                x@,
                y@,
                epochs as nat,
                batch_size as int,
                lr,
            ),
    {
        let ghost initial = self@;
        let ghost goal = sgd_train(initial, x@, y@, epochs as nat, batch_size as int, lr);
        let opt = SGD::new(lr);
        let mut epoch: usize = 0;
        while epoch < epochs
            invariant
                epoch <= epochs,
                initial == old(self)@,
                opt.lr == lr,
                epochs > 0 ==> in_training(self@, initial, *x, *y, batch_size),
                chain_wf(self@),
                same_architecture(self@, initial),
                !chain_accepts(initial, x@) ==> self@ == initial,
                epoch > 0 && x.rows > 0 ==> chain_accepts(initial, x@),
                sgd_train(self@, x@, y@, (epochs - epoch) as nat, batch_size as int, lr) == goal,
            decreases epochs - epoch,
        {
            let ghost epoch_goal = sgd_epoch(self@, x@, y@, 0, batch_size as int, lr);
            proof {
                lemma_sgd_train_unfold(
                    self@,
                    x@,
                    y@,
                    (epochs - epoch) as nat,
                    batch_size as int,
                    lr,
                );
            }
            let mut start: usize = 0;
            while start < x.rows
                invariant
                    start <= x.rows,
                    epoch < epochs,
                    initial == old(self)@,
                    opt.lr == lr,
                    in_training(self@, initial, *x, *y, batch_size),
                    !chain_accepts(initial, x@) ==> self@ == initial && start == 0,
                    start > 0 ==> chain_accepts(initial, x@),
                    sgd_epoch(self@, x@, y@, start as int, batch_size as int, lr) == epoch_goal,
                decreases x.rows - start,
            {
                let end = if batch_size >= x.rows - start {
                    x.rows
                } else {
                    start + batch_size
                };
                let ghost cur = self@;
                let bx = match slice_rows(x, start, end) {
                    Ok(t) => t,
                    Err(e) => {
                        return Err(e);
                    },
                };
                let by = match slice_rows(y, start, end) {
                    Ok(t) => t,
                    Err(e) => {
                        return Err(e);
                    },
                };
                proof {
                    assert(end == batch_end(start as int, batch_size as int, x.rows as int));
                    lemma_batch_fits(cur, initial, bx, by, *x, *y, batch_size);
                    lemma_sgd_epoch_unfold(cur, x@, y@, start as int, batch_size as int, lr);
                }
                match self.sgd_step(&opt, &bx, &by) {
                    Ok(()) => {},
                    Err(e) => {
                        return Err(e);
                    },
                }
                proof {
                    lemma_sgd_epoch_unfold(self@, x@, y@, end as int, batch_size as int, lr);
                    lemma_sgd_epoch_unfold(
                        self@,
                        x@,
                        y@,
                        start + batch_size,
                        batch_size as int,
                        lr,
                    );
                    lemma_same_architecture(self@, cur, initial);
                }
                start = end;
            }
            proof {
                lemma_sgd_epoch_unfold(self@, x@, y@, start as int, batch_size as int, lr);
            }
            epoch += 1;
        }
        proof {
            lemma_sgd_train_unfold(self@, x@, y@, 0, batch_size as int, lr);
        }
        Ok(())
    }

    /// One batch of Adam: the gradients of the loss on the batch, then one
    /// step of the optimizer.
    fn adam_step(&mut self, adam: &mut Adam<S>, bx: &Tensor<S>, by: &Tensor<S>) -> (res:
        NeuroxResult<()>)
        requires
            old(self).wf(),
            bx.wf(),
            by.wf(),
            by.rows == bx.rows,
            chain_accepts(old(self)@, bx@) ==> by.cols == chain_width(old(self)@, bx.cols as nat),
            chain_accepts(old(self)@, bx@) ==> forall|i: int|
                0 <= i < old(self)@.len() ==> bx.rows * (#[trigger] old(self)@[i]).w.cols
                    <= usize::MAX,
            old(adam)@.matches(old(self)@),
            old(adam).t < usize::MAX,
        ensures
            final(self).wf(),
            same_architecture(final(self)@, old(self)@),
            final(adam)@.matches(final(self)@),
            chain_accepts(old(self)@, bx@) ==> res is Ok && (final(self)@, final(adam)@)
                == adam_batch(old(self)@, old(adam)@, bx@, by@),
            !chain_accepts(old(self)@, bx@) ==> is_shape_mismatch(
                res,
                "a.cols must equal b.rows for matmul"@,
            ) && final(self)@ == chain_after_forward(old(self)@, bx@) && final(adam)@ == old(
                adam,
            )@,
    {
        let ghost before = self@;
        let ghost opt = adam@;
        let res = self.compute_gradients(bx, by);
        let ghost with_grads = self@;
        proof {
            assert forall|i: int| 0 <= i < with_grads.len() implies {
                &&& (#[trigger] opt.m_w[i]).len() == with_grads[i].w.data.len()
                &&& opt.v_w[i].len() == with_grads[i].w.data.len()
                &&& opt.m_b[i].len() == with_grads[i].b.data.len()
                &&& opt.v_b[i].len() == with_grads[i].b.data.len()
            } by {
                let a = before[i];
                let b = with_grads[i];
                assert(a.wf() && b.wf());
                assert(b.w.rows == a.w.rows && b.w.cols == a.w.cols);
                assert(a.w.data.len() == a.w.rows * a.w.cols);
                assert(b.w.data.len() == b.w.rows * b.w.cols);
                assert(a.b.data.len() == a.b.rows * a.b.cols);
                assert(b.b.data.len() == b.b.rows * b.b.cols);
                assert(opt.m_w[i].len() == a.w.data.len());
                assert(opt.v_w[i].len() == a.w.data.len());
                assert(opt.m_b[i].len() == a.b.data.len());
                assert(opt.v_b[i].len() == a.b.data.len());
            }
            assert(opt.matches(with_grads));
        }
        match res {
            Ok(()) => {},
            Err(e) => {
                return Err(e);
            },
        }
        proof {
            assert forall|i: int| 0 <= i < self.layers@.len() implies (
            #[trigger] self.layers@[i]).wf() && self.layers@[i]@.grads_fit() by {
                assert(self@[i] == self.layers@[i]@);
            }
            assert(with_grads =~= layer_states(self.layers@));
        }
        adam.step(&mut self.layers);
        proof {
            assert forall|i: int| 0 <= i < self@.len() implies {
                &&& #[trigger] self@[i] == opt.step_layer(with_grads[i], i)
                &&& self@[i].wf()
                &&& self@[i].w.rows == before[i].w.rows
                &&& self@[i].w.cols == before[i].w.cols
            } by {
                assert(self@[i] == self.layers@[i]@);
                assert(self.layers@[i].wf());
            }
            assert(self@ =~= adam_batch(before, opt, bx@, by@).0);
            assert(adam@ == adam_batch(before, opt, bx@, by@).1);
        }
        Ok(())
    }

    /// Trains the model with Adam on softmax cross-entropy.
    ///
    /// The batches are those of `train_sgd`; each batch is one forward
    /// pass, one backward pass and one Adam step of a fresh optimizer with
    /// learning rate `lr`. Fails with a shape mismatch, on the first batch,
    /// unless `x` is as wide as the first layer expects. The number of
    /// steps must fit the optimizer's counter.
    pub fn train_adam(
        &mut self,
        x: &Tensor<S>,
        y: &Tensor<S>,
        epochs: usize,
        batch_size: usize,
        lr: S,
    ) -> (res: NeuroxResult<()>)
        requires
            old(self).wf(),
            trainable(old(self)@, *x, *y, epochs, batch_size),
            epochs * batches_left(x.rows as nat, 0, batch_size as int) <= usize::MAX,
        ensures
            final(self).wf(),
            same_architecture(final(self)@, old(self)@),
            rejected(old(self)@, x@, epochs) ==> is_shape_mismatch(
                res,
                "a.cols must equal b.rows for matmul"@,
            ) && final(self)@ == chain_after_forward(old(self)@, first_batch(x@, batch_size)),
            !rejected(old(self)@, x@, epochs) ==> res is Ok && final(self)@ == adam_train(
                old(self)@,
                AdamState::initial(lr, old(self)@),
                x@,
                y@,
                epochs as nat,
                batch_size as int,
            ).0,
    {
        let ghost initial = self@;
        let ghost per_epoch = batches_left(x.rows as nat, 0, batch_size as int);
        let mut adam = Adam::new(lr, &self.layers);
        let ghost goal = adam_train(initial, adam@, x@, y@, epochs as nat, batch_size as int);
        let mut epoch: usize = 0;
        proof {
            assert(0 * per_epoch == 0) by (nonlinear_arith);
        }
        while epoch < epochs
            invariant
                epoch <= epochs,
                initial == old(self)@,
                epochs > 0 ==> in_training(self@, initial, *x, *y, batch_size),
                chain_wf(self@),
                same_architecture(self@, initial),
                adam@.matches(self@),
                per_epoch == batches_left(x.rows as nat, 0, batch_size as int),
                epochs * per_epoch <= usize::MAX,
                adam.t == epoch * per_epoch,
                !chain_accepts(initial, x@) ==> self@ == initial,
                epoch > 0 && x.rows > 0 ==> chain_accepts(initial, x@),
                adam_train(self@, adam@, x@, y@, (epochs - epoch) as nat, batch_size as int)
                    == goal,
            decreases epochs - epoch,
        {
            let ghost epoch_goal = adam_epoch(self@, adam@, x@, y@, 0, batch_size as int);
            proof {
                lemma_adam_train_unfold(
                    self@,
                    adam@,
                    x@,
                    y@,
                    (epochs - epoch) as nat,
                    batch_size as int,
                );
                assert((epoch + 1) * per_epoch == epoch * per_epoch + per_epoch)
                    by (nonlinear_arith);
                lemma_mul_inequality(epoch + 1, epochs as int, per_epoch as int);
            }
            let mut start: usize = 0;
            while start < x.rows
                invariant
                    start <= x.rows,
                    epoch < epochs,
                    initial == old(self)@,
                    in_training(self@, initial, *x, *y, batch_size),
                    adam@.matches(self@),
                    (epoch + 1) * per_epoch <= usize::MAX,
                    adam.t + batches_left(x.rows as nat, start as int, batch_size as int) == (epoch
                        + 1) * per_epoch,
                    !chain_accepts(initial, x@) ==> self@ == initial && start == 0,
                    start > 0 ==> chain_accepts(initial, x@),
                    adam_epoch(self@, adam@, x@, y@, start as int, batch_size as int)
                        == epoch_goal,
                decreases x.rows - start,
            {
                let end = if batch_size >= x.rows - start {
                    x.rows
                } else {
                    start + batch_size
                };
                let ghost cur = self@;
                let ghost opt = adam@;
                let bx = match slice_rows(x, start, end) {
                    Ok(t) => t,
                    Err(e) => {
                        return Err(e);
                    },
                };
                let by = match slice_rows(y, start, end) {
                    Ok(t) => t,
                    Err(e) => {
                        return Err(e);
                    },
                };
                proof {
                    assert(end == batch_end(start as int, batch_size as int, x.rows as int));
                    lemma_batch_fits(cur, initial, bx, by, *x, *y, batch_size);
                    lemma_adam_epoch_unfold(cur, opt, x@, y@, start as int, batch_size as int);
                    assert(batches_left(x.rows as nat, start as int, batch_size as int) == 1
                        + batches_left(x.rows as nat, start + batch_size, batch_size as int));
                    assert(batches_left(x.rows as nat, start + batch_size, batch_size as int)
                        == batches_left(x.rows as nat, end as int, batch_size as int));
                }
                match self.adam_step(&mut adam, &bx, &by) {
                    Ok(()) => {},
                    Err(e) => {
                        return Err(e);
                    },
                }
                proof {
                    lemma_adam_epoch_unfold(self@, adam@, x@, y@, end as int, batch_size as int);
                    lemma_adam_epoch_unfold(
                        self@,
                        adam@,
                        x@,
                        y@,
                        start + batch_size,
                        batch_size as int,
                    );
                    lemma_same_architecture(self@, cur, initial);
                }
                start = end;
            }
            proof {
                lemma_adam_epoch_unfold(self@, adam@, x@, y@, start as int, batch_size as int);
            }
            epoch += 1;
        }
        proof {
            lemma_adam_train_unfold(self@, adam@, x@, y@, 0, batch_size as int);
        }
        Ok(())
    }
}

} // verus!
