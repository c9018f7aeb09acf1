//! The fully-connected layer: an affine transform followed by an activation,
//! with the caches and gradients of one forward/backward round.
use crate::activations;
use crate::activations::{relu_slope, relu_value, sigmoid_slope, sigmoid_value, tanh_slope};
use crate::errors::{is_shape_mismatch, NeuroxResult};
use crate::ops;
use crate::scalar::{one, Scalar};
use crate::tensor::{view_of, Matrix, Tensor};
use vstd::prelude::*;

verus! {

/// The activation functions a layer can apply.
#[derive(Clone, Copy, Debug)]
pub enum Activation {
    ReLU,
    Sigmoid,
    Tanh,
    Identity,
}

/// The activation `act` applied to the pre-activation `z`.
pub open spec fn activate<S: Scalar>(act: Activation, z: Matrix<S>) -> Matrix<S> {
    match act {
        Activation::ReLU => z.map_values(|v: S| relu_value(v)),
        Activation::Sigmoid => z.map_values(|v: S| sigmoid_value(v)),
        Activation::Tanh => z.map_values(|v: S| v.tanh_spec()),
        Activation::Identity => z,
    }
}

/// The derivative of the activation `act` at the pre-activation `pre`. For
/// sigmoid and tanh it is computed from the activation's output.
pub open spec fn activation_slope<S: Scalar>(act: Activation, pre: Matrix<S>) -> Matrix<S> {
    match act {
        Activation::ReLU => pre.map_values(|v: S| relu_slope(v)),
        Activation::Sigmoid => pre.map_values(|v: S| sigmoid_value(v)).map_values(
            |s: S| sigmoid_slope(s),
        ),
        Activation::Tanh => pre.map_values(|v: S| v.tanh_spec()).map_values(
            |t: S| tanh_slope(t),
        ),
        Activation::Identity => pre.map_values(|v: S| one::<S>()),
    }
}

/// The gradient with respect to the pre-activation: the gradient with
/// respect to the output times the activation's derivative, entry by entry.
/// The identity passes the gradient through.
pub open spec fn delta<S: Scalar>(act: Activation, grad_out: Matrix<S>, pre: Matrix<S>) -> Matrix<
    S,
> {
    match act {
        Activation::Identity => grad_out,
        _ => grad_out.zip_with(activation_slope(act, pre), |x: S, y: S| x.mul_spec(y)),
    }
}

/// The mathematical value of a dense layer.
pub struct DenseState<S> {
    pub w: Matrix<S>,
    pub b: Matrix<S>,
    pub activation: Activation,
    pub input_cache: Option<Matrix<S>>,
    pub preact_cache: Option<Matrix<S>>,
    pub grad_w: Option<Matrix<S>>,
    pub grad_b: Option<Matrix<S>>,
}

/// A matrix that may be absent is well formed.
pub open spec fn wf_if_present<S: Scalar>(m: Option<Matrix<S>>) -> bool {
    m matches Some(t) ==> t.wf()
}

impl<S: Scalar> DenseState<S> {
    /// Every tensor of the layer is well formed, the bias is one row as wide
    /// as the weights, and a cached pre-activation comes with a cached input.
    pub open spec fn wf(self) -> bool {
        &&& self.w.wf()
        &&& self.b.wf()
        &&& self.b.rows == 1
        &&& self.b.cols == self.w.cols
        &&& wf_if_present(self.input_cache)
        &&& wf_if_present(self.preact_cache)
        &&& wf_if_present(self.grad_w)
        &&& wf_if_present(self.grad_b)
        &&& (self.preact_cache is Some ==> self.input_cache is Some)
    }

    /// The input is as wide as the layer has input features.
    pub open spec fn accepts(self, x: Matrix<S>) -> bool {
        x.cols == self.w.rows
    }

    /// The pre-activation `x * w + b`.
    pub open spec fn preact(self, x: Matrix<S>) -> Matrix<S> {
        x.matmul(self.w).add_row(self.b)
    }

    /// The output of the layer on `x`.
    pub open spec fn output(self, x: Matrix<S>) -> Matrix<S> {
        activate(self.activation, self.preact(x))
    }

    /// The layer after a forward call on `x`: the input is cached in any
    /// case, the pre-activation only if the input was accepted.
    pub open spec fn after_forward(self, x: Matrix<S>) -> Self {
        DenseState {
            input_cache: Some(x),
            preact_cache: if self.accepts(x) {
                Some(self.preact(x))
            } else {
                self.preact_cache
            },
            ..self
        }
    }

    /// A forward call has filled the caches.
    pub open spec fn forward_done(self) -> bool {
        self.preact_cache is Some
    }

    /// The gradient `g` can be multiplied with the activation's derivative:
    /// it has the shape of the cached pre-activation, or the activation is
    /// the identity.
    pub open spec fn slope_fits(self, g: Matrix<S>) -> bool {
        self.activation is Identity || (g.rows == self.preact_cache->0.rows && g.cols
            == self.preact_cache->0.cols)
    }

    /// The gradient `g` has one row per row of the cached input.
    pub open spec fn batch_fits(self, g: Matrix<S>) -> bool {
        self.input_cache->0.rows == g.rows
    }

    /// The gradient `g` is as wide as the layer has output features.
    pub open spec fn width_fits(self, g: Matrix<S>) -> bool {
        g.cols == self.w.cols
    }

    /// A backward call on `g` succeeds.
    pub open spec fn backward_ok(self, g: Matrix<S>) -> bool {
        self.slope_fits(g) && self.batch_fits(g) && self.width_fits(g)
    }

    /// The gradient with respect to the cached pre-activation.
    pub open spec fn delta(self, g: Matrix<S>) -> Matrix<S> {
        delta(self.activation, g, self.preact_cache->0)
    }

    /// The gradient with respect to the weights: `x^T * delta`.
    pub open spec fn weight_grad(self, g: Matrix<S>) -> Matrix<S> {
        self.input_cache->0.transpose().matmul(self.delta(g))
    }

    /// The gradient with respect to the bias: the column sums of `delta`.
    pub open spec fn bias_grad(self, g: Matrix<S>) -> Matrix<S> {
        self.delta(g).col_sums()
    }

    /// The gradient with respect to the input: `delta * w^T`.
    pub open spec fn input_grad(self, g: Matrix<S>) -> Matrix<S> {
        self.delta(g).matmul(self.w.transpose())
    }

    /// The layer after a backward call on `g`: on success both gradients
    /// are replaced, otherwise nothing changes.
    pub open spec fn after_backward(self, g: Matrix<S>) -> Self {
        if self.backward_ok(g) {
            DenseState {
                grad_w: Some(self.weight_grad(g)),
                grad_b: Some(self.bias_grad(g)),
                ..self
            }
        } else {
            self
        }
    }

    /// Each gradient that is present has the shape of its parameter.
    pub open spec fn grads_fit(self) -> bool {
        &&& self.grad_w matches Some(g) ==> g.rows == self.w.rows && g.cols == self.w.cols
        &&& self.grad_b matches Some(g) ==> g.rows == self.b.rows && g.cols == self.b.cols
    }

    /// The layer after one step of gradient descent with rate `lr`: every
    /// parameter that has a gradient becomes `param - lr * grad`.
    pub open spec fn apply_gradients(self, lr: S) -> Self {
        DenseState {
            w: match self.grad_w {
                Some(g) => self.w.zip_with(g, |p: S, d: S| p.sub_spec(lr.mul_spec(d))),
                None => self.w,
            },
            b: match self.grad_b {
                Some(g) => self.b.zip_with(g, |p: S, d: S| p.sub_spec(lr.mul_spec(d))),
                None => self.b,
            },
            ..self
        }
    }
}

/// A layer that has not run a forward pass, as every new layer, is not
/// ready for a backward pass: `backward` cannot be called on it.
pub proof fn lemma_backward_needs_forward<S: Scalar>(layer: DenseState<S>)
    requires
        layer.preact_cache is None,
    ensures
        !layer.forward_done(),
{
}

/// A fully-connected layer.
///
/// It applies `activation(x * w + b)` and keeps the input and the
/// pre-activation of the last forward call for the backward call that
/// follows it.
pub struct Dense<S> {
    /// Weight matrix of shape `(in_features, out_features)`.
    pub w: Tensor<S>,
    /// Bias row of shape `(1, out_features)`.
    pub b: Tensor<S>,
    /// The activation applied after the affine transform.
    pub activation: Activation,
    /// The input of the last forward call, kept for `backward`.
    pub input_cache: Option<Tensor<S>>,
    /// The pre-activation of the last successful forward call, kept for
    /// `backward`.
    pub preact_cache: Option<Tensor<S>>,
    /// Gradient of the loss with respect to the weights, set by `backward`.
    pub grad_w: Option<Tensor<S>>,
    /// Gradient of the loss with respect to the bias, set by `backward`.
    pub grad_b: Option<Tensor<S>>,
}

impl<S: Scalar> View for Dense<S> {
    type V = DenseState<S>;

    open spec fn view(&self) -> DenseState<S> {
        DenseState {
            w: self.w@,
            b: self.b@,
            activation: self.activation,
            input_cache: view_of(self.input_cache),
            preact_cache: view_of(self.preact_cache),
            grad_w: view_of(self.grad_w),
            grad_b: view_of(self.grad_b),
        }
    }
}

/// The mathematical values of a sequence of layers.
pub open spec fn layer_states<S: Scalar>(layers: Seq<Dense<S>>) -> Seq<DenseState<S>> {
    Seq::new(layers.len(), |i: int| layers[i]@)
}

/// The sum of column `j` of `t`, accumulated from zero down the rows.
fn col_sum<S: Scalar>(t: &Tensor<S>, j: usize) -> (s: S)
    requires
        t.wf(),
        j < t.cols,
    ensures
        s == t@.col_sum(j as int, t.rows as nat),
{
    let mut s = S::from_count(0);
    let mut i: usize = 0;
    while i < t.rows
        invariant
            i <= t.rows,
            t.wf(),
            j < t.cols,
            s == t@.col_sum(j as int, i as nat),
        decreases t.rows - i,
    {
        s = s.add(t.get(i, j));
        i += 1;
    }
    s
}

/// The single row that holds the sum of each column of `t`.
fn col_sums<S: Scalar>(t: &Tensor<S>) -> (out: Tensor<S>)
    requires
        t.wf(),
    ensures
        out@ == t@.col_sums(),
        out.wf(),
{
    let f = |r: usize, c: usize| -> (v: S)
        requires
            c < t.cols,
        ensures
            v == t@.col_sum(c as int, t.rows as nat),
        { col_sum(t, c) };
    Tensor::tabulate(1, t.cols, &f, Ghost(|r: int, c: int| t@.col_sum(c, t@.rows)))
}

impl<S: Scalar> Dense<S> {
    /// The layer's value is well formed.
    pub open spec fn wf(&self) -> bool {
        self@.wf()
    }

    /// Creates a layer with random weights and bias, no cache and no
    /// gradients.
    pub fn new(in_features: usize, out_features: usize, activation: Activation) -> (layer: Self)
        requires
            in_features * out_features <= usize::MAX,
        ensures
            layer.wf(),
            layer.w.rows == in_features,
            layer.w.cols == out_features,
            layer.b.rows == 1,
            layer.b.cols == out_features,
            layer.activation == activation,
            layer@.w.sampled(),
            layer@.b.sampled(),
            layer@.input_cache is None,
            layer@.preact_cache is None,
            layer@.grad_w is None,
            layer@.grad_b is None,
    {
        Dense {
            w: Tensor::random(in_features, out_features),
            b: Tensor::random(1, out_features),
            input_cache: None,
            preact_cache: None,
            grad_w: None,
            grad_b: None,
            activation,
        }
    }

    /// Whether a forward call has filled the caches, so that `backward` may
    /// be called.
    pub fn is_forward_done(&self) -> (done: bool)
        ensures
            done == self@.forward_done(),
    {
        self.preact_cache.is_some()
    }

    /// The activation of this layer applied to `z`.
    fn activate(&self, z: Tensor<S>) -> (out: Tensor<S>)
        requires
            z.wf(),
        ensures
            out@ == activate(self.activation, z@),
            out.wf(),
    {
        match self.activation {
            Activation::ReLU => activations::relu(&z),
            Activation::Sigmoid => activations::sigmoid(&z),
            Activation::Tanh => activations::tanh(&z),
            Activation::Identity => z,
        }
    }

    /// Computes `activation(input * w + b)` and caches the input and the
    /// pre-activation for the backward call.
    ///
    /// Fails with a shape mismatch unless `input.cols` equals the number of
    /// input features; the input is cached even then.
    pub fn forward(&mut self, input: &Tensor<S>) -> (res: NeuroxResult<Tensor<S>>)
        requires
            old(self).wf(),
            input.wf(),
            input.cols == old(self).w.rows ==> input.rows * old(self).w.cols <= usize::MAX,
        ensures
            final(self)@ == old(self)@.after_forward(input@),
            final(self).wf(),
            old(self)@.accepts(input@) ==> (res matches Ok(out) && out@ == old(self)@.output(
                input@,
            ) && out.wf()),
            !old(self)@.accepts(input@) ==> is_shape_mismatch(
                res,
                "a.cols must equal b.rows for matmul"@,
            ),
    {
        self.input_cache = Some(input.clone());
        let z = match ops::matmul(input, &self.w) {
            Ok(z) => z,
            Err(e) => {
                return Err(e);
            },
        };
        let z = match z.add_row_broadcast(&self.b) {
            Ok(z) => z,
            Err(e) => {
                return Err(e);
            },
        };
        self.preact_cache = Some(z.clone());
        Ok(self.activate(z))
    }

    /// The derivative of this layer's activation at the pre-activation
    /// `pre`.
    fn activation_slope(&self, pre: &Tensor<S>) -> (out: Tensor<S>)
        requires
            pre.wf(),
        ensures
            out@ == activation_slope(self.activation, pre@),
            out.wf(),
    {
        match self.activation {
            Activation::ReLU => activations::relu_grad(pre),
            Activation::Sigmoid => {
                let out = activations::sigmoid(pre);
                activations::sigmoid_grad_from_out(&out)
            },
            Activation::Tanh => {
                let out = activations::tanh(pre);
                activations::tanh_grad_from_out(&out)
            },
            Activation::Identity => {
                let f = |v: S| -> (r: S)
                    ensures
                        r == one::<S>(),
                    { S::from_count(1) };
                let out = pre.map(f);
                assert(out@.data =~= pre@.map_values(|v: S| one::<S>()).data);
                out
            },
        }
    }

    /// Backpropagates `grad_out`, the gradient of the loss with respect to
    /// the output of the last forward call.
    ///
    /// On success the gradients with respect to the weights and the bias
    /// are stored in the layer, and the gradient with respect to the input
    /// is returned. A forward call must have filled the caches.
    pub fn backward(&mut self, grad_out: &Tensor<S>) -> (res: NeuroxResult<Tensor<S>>)
        requires
            old(self).wf(),
            grad_out.wf(),
            old(self)@.forward_done(),
            old(self)@.slope_fits(grad_out@) && old(self)@.batch_fits(grad_out@)
                ==> old(self)@.input_cache->0.cols * grad_out.cols <= usize::MAX,
            old(self)@.backward_ok(grad_out@) ==> grad_out.rows * old(self).w.rows <= usize::MAX,
        ensures
            final(self)@ == old(self)@.after_backward(grad_out@),
            final(self).wf(),
            old(self)@.backward_ok(grad_out@) ==> (res matches Ok(out) && out@
                == old(self)@.input_grad(grad_out@) && out.wf()),
            !old(self)@.slope_fits(grad_out@) ==> is_shape_mismatch(
                res,
                "tensors must have the same shape for element-wise mul"@,
            ),
            old(self)@.slope_fits(grad_out@) && !old(self)@.backward_ok(grad_out@)
                ==> is_shape_mismatch(res, "a.cols must equal b.rows for matmul"@),
    {
        let dz = match &self.preact_cache {
            Some(pre) => {
                match self.activation {
                    Activation::Identity => grad_out.clone(),
                    _ => {
                        let g = self.activation_slope(pre);
                        match ops::mul_elementwise(grad_out, &g) {
                            Ok(dz) => dz,
                            Err(e) => {
                                return Err(e);
                            },
                        }
                    },
                }
            },
            None => unreached(),
        };
        let gw = match &self.input_cache {
            Some(input) => {
                match ops::matmul(&input.transpose(), &dz) {
                    Ok(gw) => gw,
                    Err(e) => {
                        return Err(e);
                    },
                }
            },
            None => unreached(),
        };
        let gb = col_sums(&dz);
        let grad_input = match ops::matmul(&dz, &self.w.transpose()) {
            Ok(t) => t,
            Err(e) => {
                return Err(e);
            },
        };
        self.grad_w = Some(gw);
        self.grad_b = Some(gb);
        Ok(grad_input)
    }

    /// One step of gradient descent: every parameter that has a gradient
    /// becomes `param - lr * grad`.
    pub fn apply_gradients(&mut self, lr: S)
        requires
            old(self).wf(),
            old(self)@.grads_fit(),
        ensures
            final(self)@ == old(self)@.apply_gradients(lr),
            final(self).wf(),
    {
        let f = |p: S, d: S| -> (v: S)
            ensures
                v == p.sub_spec(lr.mul_spec(d)),
            { p.sub(lr.mul(d)) };
        if let Some(gw) = &self.grad_w {
            self.w = self.w.zip_with(gw, &f, Ghost(|p: S, d: S| p.sub_spec(lr.mul_spec(d))));
        }
        if let Some(gb) = &self.grad_b {
            self.b = self.b.zip_with(gb, &f, Ghost(|p: S, d: S| p.sub_spec(lr.mul_spec(d))));
        }
    }

    /// The number of trainable parameters: weights and bias entries.
    pub fn num_params(&self) -> (n: usize)
        requires
            self.w.data.len() + self.b.data.len() <= usize::MAX,
        ensures
            n == self.w@.data.len() + self.b@.data.len(),
    {
        self.w.data.len() + self.b.data.len()
    }
}

} // verus!
