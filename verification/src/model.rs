//! The sequential model: a chain of dense layers, its forward pass and the
//! backward pass of a loss gradient through it.
use crate::activations::{softmax, softmax_of};
use crate::errors::{is_shape_mismatch, NeuroxResult};
use crate::layers::{layer_states, Activation, Dense, DenseState};
use crate::loss::{cross_entropy_grad_value, cross_entropy_loss};
use crate::scalar::Scalar;
use crate::tensor::{Matrix, Tensor};
use crate::text::{decimal, decimal_spec};
use vstd::pervasive::runtime_assert;
use vstd::prelude::*;
use vstd::string::StringExecFns;

verus! {

/// Every layer is well formed, and each layer is as wide as the next one
/// expects its input to be.
pub open spec fn chain_wf<S: Scalar>(layers: Seq<DenseState<S>>) -> bool {
    &&& forall|i: int| 0 <= i < layers.len() ==> (#[trigger] layers[i]).wf()
    &&& forall|i: int, j: int|
        0 <= i && j == i + 1 && j < layers.len() ==> (#[trigger] layers[i]).w.cols
            == (#[trigger] layers[j]).w.rows
}

/// The input is as wide as the first layer expects. A model without layers
/// accepts every input.
pub open spec fn chain_accepts<S: Scalar>(layers: Seq<DenseState<S>>, x: Matrix<S>) -> bool {
    layers.len() > 0 ==> layers[0].accepts(x)
}

/// What the first `k` layers make of the input `x`: the input of layer `k`.
#[verifier::opaque]
pub open spec fn signal<S: Scalar>(layers: Seq<DenseState<S>>, x: Matrix<S>, k: nat) -> Matrix<S>
    decreases k,
{
    if k == 0 {
        x
    } else {
        layers[k - 1].output(signal(layers, x, (k - 1) as nat))
    }
}

/// The output of the whole chain on `x`.
pub open spec fn chain_output<S: Scalar>(layers: Seq<DenseState<S>>, x: Matrix<S>) -> Matrix<S> {
    signal(layers, x, layers.len())
}

/// The layers after a forward pass on `x`. If the first layer rejects the
/// input, it still caches it and no other layer is touched.
pub open spec fn chain_after_forward<S: Scalar>(
    layers: Seq<DenseState<S>>,
    x: Matrix<S>,
) -> Seq<DenseState<S>> {
    if layers.len() == 0 {
        layers
    } else if layers[0].accepts(x) {
        Seq::new(layers.len(), |i: int| layers[i].after_forward(signal(layers, x, i as nat)))
    } else {
        layers.update(0, layers[0].after_forward(x))
    }
}

/// The width of the chain's output for an input of width `in_cols`.
pub open spec fn chain_width<S: Scalar>(layers: Seq<DenseState<S>>, in_cols: nat) -> nat {
    if layers.len() == 0 {
        in_cols
    } else {
        layers.last().w.cols
    }
}

/// The output of a layer that accepts its input is well formed, with one
/// row per input row and one column per output feature.
pub proof fn lemma_output_shape<S: Scalar>(layer: DenseState<S>, x: Matrix<S>)
    requires
        layer.wf(),
        x.wf(),
        layer.accepts(x),
    ensures
        layer.preact(x).wf(),
        layer.preact(x).rows == x.rows,
        layer.preact(x).cols == layer.w.cols,
        layer.output(x).wf(),
        layer.output(x).rows == x.rows,
        layer.output(x).cols == layer.w.cols,
{
}

/// In a well-formed chain that accepts `x`, the input of every layer is
/// well formed and as wide as the layer expects.
pub proof fn lemma_signal_shape<S: Scalar>(layers: Seq<DenseState<S>>, x: Matrix<S>, k: nat)
    requires
        chain_wf(layers),
        x.wf(),
        chain_accepts(layers, x),
        k <= layers.len(),
    ensures
        signal(layers, x, k).wf(),
        signal(layers, x, k).rows == x.rows,
        signal(layers, x, k).cols == if k == 0 {
            x.cols
        } else {
            layers[k - 1].w.cols
        },
        k < layers.len() ==> layers[k as int].accepts(signal(layers, x, k)),
    decreases k,
{
    reveal(signal);
    if k > 0 {
        lemma_signal_shape(layers, x, (k - 1) as nat);
        lemma_output_shape(layers[k - 1], signal(layers, x, (k - 1) as nat));
    }
}

/// The input of a layer is the output of the layer before it; the input of
/// the first layer is the input of the chain.
pub proof fn lemma_signal_step<S: Scalar>(layers: Seq<DenseState<S>>, x: Matrix<S>, k: nat)
    ensures
        signal(layers, x, 0) == x,
        signal(layers, x, k + 1) == layers[k as int].output(signal(layers, x, k)),
{
    reveal_with_fuel(signal, 2);
}

/// The gradient that arrives at the output of layer `i` when `g` arrives at
/// the output of the last layer: each later layer hands the gradient with
/// respect to its input to the layer before it.
#[verifier::opaque]
pub open spec fn grad_into<S: Scalar>(layers: Seq<DenseState<S>>, g: Matrix<S>, i: int) -> Matrix<S>
    decreases layers.len() - i,
{
    if i >= layers.len() - 1 {
        g
    } else {
        layers[i + 1].input_grad(grad_into(layers, g, i + 1))
    }
}

/// The layers after `g` has been backpropagated through all of them.
pub open spec fn chain_after_backward<S: Scalar>(
    layers: Seq<DenseState<S>>,
    g: Matrix<S>,
) -> Seq<DenseState<S>> {
    Seq::new(layers.len(), |i: int| layers[i].after_backward(grad_into(layers, g, i)))
}

/// The layer's caches come from one successful forward call on a batch of
/// `rows` rows.
pub open spec fn cached_for<S: Scalar>(layer: DenseState<S>, rows: nat) -> bool {
    &&& layer.input_cache matches Some(x) && x.wf() && x.rows == rows && x.cols == layer.w.rows
    &&& layer.preact_cache matches Some(z) && z.wf() && z.rows == rows && z.cols == layer.w.cols
}

/// A forward call on an accepted input leaves caches that fit the input.
pub proof fn lemma_forward_caches<S: Scalar>(layer: DenseState<S>, x: Matrix<S>)
    requires
        layer.wf(),
        x.wf(),
        layer.accepts(x),
    ensures
        cached_for(layer.after_forward(x), x.rows),
        layer.after_forward(x).wf(),
{
    lemma_output_shape(layer, x);
}

/// With caches that fit, a gradient of the output's shape is accepted by
/// `backward`; the gradients it stores have the shapes of the parameters,
/// and the gradient it returns has the shape of the input.
pub proof fn lemma_backward_shapes<S: Scalar>(layer: DenseState<S>, g: Matrix<S>, rows: nat)
    requires
        layer.wf(),
        cached_for(layer, rows),
        g.wf(),
        g.rows == rows,
        g.cols == layer.w.cols,
    ensures
        layer.forward_done(),
        layer.backward_ok(g),
        layer.input_grad(g).wf(),
        layer.input_grad(g).rows == rows,
        layer.input_grad(g).cols == layer.w.rows,
        layer.after_backward(g).wf(),
        layer.after_backward(g).grads_fit(),
        cached_for(layer.after_backward(g), rows),
{
}

/// The gradient into the last layer is the given one; the gradient into
/// any other layer is what the layer after it returns.
pub proof fn lemma_grad_into_step<S: Scalar>(layers: Seq<DenseState<S>>, g: Matrix<S>, i: int)
    ensures
        i >= layers.len() - 1 ==> grad_into(layers, g, i) == g,
        i < layers.len() - 1 ==> grad_into(layers, g, i) == layers[i + 1].input_grad(
            grad_into(layers, g, i + 1),
        ),
{
    reveal_with_fuel(grad_into, 2);
}

/// The gradient of cross-entropy over the softmax of `out`, against the
/// targets `target`, with respect to `out`.
pub open spec fn loss_gradient<S: Scalar>(out: Matrix<S>, target: Matrix<S>) -> Matrix<S> {
    softmax_of(out).zip_with(
        target,
        |p: S, t: S| cross_entropy_grad_value(p, t, out.rows as usize),
    )
}

/// The layers after one forward pass on the batch `bx` and one backward
/// pass of the loss gradient against the targets `by`.
pub open spec fn chain_with_gradients<S: Scalar>(
    layers: Seq<DenseState<S>>,
    bx: Matrix<S>,
    by: Matrix<S>,
) -> Seq<DenseState<S>> {
    chain_after_backward(
        chain_after_forward(layers, bx),
        loss_gradient(chain_output(layers, bx), by),
    )
}

/// Both chains have the same number of layers with the same weight shapes.
pub open spec fn same_architecture<S: Scalar>(
    a: Seq<DenseState<S>>,
    b: Seq<DenseState<S>>,
) -> bool {
    &&& a.len() == b.len()
    &&& forall|i: int|
        0 <= i < a.len() ==> (#[trigger] a[i]).w.rows == b[i].w.rows && a[i].w.cols == b[i].w.cols
}

/// Extracts the rows `start..end` of a tensor as a new tensor.
pub fn slice_rows<S: Scalar>(t: &Tensor<S>, start: usize, end: usize) -> (res: NeuroxResult<
    Tensor<S>,
>)
    requires
        t.wf(),
        start <= end <= t.rows,
    ensures
        res matches Ok(out) && out@ == t@.slice_rows(start as int, end as int) && out.wf(),
{
    runtime_assert(start <= end && end <= t.rows);
    let cols = t.cols;
    proof {
        assert((end - start) * cols <= t.rows * cols) by (nonlinear_arith)
            requires
                0 <= end - start <= t.rows,
                0 <= cols,
        ;
        assert(t.rows * t.cols == t.data.len() <= usize::MAX);
    }
    let f = |i: usize, j: usize| -> (v: S)
        requires
            i < end - start,
            j < t.cols,
        ensures
            v == t@.at(start + i, j as int),
        { t.get(start + i, j) };
    Ok(Tensor::tabulate(end - start, cols, &f, Ghost(|r: int, c: int| t@.at(start + r, c))))
}

/// The number of trainable parameters of the first `k` layers.
pub open spec fn param_total<S: Scalar>(layers: Seq<DenseState<S>>, k: nat) -> nat
    decreases k,
{
    if k == 0 {
        0
    } else {
        param_total(layers, (k - 1) as nat) + layers[k - 1].w.data.len() + layers[k
            - 1].b.data.len()
    }
}

/// The parameter count grows with the number of layers counted.
pub proof fn lemma_param_total_grows<S: Scalar>(layers: Seq<DenseState<S>>, j: nat, k: nat)
    requires
        j <= k,
    ensures
        param_total(layers, j) <= param_total(layers, k),
    decreases k,
{
    if j < k {
        lemma_param_total_grows(layers, j, (k - 1) as nat);
    }
}

/// The line of the summary that describes layer `i`.
pub open spec fn summary_line<S: Scalar>(layers: Seq<DenseState<S>>, i: int) -> Seq<char> {
    " Layer "@ + decimal_spec(i as nat) + ": Dense "@ + decimal_spec(layers[i].w.rows) + " -> "@
        + decimal_spec(layers[i].w.cols) + " (params "@ + decimal_spec(
        layers[i].w.data.len() + layers[i].b.data.len(),
    ) + ")\n"@
}

/// The lines of the summary that describe the first `k` layers.
pub open spec fn summary_lines<S: Scalar>(layers: Seq<DenseState<S>>, k: nat) -> Seq<char>
    decreases k,
{
    if k == 0 {
        Seq::empty()
    } else {
        summary_lines(layers, (k - 1) as nat) + summary_line(layers, k - 1)
    }
}

/// The summary of a model: a heading, one line per layer with its shape
/// and its number of parameters, and the total number of parameters.
pub open spec fn summary_text<S: Scalar>(layers: Seq<DenseState<S>>) -> Seq<char> {
    "Model Summary:\n"@ + summary_lines(layers, layers.len()) + "Total params: "@ + decimal_spec(
        param_total(layers, layers.len()),
    ) + "\n"@
}

/// A sequential feed-forward network.
pub struct Model<S> {
    pub layers: Vec<Dense<S>>,
}

impl<S: Scalar> View for Model<S> {
    type V = Seq<DenseState<S>>;

    open spec fn view(&self) -> Seq<DenseState<S>> {
        layer_states(self.layers@)
    }
}

impl<S: Scalar> Model<S> {
    /// The layers form a well-formed chain.
    pub open spec fn wf(&self) -> bool {
        chain_wf(self@)
    }

    /// Builds a model from layer widths: one dense layer for each pair of
    /// neighbouring widths, all with the same activation and random
    /// parameters.
    pub fn new(layer_sizes: &[usize], activation: Activation) -> (model: Self)
        requires
            forall|i: int|
                0 <= i < layer_sizes@.len() - 1 ==> #[trigger] layer_sizes@[i] * layer_sizes@[i
                    + 1] <= usize::MAX,
        ensures
            model.wf(),
            model@.len() == if layer_sizes@.len() == 0 {
                0
            } else {
                layer_sizes@.len() - 1
            },
            forall|i: int|
                0 <= i < model@.len() ==> {
                    &&& (#[trigger] model@[i]).w.rows == layer_sizes@[i]
                    &&& model@[i].w.cols == layer_sizes@[i + 1]
                    &&& model@[i].activation == activation
                    &&& model@[i].w.sampled()
                    &&& model@[i].b.sampled()
                    &&& model@[i].input_cache is None
                    &&& model@[i].preact_cache is None
                    &&& model@[i].grad_w is None
                    &&& model@[i].grad_b is None
                },
    {
        let mut layers: Vec<Dense<S>> = Vec::new();
        let n = layer_sizes.len();
        let mut i: usize = 0;
        while i + 1 < n
            invariant
                n == layer_sizes@.len(),
                i <= n,
                layers@.len() == i,
                n > 0 ==> i <= n - 1,
                forall|j: int|
                    0 <= j < layer_sizes@.len() - 1 ==> #[trigger] layer_sizes@[j] * layer_sizes@[j
                        + 1] <= usize::MAX,
                forall|j: int|
                    0 <= j < i ==> {
                        &&& (#[trigger] layers@[j]).wf()
                        &&& layers@[j].w.rows == layer_sizes@[j]
                        &&& layers@[j].w.cols == layer_sizes@[j + 1]
                        &&& layers@[j].activation == activation
                        &&& layers@[j]@.w.sampled()
                        &&& layers@[j]@.b.sampled()
                        &&& layers@[j]@.input_cache is None
                        &&& layers@[j]@.preact_cache is None
                        &&& layers@[j]@.grad_w is None
                        &&& layers@[j]@.grad_b is None
                    },
            decreases n - i,
        {
            layers.push(Dense::new(layer_sizes[i], layer_sizes[i + 1], activation));
            i += 1;
        }
        Model { layers }
    }

    /// The number of layers.
    pub fn layer_count(&self) -> (n: usize)
        ensures
            n == self@.len(),
    {
        self.layers.len()
    }

    /// The shape of the weights of layer `i`: input features, output
    /// features.
    pub fn layer_shape(&self, i: usize) -> (shape: (usize, usize))
        requires
            i < self@.len(),
        ensures
            shape.0 == self@[i as int].w.rows,
            shape.1 == self@[i as int].w.cols,
    {
        (self.layers[i].w.rows, self.layers[i].w.cols)
    }

    /// The total number of trainable parameters, which must fit the
    /// machine's word.
    pub fn num_params(&self) -> (total: usize)
        requires
            param_total(self@, self@.len()) <= usize::MAX,
        ensures
            total == param_total(self@, self@.len()),
    {
        let n = self.layers.len();
        let mut total: usize = 0;
        let mut i: usize = 0;
        while i < n
            invariant
                i <= n,
                n == self@.len(),
                n == self.layers@.len(),
                param_total(self@, n as nat) <= usize::MAX,
                total == param_total(self@, i as nat),
            decreases n - i,
        {
            proof {
                lemma_param_total_grows(self@, (i + 1) as nat, n as nat);
                assert(self@[i as int] == self.layers@[i as int]@);
            }
            total = total + self.layers[i].num_params();
            i += 1;
        }
        total
    }

    /// Writes the line of the summary that describes layer `i`.
    fn summary_line(&self, i: usize) -> (text: String)
        requires
            i < self@.len(),
            self@[i as int].w.data.len() + self@[i as int].b.data.len() <= usize::MAX,
        ensures
            text@ == summary_line(self@, i as int),
    {
        let layer = &self.layers[i];
        assert(self@[i as int] == layer@);
        let mut text = " Layer ".to_owned();
        text.append(decimal(i).as_str());
        text.append(": Dense ");
        text.append(decimal(layer.w.rows).as_str());
        text.append(" -> ");
        text.append(decimal(layer.w.cols).as_str());
        text.append(" (params ");
        text.append(decimal(layer.num_params()).as_str());
        text.append(")\n");
        assert(text@ =~= summary_line(self@, i as int));
        text
    }

    /// Writes a summary of the architecture and the parameter counts: a
    /// heading, a line per layer, and the total.
    pub fn summary(&self) -> (text: String)
        requires
            param_total(self@, self@.len()) <= usize::MAX,
        ensures
            text@ == summary_text(self@),
    {
        let n = self.layers.len();
        let mut text = "Model Summary:\n".to_owned();
        let mut total: usize = 0;
        let mut i: usize = 0;
        while i < n
            invariant
                i <= n,
                n == self@.len(),
                n == self.layers@.len(),
                param_total(self@, n as nat) <= usize::MAX,
                total == param_total(self@, i as nat),
                text@ == "Model Summary:\n"@ + summary_lines(self@, i as nat),
            decreases n - i,
        {
            proof {
                lemma_param_total_grows(self@, (i + 1) as nat, n as nat);
                assert(self@[i as int] == self.layers@[i as int]@);
            }
            let line = self.summary_line(i);
            text.append(line.as_str());
            total = total + self.layers[i].num_params();
            i += 1;
            assert(text@ =~= "Model Summary:\n"@ + summary_lines(self@, i as nat));
        }
        text.append("Total params: ");
        text.append(decimal(total).as_str());
        text.append("\n");
        assert(text@ =~= summary_text(self@));
        text
    }

    /// Runs the input through every layer in order and returns the last
    /// layer's output.
    ///
    /// Fails with a shape mismatch unless the input is as wide as the first
    /// layer expects.
    pub fn forward(&mut self, input: &Tensor<S>) -> (res: NeuroxResult<Tensor<S>>)
        requires
            old(self).wf(),
            input.wf(),
            chain_accepts(old(self)@, input@) ==> forall|i: int|
                0 <= i < old(self)@.len() ==> input.rows * (#[trigger] old(self)@[i]).w.cols
                    <= usize::MAX,
        ensures
            final(self)@ == chain_after_forward(old(self)@, input@),
            final(self).wf(),
            same_architecture(final(self)@, old(self)@),
            chain_accepts(old(self)@, input@) ==> (res matches Ok(out) && out@ == chain_output(
                old(self)@,
                input@,
            ) && out.wf() && out.rows == input.rows && out.cols == chain_width(
                old(self)@,
                input.cols as nat,
            )),
            !chain_accepts(old(self)@, input@) ==> is_shape_mismatch(
                res,
                "a.cols must equal b.rows for matmul"@,
            ),
    {
        let ghost before = self@;
        proof {
            lemma_signal_step(before, input@, 0);
            if chain_accepts(before, input@) {
                lemma_signal_shape(before, input@, before.len());
            }
        }
        let mut x = input.clone();
        let n = self.layers.len();
        let mut i: usize = 0;
        while i < n
            invariant
                i <= n,
                n == before.len(),
                before == old(self)@,
                self.layers@.len() == n,
                chain_wf(before),
                input.wf(),
                x.wf(),
                i > 0 ==> chain_accepts(before, input@),
                chain_accepts(before, input@) ==> forall|j: int|
                    0 <= j < before.len() ==> input.rows * (#[trigger] before[j]).w.cols
                        <= usize::MAX,
                x@ == signal(before, input@, i as nat),
                forall|j: int|
                    0 <= j < i ==> (#[trigger] self.layers@[j])@ == before[j].after_forward(
                        signal(before, input@, j as nat),
                    ),
                forall|j: int| i <= j < n ==> (#[trigger] self.layers@[j])@ == before[j],
                forall|j: int|
                    0 <= j < n ==> (#[trigger] self.layers@[j]).wf() && self.layers@[j]@.w
                        == before[j].w,
            decreases n - i,
        {
            proof {
                lemma_signal_step(before, input@, i as nat);
                if chain_accepts(before, input@) {
                    lemma_signal_shape(before, input@, i as nat);
                }
            }
            x = match self.layers[i].forward(&x) {
                Ok(out) => out,
                Err(e) => {
                    assert(i == 0);
                    assert(self@ =~= before.update(0, before[0].after_forward(input@)));
                    assert(chain_wf(self@));
                    return Err(e);
                },
            };
            i += 1;
        }
        proof {
            if n > 0 {
                assert(chain_accepts(before, input@));
                assert forall|j: int| 0 <= j < n implies self@[j] == chain_after_forward(
                    before,
                    input@,
                )[j] by {
                    assert(self@[j] == self.layers@[j]@);
                }
            }
            assert(self@ =~= chain_after_forward(before, input@));
            assert(chain_wf(self@));
        }
        Ok(x)
    }
    /// Backpropagates `grad`, the gradient of the loss with respect to the
    /// output of the last forward pass, through the layers in reverse
    /// order. Every layer must hold the caches of that pass, on a batch of
    /// as many rows as `grad` has.
    fn backpropagate(&mut self, grad: Tensor<S>) -> (res: NeuroxResult<()>)
        requires
            old(self).wf(),
            grad.wf(),
            grad.cols == chain_width(old(self)@, grad.cols as nat),
            forall|i: int|
                0 <= i < old(self)@.len() ==> cached_for(
                    #[trigger] old(self)@[i],
                    grad.rows as nat,
                ),
            forall|i: int|
                0 <= i < old(self)@.len() ==> grad.rows * (#[trigger] old(self)@[i]).w.rows
                    <= usize::MAX,
        ensures
            res is Ok,
            final(self)@ == chain_after_backward(old(self)@, grad@),
            final(self).wf(),
            forall|i: int|
                0 <= i < final(self)@.len() ==> (#[trigger] final(self)@[i]).grads_fit()
                    && cached_for(final(self)@[i], grad.rows as nat),
    {
        let ghost before = self@;
        let ghost g = grad@;
        let ghost rows = grad.rows as nat;
        let n = self.layers.len();
        let mut upstream = grad;
        let mut k: usize = n;
        proof {
            lemma_grad_into_step(before, g, n as int - 1);
        }
        while k > 0
            invariant
                k <= n,
                n == before.len(),
                before == old(self)@,
                self.layers@.len() == n,
                chain_wf(before),
                upstream.wf(),
                upstream.rows == rows,
                rows <= usize::MAX,
                k > 0 ==> upstream.cols == before[k - 1].w.cols,
                upstream@ == grad_into(before, g, k as int - 1),
                forall|j: int| 0 <= j < n ==> cached_for(#[trigger] before[j], rows),
                forall|j: int| 0 <= j < n ==> rows * (#[trigger] before[j]).w.rows <= usize::MAX,
                forall|j: int| 0 <= j < k ==> (#[trigger] self.layers@[j])@ == before[j],
                forall|j: int|
                    k <= j < n ==> (#[trigger] self.layers@[j])@ == before[j].after_backward(
                        grad_into(before, g, j),
                    ),
                forall|j: int|
                    0 <= j < n ==> {
                        &&& (#[trigger] self.layers@[j]).wf()
                        &&& self.layers@[j]@.w == before[j].w
                        &&& cached_for(self.layers@[j]@, rows)
                    },
                forall|j: int| k <= j < n ==> (#[trigger] self.layers@[j])@.grads_fit(),
            decreases k,
        {
            let i = k - 1;
            proof {
                lemma_backward_shapes(before[i as int], upstream@, rows);
                lemma_grad_into_step(before, g, i as int - 1);
                let w = self.layers@[i as int].w;
                assert(w.rows * w.cols == w.data.len() <= usize::MAX);
                assert(before[i as int].input_cache->0.cols == w.rows);
                assert(upstream.cols == w.cols);
            }
            upstream = match self.layers[i].backward(&upstream) {
                Ok(t) => t,
                Err(e) => {
                    return Err(e);
                },
            };
            k = i;
        }
        proof {
            assert forall|j: int| 0 <= j < n implies self@[j] == chain_after_backward(
                before,
                g,
            )[j] by {
                assert(self@[j] == self.layers@[j]@);
            }
            assert(self@ =~= chain_after_backward(before, g));
            assert(chain_wf(self@));
        }
        Ok(())
    }
    /// One forward pass on the batch `bx`, softmax and cross-entropy
    /// against the targets `by`, and one backward pass: afterwards every
    /// layer holds the gradients of the loss on this batch.
    pub(crate) fn compute_gradients(&mut self, bx: &Tensor<S>, by: &Tensor<S>) -> (res:
        NeuroxResult<()>)
        requires
            old(self).wf(),
            bx.wf(),
            by.wf(),
            by.rows == bx.rows,
            chain_accepts(old(self)@, bx@) ==> by.cols == chain_width(old(self)@, bx.cols as nat),
            chain_accepts(old(self)@, bx@) ==> forall|i: int|
                0 <= i < old(self)@.len() ==> bx.rows * (#[trigger] old(self)@[i]).w.cols
                    <= usize::MAX,
        ensures
            final(self).wf(),
            same_architecture(final(self)@, old(self)@),
            chain_accepts(old(self)@, bx@) ==> res is Ok && final(self)@ == chain_with_gradients(
                old(self)@,
                bx@,
                by@,
            ) && forall|i: int|
                0 <= i < final(self)@.len() ==> (#[trigger] final(self)@[i]).grads_fit(),
            !chain_accepts(old(self)@, bx@) ==> is_shape_mismatch(
                res,
                "a.cols must equal b.rows for matmul"@,
            ) && final(self)@ == chain_after_forward(old(self)@, bx@),
    {
        let ghost before = self@;
        let preds = match self.forward(bx) {
            Ok(t) => t,
            Err(e) => {
                return Err(e);
            },
        };
        let probs = softmax(&preds);
        proof {
            let n = before.len();
            lemma_signal_shape(before, bx@, n);
            assert forall|i: int| 0 <= i < n implies cached_for(
                #[trigger] self@[i],
                bx.rows as nat,
            ) && self@[i].w == before[i].w by {
                lemma_signal_shape(before, bx@, i as nat);
                lemma_forward_caches(before[i], signal(before, bx@, i as nat));
            }
            assert(bx.rows * bx.cols == bx.data.len() <= usize::MAX);
            assert forall|i: int| 0 <= i < n implies bx.rows * (#[trigger] self@[i]).w.rows
                <= usize::MAX by {
                if i > 0 {
                    assert(before[i - 1].w.cols == before[i].w.rows);
                }
            }
        }
        let (_loss, grad) = cross_entropy_loss(&probs, by);
        self.backpropagate(grad)
    }
}

} // verus!
