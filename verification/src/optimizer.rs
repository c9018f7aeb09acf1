//! Parameter update rules: plain gradient descent and Adam.
use crate::layers::{layer_states, Dense, DenseState};
use crate::scalar::{one, ratio, zero, Scalar};
use crate::tensor::{buffers, filled, Matrix};
use vstd::pervasive::runtime_assert;
use vstd::prelude::*;

verus! {

/// Plain gradient descent with a fixed learning rate.
pub struct SGD<S> {
    pub lr: S,
}

/// Every layer is well formed and its gradients have the shapes of its
/// parameters.
pub open spec fn ready_for_update<S: Scalar>(layers: Seq<Dense<S>>) -> bool {
    forall|i: int| 0 <= i < layers.len() ==> (#[trigger] layers[i]).wf() && layers[i]@.grads_fit()
}

impl<S: Scalar> SGD<S> {
    /// Creates the optimizer with the given learning rate.
    pub fn new(lr: S) -> (opt: Self)
        ensures
            opt.lr == lr,
    {
        SGD { lr }
    }

    /// One step: every layer applies its gradients with this learning rate.
    /// Layers without gradients are left as they are.
    pub fn step(&self, layers: &mut [Dense<S>])
        requires
            ready_for_update(old(layers)@),
        ensures
            final(layers)@.len() == old(layers)@.len(),
            forall|i: int|
                0 <= i < old(layers)@.len() ==> (#[trigger] final(layers)@[i])@
                    == old(layers)@[i]@.apply_gradients(self.lr),
            ready_for_update(final(layers)@),
    {
        let ghost before = layers@;
        let n = layers.len();
        let mut i: usize = 0;
        while i < n
            invariant
                i <= n,
                n == before.len(),
                layers@.len() == n,
                ready_for_update(before),
                forall|j: int|
                    0 <= j < i ==> (#[trigger] layers@[j])@ == before[j]@.apply_gradients(self.lr),
                forall|j: int|
                    0 <= j < i ==> (#[trigger] layers@[j]).wf() && layers@[j]@.grads_fit(),
                forall|j: int| i <= j < n ==> #[trigger] layers@[j] == before[j],
            decreases n - i,
        {
            layers[i].apply_gradients(self.lr);
            i += 1;
        }
    }
}

/// The first-moment estimate after a gradient `g`:
/// `beta1 * m + (1 - beta1) * g`.
pub open spec fn first_moment<S: Scalar>(beta1: S, m: S, g: S) -> S {
    beta1.mul_spec(m).add_spec(one::<S>().sub_spec(beta1).mul_spec(g))
}

/// The second-moment estimate after a gradient `g`:
/// `beta2 * v + (1 - beta2) * g * g`.
pub open spec fn second_moment<S: Scalar>(beta2: S, v: S, g: S) -> S {
    beta2.mul_spec(v).add_spec(one::<S>().sub_spec(beta2).mul_spec(g.mul_spec(g)))
}

/// A moment estimate corrected for its bias at step `t`:
/// `x / (1 - beta^t)`. The exponent is the step counter cut to 32 bits.
pub open spec fn bias_corrected<S: Scalar>(x: S, beta: S, t: usize) -> S {
    x.div_spec(one::<S>().sub_spec(beta.powi_spec(t as i32)))
}

/// The parameter after an Adam update:
/// `p - lr * m_hat / (sqrt(v_hat) + eps)`.
pub open spec fn adam_param<S: Scalar>(p: S, lr: S, eps: S, m_hat: S, v_hat: S) -> S {
    p.sub_spec(lr.mul_spec(m_hat).div_spec(v_hat.sqrt_spec().add_spec(eps)))
}

/// The hyperparameters of Adam and the step they are applied at.
pub struct AdamRule<S> {
    pub lr: S,
    pub beta1: S,
    pub beta2: S,
    pub eps: S,
    pub t: usize,
}

impl<S: Scalar> AdamRule<S> {
    /// The first moments of a parameter buffer after the gradients `g`.
    pub open spec fn next_m(self, m: Seq<S>, g: Seq<S>) -> Seq<S> {
        Seq::new(m.len(), |i: int| first_moment(self.beta1, m[i], g[i]))
    }

    /// The second moments of a parameter buffer after the gradients `g`.
    pub open spec fn next_v(self, v: Seq<S>, g: Seq<S>) -> Seq<S> {
        Seq::new(v.len(), |i: int| second_moment(self.beta2, v[i], g[i]))
    }

    /// The parameter at slot `i` after the update, from the moments before it.
    pub open spec fn next_param(self, p: S, m: S, v: S, g: S) -> S {
        adam_param(
            p,
            self.lr,
            self.eps,
            bias_corrected(first_moment(self.beta1, m, g), self.beta1, self.t),
            bias_corrected(second_moment(self.beta2, v, g), self.beta2, self.t),
        )
    }

    /// A parameter buffer after the update, from the moments before it.
    pub open spec fn next_p(self, p: Seq<S>, m: Seq<S>, v: Seq<S>, g: Seq<S>) -> Seq<S> {
        Seq::new(p.len(), |i: int| self.next_param(p[i], m[i], v[i], g[i]))
    }

    /// A parameter tensor after the update.
    pub open spec fn next_tensor(self, p: Matrix<S>, m: Seq<S>, v: Seq<S>, g: Seq<S>) -> Matrix<
        S,
    > {
        Matrix { rows: p.rows, cols: p.cols, data: self.next_p(p.data, m, v, g) }
    }
}

/// The mathematical value of an Adam optimizer.
pub struct AdamState<S> {
    pub lr: S,
    pub beta1: S,
    pub beta2: S,
    pub eps: S,
    pub t: usize,
    pub m_w: Seq<Seq<S>>,
    pub v_w: Seq<Seq<S>>,
    pub m_b: Seq<Seq<S>>,
    pub v_b: Seq<Seq<S>>,
}

/// The layer holds both gradients, so an Adam step updates it.
pub open spec fn has_grads<S: Scalar>(layer: DenseState<S>) -> bool {
    layer.grad_w is Some && layer.grad_b is Some
}

impl<S: Scalar> AdamState<S> {
    /// The optimizer as created for `layers` with learning rate `lr`: zero
    /// moments, no step taken, `beta1` nine tenths, `beta2` 999
    /// thousandths, `eps` one hundred-millionth.
    pub open spec fn initial(lr: S, layers: Seq<DenseState<S>>) -> Self {
        AdamState {
            lr,
            beta1: ratio::<S>(9, 10),
            beta2: ratio::<S>(999, 1000),
            eps: ratio::<S>(1, 100_000_000),
            t: 0,
            m_w: Seq::new(
                layers.len(),
                |i: int| Seq::new(layers[i].w.data.len(), |k: int| zero::<S>()),
            ),
            v_w: Seq::new(
                layers.len(),
                |i: int| Seq::new(layers[i].w.data.len(), |k: int| zero::<S>()),
            ),
            m_b: Seq::new(
                layers.len(),
                |i: int| Seq::new(layers[i].b.data.len(), |k: int| zero::<S>()),
            ),
            v_b: Seq::new(
                layers.len(),
                |i: int| Seq::new(layers[i].b.data.len(), |k: int| zero::<S>()),
            ),
        }
    }

    /// The optimizer holds, for every layer, moment buffers as long as the
    /// layer's weight and bias buffers.
    pub open spec fn matches(self, layers: Seq<DenseState<S>>) -> bool {
        &&& self.m_w.len() == layers.len()
        &&& self.v_w.len() == layers.len()
        &&& self.m_b.len() == layers.len()
        &&& self.v_b.len() == layers.len()
        &&& forall|i: int|
            0 <= i < layers.len() ==> {
                &&& (#[trigger] self.m_w[i]).len() == layers[i].w.data.len()
                &&& self.v_w[i].len() == layers[i].w.data.len()
                &&& self.m_b[i].len() == layers[i].b.data.len()
                &&& self.v_b[i].len() == layers[i].b.data.len()
            }
    }

    /// The rule of the step that follows this state: the counter is one
    /// more than the number of steps taken.
    pub open spec fn rule(self) -> AdamRule<S> {
        AdamRule {
            lr: self.lr,
            beta1: self.beta1,
            beta2: self.beta2,
            eps: self.eps,
            t: (self.t + 1) as usize,
        }
    }

    /// Layer `i` after a step taken from this state.
    pub open spec fn step_layer(self, layer: DenseState<S>, i: int) -> DenseState<S> {
        if has_grads(layer) {
            DenseState {
                w: self.rule().next_tensor(
                    layer.w,
                    self.m_w[i],
                    self.v_w[i],
                    layer.grad_w->0.data,
                ),
                b: self.rule().next_tensor(
                    layer.b,
                    self.m_b[i],
                    self.v_b[i],
                    layer.grad_b->0.data,
                ),
                ..layer
            }
        } else {
            layer
        }
    }

    /// The optimizer after a step on `layers`: the counter advances, and the
    /// moments of every layer that holds gradients are updated.
    pub open spec fn after_step(self, layers: Seq<DenseState<S>>) -> Self {
        AdamState {
            t: (self.t + 1) as usize,
            m_w: Seq::new(
                self.m_w.len(),
                |i: int|
                    if has_grads(layers[i]) {
                        self.rule().next_m(self.m_w[i], layers[i].grad_w->0.data)
                    } else {
                        self.m_w[i]
                    },
            ),
            v_w: Seq::new(
                self.v_w.len(),
                |i: int|
                    if has_grads(layers[i]) {
                        self.rule().next_v(self.v_w[i], layers[i].grad_w->0.data)
                    } else {
                        self.v_w[i]
                    },
            ),
            m_b: Seq::new(
                self.m_b.len(),
                |i: int|
                    if has_grads(layers[i]) {
                        self.rule().next_m(self.m_b[i], layers[i].grad_b->0.data)
                    } else {
                        self.m_b[i]
                    },
            ),
            v_b: Seq::new(
                self.v_b.len(),
                |i: int|
                    if has_grads(layers[i]) {
                        self.rule().next_v(self.v_b[i], layers[i].grad_b->0.data)
                    } else {
                        self.v_b[i]
                    },
            ),
            ..self
        }
    }
}

/// The Adam optimizer: per-parameter moving averages of the gradient and of
/// its square, kept per layer by the layer's position.
pub struct Adam<S> {
    pub lr: S,
    pub beta1: S,
    pub beta2: S,
    pub eps: S,
    pub t: usize,
    /// First moments of the weights, one buffer per layer.
    pub m_w: Vec<Vec<S>>,
    /// Second moments of the weights, one buffer per layer.
    pub v_w: Vec<Vec<S>>,
    /// First moments of the biases, one buffer per layer.
    pub m_b: Vec<Vec<S>>,
    /// Second moments of the biases, one buffer per layer.
    pub v_b: Vec<Vec<S>>,
}

impl<S: Scalar> View for Adam<S> {
    type V = AdamState<S>;

    open spec fn view(&self) -> AdamState<S> {
        AdamState {
            lr: self.lr,
            beta1: self.beta1,
            beta2: self.beta2,
            eps: self.eps,
            t: self.t,
            m_w: buffers(self.m_w),
            v_w: buffers(self.v_w),
            m_b: buffers(self.m_b),
            v_b: buffers(self.v_b),
        }
    }
}

/// Updates one parameter buffer and its two moment buffers in place from
/// the gradients `g`.
fn update_buffer<S: Scalar>(
    rule: &AdamRule<S>,
    p: &mut Vec<S>,
    m: &mut Vec<S>,
    v: &mut Vec<S>,
    g: &Vec<S>,
)
    requires
        old(m)@.len() == old(p)@.len(),
        old(v)@.len() == old(p)@.len(),
        g@.len() == old(p)@.len(),
    ensures
        final(m)@ == rule.next_m(old(m)@, g@),
        final(v)@ == rule.next_v(old(v)@, g@),
        final(p)@ == rule.next_p(old(p)@, old(m)@, old(v)@, g@),
{
    let ghost p_old = p@;
    let ghost m_old = m@;
    let ghost v_old = v@;
    let n = p.len();
    runtime_assert(m.len() == n && v.len() == n && g.len() == n);
    let mut i: usize = 0;
    while i < n
        invariant
            i <= n,
            n == p_old.len(),
            p@.len() == n,
            m@.len() == n,
            v@.len() == n,
            m_old.len() == n,
            v_old.len() == n,
            g@.len() == n,
            forall|k: int|
                0 <= k < i ==> #[trigger] m@[k] == first_moment(rule.beta1, m_old[k], g@[k]),
            forall|k: int|
                0 <= k < i ==> #[trigger] v@[k] == second_moment(rule.beta2, v_old[k], g@[k]),
            forall|k: int|
                0 <= k < i ==> #[trigger] p@[k] == rule.next_param(
                    p_old[k],
                    m_old[k],
                    v_old[k],
                    g@[k],
                ),
            forall|k: int| i <= k < n ==> #[trigger] m@[k] == m_old[k],
            forall|k: int| i <= k < n ==> #[trigger] v@[k] == v_old[k],
            forall|k: int| i <= k < n ==> #[trigger] p@[k] == p_old[k],
        decreases n - i,
    {
        let grad = g[i];
        let one = S::from_count(1);
        let m_new = rule.beta1.mul(m[i]).add(one.sub(rule.beta1).mul(grad));
        m.set(i, m_new);
        let v_new = rule.beta2.mul(v[i]).add(one.sub(rule.beta2).mul(grad.mul(grad)));
        v.set(i, v_new);
        let m_hat = m_new.div(one.sub(rule.beta1.powi(rule.t as i32)));
        let v_hat = v_new.div(one.sub(rule.beta2.powi(rule.t as i32)));
        let p_new = p[i].sub(rule.lr.mul(m_hat).div(v_hat.sqrt().add(rule.eps)));
        p.set(i, p_new);
        i += 1;
    }
    assert(m@ =~= rule.next_m(m_old, g@));
    assert(v@ =~= rule.next_v(v_old, g@));
    assert(p@ =~= rule.next_p(p_old, m_old, v_old, g@));
}

/// One zero-filled buffer per layer, as long as the layer's weight buffer
/// (`weights`) or bias buffer.
fn zero_buffers<S: Scalar>(layers: &Vec<Dense<S>>, weights: bool) -> (out: Vec<Vec<S>>)
    ensures
        out@.len() == layers@.len(),
        forall|i: int|
            0 <= i < layers@.len() ==> (#[trigger] out@[i])@ == Seq::new(
                if weights {
                    layers@[i].w.data@.len()
                } else {
                    layers@[i].b.data@.len()
                },
                |k: int| S::from_count_spec(0),
            ),
{
    let mut out: Vec<Vec<S>> = Vec::new();
    let n = layers.len();
    let mut i: usize = 0;
    while i < n
        invariant
            i <= n,
            n == layers@.len(),
            out@.len() == i,
            forall|j: int|
                0 <= j < i ==> (#[trigger] out@[j])@ == Seq::new(
                    if weights {
                        layers@[j].w.data@.len()
                    } else {
                        layers@[j].b.data@.len()
                    },
                    |k: int| S::from_count_spec(0),
                ),
        decreases n - i,
    {
        let len = if weights {
            layers[i].w.data.len()
        } else {
            layers[i].b.data.len()
        };
        out.push(filled(len, S::from_count(0)));
        i += 1;
    }
    out
}

impl<S: Scalar> Adam<S> {
    /// Creates the optimizer for the given layers, with zero moments, the
    /// step counter at zero and the usual hyperparameters: `beta1` nine
    /// tenths, `beta2` 999 thousandths, `eps` one hundred-millionth.
    pub fn new(lr: S, layers: &Vec<Dense<S>>) -> (adam: Self)
        ensures
            adam@ == AdamState::initial(lr, layer_states(layers@)),
            adam@.matches(layer_states(layers@)),
    {
        let m_w = zero_buffers(layers, true);
        let v_w = zero_buffers(layers, true);
        let m_b = zero_buffers(layers, false);
        let v_b = zero_buffers(layers, false);
        let adam = Adam {
            lr,
            beta1: S::from_count(9).div(S::from_count(10)),
            beta2: S::from_count(999).div(S::from_count(1000)),
            eps: S::from_count(1).div(S::from_count(100_000_000)),
            t: 0,
            m_w,
            v_w,
            m_b,
            v_b,
        };
        proof {
            let init = AdamState::initial(lr, layer_states(layers@));
            assert(adam@.m_w =~= init.m_w);
            assert(adam@.v_w =~= init.v_w);
            assert(adam@.m_b =~= init.m_b);
            assert(adam@.v_b =~= init.v_b);
        }
        adam
    }

    /// One Adam step: the counter advances, then every layer that holds
    /// both gradients has its moments and parameters updated. Layers
    /// without gradients are skipped.
    pub fn step(&mut self, layers: &mut [Dense<S>])
        requires
            old(self).t < usize::MAX,
            ready_for_update(old(layers)@),
            old(self)@.matches(layer_states(old(layers)@)),
        ensures
            final(self)@ == old(self)@.after_step(layer_states(old(layers)@)),
            final(layers)@.len() == old(layers)@.len(),
            forall|i: int|
                0 <= i < old(layers)@.len() ==> (#[trigger] final(layers)@[i])@
                    == old(self)@.step_layer(old(layers)@[i]@, i),
            ready_for_update(final(layers)@),
            final(self)@.matches(layer_states(final(layers)@)),
    {
        let ghost before = layers@;
        let ghost start = self@;
        proof {
            assert(layer_states(before).len() == before.len());
        }
        runtime_assert(
            self.m_w.len() == layers.len() && self.v_w.len() == layers.len() && self.m_b.len()
                == layers.len() && self.v_b.len() == layers.len(),
        );
        self.t += 1;
        let rule = AdamRule {
            lr: self.lr,
            beta1: self.beta1,
            beta2: self.beta2,
            eps: self.eps,
            t: self.t,
        };
        let n = layers.len();
        let mut li: usize = 0;
        while li < n
            invariant
                li <= n,
                n == before.len(),
                layers@.len() == n,
                rule == start.rule(),
                ready_for_update(before),
                start.matches(layer_states(before)),
                self.lr == start.lr,
                self.beta1 == start.beta1,
                self.beta2 == start.beta2,
                self.eps == start.eps,
                self.t == start.t + 1,
                self.m_w@.len() == n,
                self.v_w@.len() == n,
                self.m_b@.len() == n,
                self.v_b@.len() == n,
                forall|j: int|
                    0 <= j < li ==> (#[trigger] layers@[j])@ == start.step_layer(before[j]@, j),
                forall|j: int|
                    0 <= j < li ==> (#[trigger] layers@[j]).wf() && layers@[j]@.grads_fit(),
                forall|j: int| li <= j < n ==> #[trigger] layers@[j] == before[j],
                forall|j: int|
                    0 <= j < li ==> (#[trigger] self.m_w@[j])@ == start.after_step(
                        layer_states(before),
                    ).m_w[j],
                forall|j: int|
                    0 <= j < li ==> (#[trigger] self.v_w@[j])@ == start.after_step(
                        layer_states(before),
                    ).v_w[j],
                forall|j: int|
                    0 <= j < li ==> (#[trigger] self.m_b@[j])@ == start.after_step(
                        layer_states(before),
                    ).m_b[j],
                forall|j: int|
                    0 <= j < li ==> (#[trigger] self.v_b@[j])@ == start.after_step(
                        layer_states(before),
                    ).v_b[j],
                forall|j: int| li <= j < n ==> (#[trigger] self.m_w@[j])@ == start.m_w[j],
                forall|j: int| li <= j < n ==> (#[trigger] self.v_w@[j])@ == start.v_w[j],
                forall|j: int| li <= j < n ==> (#[trigger] self.m_b@[j])@ == start.m_b[j],
                forall|j: int| li <= j < n ==> (#[trigger] self.v_b@[j])@ == start.v_b[j],
            decreases n - li,
        {
            let l = &mut layers[li];
            if let (Some(gw), Some(gb)) = (&l.grad_w, &l.grad_b) {
                update_buffer(&rule, &mut l.w.data, &mut self.m_w[li], &mut self.v_w[li], &gw.data);
                update_buffer(&rule, &mut l.b.data, &mut self.m_b[li], &mut self.v_b[li], &gb.data);
            }
            li += 1;
        }
        assert(self@.m_w =~= start.after_step(layer_states(before)).m_w);
        assert(self@.v_w =~= start.after_step(layer_states(before)).v_w);
        assert(self@.m_b =~= start.after_step(layer_states(before)).m_b);
        assert(self@.v_b =~= start.after_step(layer_states(before)).v_b);
    }
}

} // verus!
