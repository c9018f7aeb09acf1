use neurox::activations;
use neurox::data::{tensor_from_csv, tensor_from_rows, train_test_split};
use neurox::layers::Activation;
use neurox::loss;
use neurox::model::slice_rows;
use neurox::ops;
use neurox::scalar::Text;
use neurox::{Adam, Dense, Model, NeuroxError, Scalar, Tensor, SGD};
use rand::rngs::StdRng;
use rand::{Rng, SeedableRng};
use std::sync::atomic::AtomicU64;

/// How many samples this process has drawn: the seed of the next one, so
/// that every run of a test starts from the same parameters.
static DRAWN: AtomicU64 = AtomicU64::new(0);

/// Single-precision floating point as the scalar of the toolkit.
#[derive(Clone, Copy, Debug, PartialEq)]
struct F(f32);

impl Scalar for F {
    fn from_count_spec(n: usize) -> Self {
        F(n as f32)
    }

    fn from_count(n: usize) -> Self {
        F(n as f32)
    }

    fn lowest_spec() -> Self {
        F(f32::NEG_INFINITY)
    }

    fn lowest() -> Self {
        F(f32::NEG_INFINITY)
    }

    fn add_spec(self, rhs: Self) -> Self {
        F(self.0 + rhs.0)
    }

    fn add(self, rhs: Self) -> Self {
        F(self.0 + rhs.0)
    }

    fn sub_spec(self, rhs: Self) -> Self {
        F(self.0 - rhs.0)
    }

    fn sub(self, rhs: Self) -> Self {
        F(self.0 - rhs.0)
    }

    fn mul_spec(self, rhs: Self) -> Self {
        F(self.0 * rhs.0)
    }

    fn mul(self, rhs: Self) -> Self {
        F(self.0 * rhs.0)
    }

    fn div_spec(self, rhs: Self) -> Self {
        F(self.0 / rhs.0)
    }

    fn div(self, rhs: Self) -> Self {
        F(self.0 / rhs.0)
    }

    fn neg_spec(self) -> Self {
        F(-self.0)
    }

    fn neg(self) -> Self {
        F(-self.0)
    }

    fn exp_spec(self) -> Self {
        F(self.0.exp())
    }

    fn exp(self) -> Self {
        F(self.0.exp())
    }

    fn ln_spec(self) -> Self {
        F(self.0.ln())
    }

    fn ln(self) -> Self {
        F(self.0.ln())
    }

    fn tanh_spec(self) -> Self {
        F(self.0.tanh())
    }

    fn tanh(self) -> Self {
        F(self.0.tanh())
    }

    fn sqrt_spec(self) -> Self {
        F(self.0.sqrt())
    }

    fn sqrt(self) -> Self {
        F(self.0.sqrt())
    }

    fn powi_spec(self, n: i32) -> Self {
        F(self.0.powi(n))
    }

    fn powi(self, n: i32) -> Self {
        F(self.0.powi(n))
    }

    fn gt_spec(self, rhs: Self) -> bool {
        self.0 > rhs.0
    }

    fn gt(self, rhs: Self) -> bool {
        self.0 > rhs.0
    }

    fn max_spec(self, rhs: Self) -> Self {
        F(self.0.max(rhs.0))
    }

    fn max(self, rhs: Self) -> Self {
        F(self.0.max(rhs.0))
    }

    fn to_count_spec(self) -> usize {
        self.0.round() as usize
    }

    fn to_count(self) -> usize {
        self.0.round() as usize
    }

    fn parse_spec(_text: Text) -> Option<Self> {
        unreachable!("a specification has no run-time value")
    }

    fn parse(text: &str) -> Option<Self> {
        text.parse::<f32>().ok().map(F)
    }

    fn show_spec(self) -> String {
        format!("{:.4}", self.0)
    }

    fn show(self) -> String {
        format!("{:.4}", self.0)
    }

    fn in_sample_range(self) -> bool {
        -1.0 <= self.0 && self.0 < 1.0
    }

    fn sample() -> Self {
        let seed = DRAWN.fetch_add(1, std::sync::atomic::Ordering::Relaxed);
        F(StdRng::seed_from_u64(seed).random_range(-1.0..1.0))
    }
}

fn tensor(values: Vec<f32>, rows: usize, cols: usize) -> Tensor<F> {
    Tensor::from_data(values.into_iter().map(F).collect(), rows, cols)
}

fn values(t: &Tensor<F>) -> Vec<f32> {
    t.data.iter().map(|v| v.0).collect()
}

fn xor_inputs() -> Tensor<F> {
    tensor(vec![0.0, 0.0, 0.0, 1.0, 1.0, 0.0, 1.0, 1.0], 4, 2)
}

fn xor_targets() -> Tensor<F> {
    tensor(vec![1.0, 0.0, 0.0, 1.0, 0.0, 1.0, 1.0, 0.0], 4, 2)
}

fn xor_loss(model: &mut Model<F>) -> f32 {
    let preds = model.forward(&xor_inputs()).expect("forward failed");
    let probs = activations::softmax(&preds);
    let (l, _) = loss::cross_entropy_loss(&probs, &xor_targets());
    l.0
}

/// A layer with the given weights and bias, in place of the random ones.
fn dense(w: Tensor<F>, b: Tensor<F>, activation: Activation) -> Dense<F> {
    let mut layer: Dense<F> = Dense::new(w.rows, w.cols, activation);
    layer.w = w;
    layer.b = b;
    layer
}

/// A copy of the model's parameters in a model of its own.
fn same_parameters(model: &Model<F>) -> Model<F> {
    let mut layers = Vec::new();
    for l in model.layers.iter() {
        layers.push(dense(l.w.clone(), l.b.clone(), l.activation));
    }
    Model { layers }
}

fn shape_mismatch_text<T>(res: Result<T, NeuroxError>) -> String {
    match res {
        Err(NeuroxError::ShapeMismatch(text)) => text,
        Err(other) => panic!("another error: {}", other.message()),
        Ok(_) => panic!("no error"),
    }
}

fn invalid_argument_text<T>(res: Result<T, NeuroxError>) -> String {
    match res {
        Err(NeuroxError::InvalidArgument(text)) => text,
        Err(other) => panic!("another error: {}", other.message()),
        Ok(_) => panic!("no error"),
    }
}

#[test]
fn tensor_create_and_access() {
    let t: Tensor<F> = Tensor::new(2, 3);
    assert_eq!(t.shape(), (2, 3));
    // all zeros initially
    assert!(t.data.iter().all(|&v| v.0 == 0.0));
}

#[test]
fn matmul_basic() {
    let a = tensor(vec![1.0, 2.0, 3.0, 4.0], 2, 2);
    let b = tensor(vec![5.0, 6.0, 7.0, 8.0], 2, 2);
    let c = ops::matmul(&a, &b).expect("matmul failed");
    assert_eq!(c.shape(), (2, 2));
    assert_eq!(c.get(0, 0).0, 19.0);
    assert_eq!(c.get(0, 1).0, 22.0);
    assert_eq!(c.get(1, 0).0, 43.0);
    assert_eq!(c.get(1, 1).0, 50.0);
}

#[test]
fn relu_activation() {
    let t = tensor(vec![-1.0, 0.0, 2.5, -3.2], 2, 2);
    let r = activations::relu(&t);
    assert_eq!(r.get(0, 0).0, 0.0);
    assert_eq!(r.get(0, 1).0, 0.0);
    assert_eq!(r.get(1, 0).0, 2.5);
    assert_eq!(r.get(1, 1).0, 0.0);
}

#[test]
fn model_forward_shape() {
    let mut model: Model<F> = Model::new(&[3, 4, 2], Activation::ReLU);
    let input = tensor(vec![1.0, 2.0, 3.0], 1, 3);
    let out = model.forward(&input).expect("forward failed");
    assert_eq!(out.shape(), (1, 2));
}

#[test]
fn training_reduces_loss() {
    // small XOR-like dataset with one-hot targets (4 samples)
    let inputs = tensor(vec![0.0, 0.0, 0.0, 1.0, 1.0, 0.0, 1.0, 1.0], 4, 2);

    let targets = tensor(vec![1.0, 0.0, 0.0, 1.0, 0.0, 1.0, 1.0, 0.0], 4, 2);

    let mut model: Model<F> = Model::new(&[2, 6, 2], Activation::ReLU);

    // loss before
    let preds_before = model.forward(&inputs).expect("forward before failed");
    let probs_before = activations::softmax(&preds_before);
    let (loss_before, _) = loss::cross_entropy_loss(&probs_before, &targets);

    // train a few epochs
    model
        .train_sgd(&inputs, &targets, 200, 4, F(0.1))
        .expect("training failed");

    // after
    let preds_after = model.forward(&inputs).expect("forward after failed");
    let probs_after = activations::softmax(&preds_after);
    let (loss_after, _) = loss::cross_entropy_loss(&probs_after, &targets);

    assert!(
        loss_after.0 < loss_before.0,
        "loss did not decrease (before: {}, after: {})",
        loss_before.0,
        loss_after.0
    );
}

#[test]
fn training_with_adam_reduces_loss() {
    let mut model: Model<F> = Model::new(&[2, 6, 2], Activation::ReLU);
    let before = xor_loss(&mut model);
    model
        .train_adam(&xor_inputs(), &xor_targets(), 200, 4, F(0.1))
        .expect("training failed");
    let after = xor_loss(&mut model);
    assert!(after < before, "before: {}, after: {}", before, after);
}

#[test]
fn tensor_get_and_set_use_row_major_order() {
    let mut t = tensor(vec![1.0, 2.0, 3.0, 4.0, 5.0, 6.0], 2, 3);
    assert_eq!(t.get(0, 2).0, 3.0);
    assert_eq!(t.get(1, 0).0, 4.0);
    t.set(1, 1, F(9.0));
    assert_eq!(values(&t), vec![1.0, 2.0, 3.0, 4.0, 9.0, 6.0]);
    let z: Tensor<F> = Tensor::zeros(3, 1);
    assert_eq!(z.shape(), (3, 1));
    assert_eq!(values(&z), vec![0.0, 0.0, 0.0]);
}

#[test]
fn random_tensor_lies_in_the_unit_range() {
    let t: Tensor<F> = Tensor::random(5, 7);
    assert_eq!(t.shape(), (5, 7));
    assert_eq!(t.data.len(), 35);
    assert!(t.data.iter().all(|v| v.0 >= -1.0 && v.0 < 1.0));
    assert!(t.data.iter().all(|v| v.in_sample_range()));
    // the samples differ from each other
    assert!(t.data.iter().any(|v| v.0 != t.data[0].0));
}

#[test]
fn map_applies_the_function_to_every_entry() {
    let t = tensor(vec![1.0, -2.0, 3.0, 0.5], 2, 2);
    let m = t.map(|v| F(v.0 * 2.0 + 1.0));
    assert_eq!(m.shape(), (2, 2));
    assert_eq!(values(&m), vec![3.0, -3.0, 7.0, 2.0]);
    assert_eq!(values(&t), vec![1.0, -2.0, 3.0, 0.5]);
}

#[test]
fn transpose_swaps_rows_and_columns() {
    let t = tensor(vec![1.0, 2.0, 3.0, 4.0, 5.0, 6.0], 2, 3);
    let tt = t.transpose();
    assert_eq!(tt.shape(), (3, 2));
    assert_eq!(values(&tt), vec![1.0, 4.0, 2.0, 5.0, 3.0, 6.0]);
}

#[test]
fn transpose_twice_gives_the_tensor_back() {
    let t = tensor(vec![1.0, -2.0, 3.5, 4.0, 5.25, -6.0, 7.0, 8.0, 9.0, 10.0, 11.0, 12.0], 3, 4);
    let back = t.transpose().transpose();
    assert_eq!(back.shape(), (3, 4));
    assert_eq!(values(&back), values(&t));
    let row = tensor(vec![1.0, 2.0, 3.0], 1, 3);
    assert_eq!(values(&row.transpose().transpose()), vec![1.0, 2.0, 3.0]);
    assert_eq!(row.transpose().shape(), (3, 1));
}

#[test]
fn add_row_broadcast_adds_the_bias_to_each_row() {
    let t = tensor(vec![1.0, 2.0, 3.0, 4.0, 5.0, 6.0], 2, 3);
    let bias = tensor(vec![10.0, 20.0, 30.0], 1, 3);
    let out = t.add_row_broadcast(&bias).expect("broadcast failed");
    assert_eq!(out.shape(), (2, 3));
    assert_eq!(values(&out), vec![11.0, 22.0, 33.0, 14.0, 25.0, 36.0]);
}

#[test]
fn add_row_broadcast_rejects_a_bias_of_another_shape() {
    let t = tensor(vec![1.0, 2.0, 3.0, 4.0, 5.0, 6.0], 2, 3);
    let narrow = tensor(vec![10.0, 20.0], 1, 2);
    assert_eq!(
        shape_mismatch_text(t.add_row_broadcast(&narrow)),
        "bias shape must be (1, cols)"
    );
    let two_rows = tensor(vec![1.0, 2.0, 3.0, 4.0, 5.0, 6.0], 2, 3);
    assert_eq!(
        shape_mismatch_text(t.add_row_broadcast(&two_rows)),
        "bias shape must be (1, cols)"
    );
}

#[test]
fn matmul_of_rectangular_tensors() {
    let a = tensor(vec![1.0, 2.0, 3.0, 4.0, 5.0, 6.0], 2, 3);
    let b = tensor(vec![1.0, 0.0, 0.0, 1.0, 2.0, 3.0], 3, 2);
    let c = ops::matmul(&a, &b).expect("matmul failed");
    assert_eq!(c.shape(), (2, 2));
    assert_eq!(values(&c), vec![7.0, 11.0, 16.0, 23.0]);
}

#[test]
fn matmul_rejects_mismatched_inner_dimensions() {
    let a = tensor(vec![1.0, 2.0, 3.0, 4.0, 5.0, 6.0], 2, 3);
    let b = tensor(vec![1.0, 2.0, 3.0, 4.0], 2, 2);
    assert_eq!(
        shape_mismatch_text(ops::matmul(&a, &b)),
        "a.cols must equal b.rows for matmul"
    );
}

#[test]
fn elementwise_add_and_mul() {
    let a = tensor(vec![1.0, 2.0, 3.0, 4.0], 2, 2);
    let b = tensor(vec![10.0, 20.0, 30.0, 40.0], 2, 2);
    let sum = ops::add(&a, &b).expect("add failed");
    assert_eq!(sum.shape(), (2, 2));
    assert_eq!(values(&sum), vec![11.0, 22.0, 33.0, 44.0]);
    let product = ops::mul_elementwise(&a, &b).expect("mul failed");
    assert_eq!(product.shape(), (2, 2));
    assert_eq!(values(&product), vec![10.0, 40.0, 90.0, 160.0]);
}

#[test]
fn elementwise_operations_reject_different_shapes() {
    let a = tensor(vec![1.0, 2.0, 3.0, 4.0], 2, 2);
    let b = tensor(vec![1.0, 2.0, 3.0, 4.0], 1, 4);
    assert_eq!(
        shape_mismatch_text(ops::add(&a, &b)),
        "tensors must have the same shape for element-wise add"
    );
    assert_eq!(
        shape_mismatch_text(ops::mul_elementwise(&a, &b)),
        "tensors must have the same shape for element-wise mul"
    );
}

#[test]
fn relu_gradient_is_one_where_the_input_is_positive() {
    let t = tensor(vec![-1.0, 0.0, 2.5, -3.2], 2, 2);
    let g = activations::relu_grad(&t);
    assert_eq!(g.shape(), (2, 2));
    assert_eq!(values(&g), vec![0.0, 0.0, 1.0, 0.0]);
}

#[test]
fn sigmoid_and_its_gradient() {
    let t = tensor(vec![0.0, 2.0, -2.0], 1, 3);
    let s = activations::sigmoid(&t);
    assert_eq!(s.get(0, 0).0, 0.5);
    assert_eq!(s.get(0, 1).0, 1.0 / (1.0 + (-2.0f32).exp()));
    assert_eq!(s.get(0, 2).0, 1.0 / (1.0 + (2.0f32).exp()));
    let g = activations::sigmoid_grad_from_out(&tensor(vec![0.5, 0.25, 1.0], 1, 3));
    assert_eq!(values(&g), vec![0.25, 0.1875, 0.0]);
}

#[test]
fn tanh_and_its_gradient() {
    let t = tensor(vec![0.0, 1.0, -1.0], 1, 3);
    let out = activations::tanh(&t);
    assert_eq!(values(&out), vec![0.0, 1.0f32.tanh(), (-1.0f32).tanh()]);
    let g = activations::tanh_grad_from_out(&tensor(vec![0.0, 0.5, -1.0], 1, 3));
    assert_eq!(values(&g), vec![1.0, 0.75, 0.0]);
}

#[test]
fn softmax_of_equal_entries_is_uniform() {
    let t = tensor(vec![3.0, 3.0, 3.0, 3.0], 1, 4);
    assert_eq!(values(&activations::softmax(&t)), vec![0.25, 0.25, 0.25, 0.25]);
}

#[test]
fn softmax_rows_sum_to_one() {
    let t = tensor(
        vec![1.0, 2.0, 3.0, -1000.0, 0.0, 1000.0, 88.0, 89.0, 90.0, -5.5, -5.5, 7.25],
        4,
        3,
    );
    let s = activations::softmax(&t);
    assert_eq!(s.shape(), (4, 3));
    for i in 0..4 {
        let mut sum = 0.0f32;
        for j in 0..3 {
            let p = s.get(i, j).0;
            assert!((0.0..=1.0).contains(&p), "entry ({}, {}) is {}", i, j, p);
            sum += p;
        }
        assert!((sum - 1.0).abs() < 1e-5, "row {} sums to {}", i, sum);
    }
    // the row maximum is subtracted before exponentiating
    let e1 = (-1.0f32).exp();
    let e2 = (-2.0f32).exp();
    let total = e2 + e1 + 1.0;
    assert_eq!(s.get(0, 0).0, e2 / total);
    assert_eq!(s.get(0, 1).0, e1 / total);
    assert_eq!(s.get(0, 2).0, 1.0 / total);
    assert_eq!(s.get(1, 2).0, 1.0);
}

#[test]
fn mse_loss_divides_by_the_number_of_rows() {
    let pred = tensor(vec![1.0, 2.0, 3.0, 4.0], 2, 2);
    let target = tensor(vec![0.0, 0.0, 1.0, 6.0], 2, 2);
    let (l, grad) = loss::mse_loss(&pred, &target);
    // (1 + 4 + 4 + 4) / 2 rows
    assert_eq!(l.0, 6.5);
    assert_eq!(grad.shape(), (2, 2));
    assert_eq!(values(&grad), vec![1.0, 2.0, 2.0, -2.0]);
}

#[test]
fn cross_entropy_of_exact_prediction_is_zero() {
    let probs = tensor(vec![1.0, 0.0, 0.0, 1.0, 0.0, 1.0, 1.0, 0.0], 4, 2);
    let (l, grad) = loss::cross_entropy_loss(&probs, &probs);
    assert!(l.0.abs() < 1e-4, "loss is {}", l.0);
    // a zero probability is raised to the floor before the target is subtracted
    let floor = 1e-7f32 / 4.0;
    assert_eq!(values(&grad), vec![0.0, floor, floor, 0.0, floor, 0.0, 0.0, floor]);
}

#[test]
fn cross_entropy_sums_the_loss_and_averages_the_gradient() {
    let probs = tensor(vec![0.5, 0.5, 0.25, 0.75], 2, 2);
    let target = tensor(vec![1.0, 0.0, 0.0, 1.0], 2, 2);
    let (l, grad) = loss::cross_entropy_loss(&probs, &target);
    let mut expected = 0.0f32;
    expected -= 1.0 * 0.5f32.ln();
    expected -= 0.0 * 0.5f32.ln();
    expected -= 0.0 * 0.25f32.ln();
    expected -= 1.0 * 0.75f32.ln();
    assert_eq!(l.0, expected);
    assert_eq!(values(&grad), vec![-0.25, 0.25, 0.125, -0.125]);
}

#[test]
fn cross_entropy_floors_a_zero_probability() {
    let probs = tensor(vec![0.0], 1, 1);
    let target = tensor(vec![1.0], 1, 1);
    let (l, grad) = loss::cross_entropy_loss(&probs, &target);
    assert_eq!(l.0, 0.0 - 1e-7f32.ln());
    assert_eq!(grad.get(0, 0).0, 1e-7f32 - 1.0);
}

#[test]
fn new_layer_has_the_requested_shape_and_no_state() {
    let layer: Dense<F> = Dense::new(3, 5, Activation::Tanh);
    assert_eq!(layer.w.shape(), (3, 5));
    assert_eq!(layer.b.shape(), (1, 5));
    assert_eq!(layer.num_params(), 20);
    assert!(matches!(layer.activation, Activation::Tanh));
    assert!(layer.grad_w.is_none());
    assert!(layer.grad_b.is_none());
    assert!(!layer.is_forward_done());
    assert!(layer.w.data.iter().all(|v| v.0 >= -1.0 && v.0 < 1.0));
    assert!(layer.b.data.iter().all(|v| v.0 >= -1.0 && v.0 < 1.0));
}

#[test]
fn dense_forward_is_affine_then_activation() {
    let w = tensor(vec![1.0, -2.0, 3.0, 4.0], 2, 2);
    let b = tensor(vec![0.5, -0.5], 1, 2);
    let x = tensor(vec![1.0, 1.0, 2.0, 0.0], 2, 2);
    let mut identity = dense(w.clone(), b.clone(), Activation::Identity);
    let out = identity.forward(&x).expect("forward failed");
    assert_eq!(out.shape(), (2, 2));
    assert_eq!(values(&out), vec![4.5, 1.5, 2.5, -4.5]);
    assert!(identity.is_forward_done());
    let mut rectified = dense(w.clone(), b.clone(), Activation::ReLU);
    assert_eq!(values(&rectified.forward(&x).unwrap()), vec![4.5, 1.5, 2.5, 0.0]);
    let mut squashed = dense(w.clone(), b.clone(), Activation::Sigmoid);
    let s = squashed.forward(&x).unwrap();
    assert_eq!(s.get(0, 0).0, 1.0 / (1.0 + (-4.5f32).exp()));
    let mut hyperbolic = dense(w, b, Activation::Tanh);
    let t = hyperbolic.forward(&x).unwrap();
    assert_eq!(t.get(1, 1).0, (-4.5f32).tanh());
}

#[test]
fn dense_forward_rejects_an_input_of_another_width() {
    let mut layer: Dense<F> = Dense::new(3, 2, Activation::ReLU);
    let x = tensor(vec![1.0, 2.0], 1, 2);
    assert_eq!(
        shape_mismatch_text(layer.forward(&x)),
        "a.cols must equal b.rows for matmul"
    );
    assert!(!layer.is_forward_done());
}

#[test]
fn dense_backward_with_identity_activation() {
    let w = tensor(vec![1.0, 2.0, 3.0, 4.0], 2, 2);
    let b = tensor(vec![0.5, -0.5], 1, 2);
    let mut layer = dense(w, b, Activation::Identity);
    let x = tensor(vec![1.0, 1.0, 2.0, 3.0], 2, 2);
    layer.forward(&x).expect("forward failed");
    let grad_out = tensor(vec![1.0, 1.0, 0.5, -1.0], 2, 2);
    let grad_in = layer.backward(&grad_out).expect("backward failed");
    // dL/dX = dZ * W^T
    assert_eq!(grad_in.shape(), (2, 2));
    assert_eq!(values(&grad_in), vec![3.0, 7.0, -1.5, -2.5]);
    // dL/dW = X^T * dZ
    let gw = layer.grad_w.as_ref().expect("no weight gradient");
    assert_eq!(gw.shape(), (2, 2));
    assert_eq!(values(gw), vec![2.0, -1.0, 2.5, -2.0]);
    // dL/dB = column sums of dZ
    let gb = layer.grad_b.as_ref().expect("no bias gradient");
    assert_eq!(gb.shape(), (1, 2));
    assert_eq!(values(gb), vec![1.5, 0.0]);
}

#[test]
fn dense_backward_multiplies_by_the_activation_slope() {
    let w = tensor(vec![1.0, -1.0], 1, 2);
    let b = tensor(vec![0.0, 0.0], 1, 2);
    let x = tensor(vec![2.0], 1, 1);
    let grad_out = tensor(vec![3.0, 5.0], 1, 2);

    let mut rectified = dense(w.clone(), b.clone(), Activation::ReLU);
    rectified.forward(&x).unwrap();
    // pre-activation is (2, -2): the slope is (1, 0)
    let grad_in = rectified.backward(&grad_out).unwrap();
    assert_eq!(values(&grad_in), vec![3.0]);
    assert_eq!(values(rectified.grad_w.as_ref().unwrap()), vec![6.0, 0.0]);
    assert_eq!(values(rectified.grad_b.as_ref().unwrap()), vec![3.0, 0.0]);

    let mut squashed = dense(w.clone(), b.clone(), Activation::Sigmoid);
    squashed.forward(&x).unwrap();
    squashed.backward(&grad_out).unwrap();
    let s = 1.0 / (1.0 + (-2.0f32).exp());
    let t = 1.0 / (1.0 + (2.0f32).exp());
    assert_eq!(
        values(squashed.grad_b.as_ref().unwrap()),
        vec![3.0 * (s * (1.0 - s)), 5.0 * (t * (1.0 - t))]
    );

    let mut hyperbolic = dense(w, b, Activation::Tanh);
    hyperbolic.forward(&x).unwrap();
    hyperbolic.backward(&grad_out).unwrap();
    let u = 2.0f32.tanh();
    let v = (-2.0f32).tanh();
    assert_eq!(
        values(hyperbolic.grad_b.as_ref().unwrap()),
        vec![3.0 * (1.0 - u * u), 5.0 * (1.0 - v * v)]
    );
}

#[test]
fn a_second_forward_replaces_the_cache() {
    let w = tensor(vec![1.0, 2.0, 3.0, 4.0], 2, 2);
    let b = tensor(vec![0.0, 0.0], 1, 2);
    let mut layer = dense(w, b, Activation::Identity);
    layer.forward(&tensor(vec![1.0, 1.0], 1, 2)).unwrap();
    layer.forward(&tensor(vec![2.0, -1.0], 1, 2)).unwrap();
    layer.backward(&tensor(vec![1.0, 10.0], 1, 2)).unwrap();
    // X^T * dZ with the input of the second call
    assert_eq!(values(layer.grad_w.as_ref().unwrap()), vec![2.0, 20.0, -1.0, -10.0]);
    // a later backward call overwrites the gradients
    layer.backward(&tensor(vec![0.5, 0.0], 1, 2)).unwrap();
    assert_eq!(values(layer.grad_w.as_ref().unwrap()), vec![1.0, 0.0, -0.5, 0.0]);
    assert_eq!(values(layer.grad_b.as_ref().unwrap()), vec![0.5, 0.0]);
}

#[test]
fn a_rejected_forward_keeps_the_input_only() {
    let mut layer: Dense<F> = Dense::new(3, 2, Activation::ReLU);
    assert!(layer.forward(&tensor(vec![1.0, 2.0], 1, 2)).is_err());
    let cached = layer.input_cache.as_ref().expect("no cached input");
    assert_eq!(values(cached), vec![1.0, 2.0]);
    assert!(layer.preact_cache.is_none());
    assert!(!layer.is_forward_done());
}

#[test]
fn backward_then_apply_gradients_descends() {
    let mut layer = dense(
        tensor(vec![1.0, 2.0], 1, 2),
        tensor(vec![0.0, 0.0], 1, 2),
        Activation::Identity,
    );
    layer.forward(&tensor(vec![3.0], 1, 1)).unwrap();
    layer.backward(&tensor(vec![1.0, -1.0], 1, 2)).unwrap();
    layer.apply_gradients(F(0.5));
    assert_eq!(values(&layer.w), vec![1.0 - 0.5 * 3.0, 2.0 - 0.5 * -3.0]);
    assert_eq!(values(&layer.b), vec![-0.5, 0.5]);
}

#[test]
fn dense_backward_rejects_a_gradient_of_another_shape() {
    let mut layer: Dense<F> = Dense::new(2, 3, Activation::ReLU);
    layer.forward(&tensor(vec![1.0, 2.0], 1, 2)).unwrap();
    let wide = tensor(vec![1.0, 2.0, 3.0, 4.0], 1, 4);
    assert_eq!(
        shape_mismatch_text(layer.backward(&wide)),
        "tensors must have the same shape for element-wise mul"
    );
    assert!(layer.grad_w.is_none());
    assert!(layer.grad_b.is_none());

    let mut plain: Dense<F> = Dense::new(2, 3, Activation::Identity);
    plain.forward(&tensor(vec![1.0, 2.0], 1, 2)).unwrap();
    let tall = tensor(vec![1.0, 2.0, 3.0, 4.0, 5.0, 6.0], 2, 3);
    assert_eq!(
        shape_mismatch_text(plain.backward(&tall)),
        "a.cols must equal b.rows for matmul"
    );
    assert!(plain.grad_w.is_none());
}

#[test]
fn apply_gradients_subtracts_the_scaled_gradient() {
    let mut layer = dense(
        tensor(vec![1.0, 2.0, 3.0, 4.0], 2, 2),
        tensor(vec![0.5, -0.5], 1, 2),
        Activation::Identity,
    );
    layer.apply_gradients(F(0.5));
    assert_eq!(values(&layer.w), vec![1.0, 2.0, 3.0, 4.0]);
    layer.grad_w = Some(tensor(vec![2.0, -2.0, 4.0, 0.0], 2, 2));
    layer.apply_gradients(F(0.5));
    assert_eq!(values(&layer.w), vec![0.0, 3.0, 1.0, 4.0]);
    assert_eq!(values(&layer.b), vec![0.5, -0.5]);
    layer.grad_b = Some(tensor(vec![1.0, 1.0], 1, 2));
    layer.grad_w = None;
    layer.apply_gradients(F(0.25));
    assert_eq!(values(&layer.w), vec![0.0, 3.0, 1.0, 4.0]);
    assert_eq!(values(&layer.b), vec![0.25, -0.75]);
}

#[test]
fn sgd_step_updates_every_layer_that_has_gradients() {
    let mut with = dense(
        tensor(vec![1.0, 2.0], 1, 2),
        tensor(vec![0.0, 0.0], 1, 2),
        Activation::ReLU,
    );
    with.grad_w = Some(tensor(vec![10.0, 20.0], 1, 2));
    with.grad_b = Some(tensor(vec![1.0, -1.0], 1, 2));
    let without = dense(tensor(vec![5.0, 6.0], 2, 1), tensor(vec![7.0], 1, 1), Activation::ReLU);
    let mut layers = vec![with, without];
    let opt = SGD::new(F(0.1));
    assert_eq!(opt.lr.0, 0.1);
    opt.step(&mut layers);
    assert_eq!(values(&layers[0].w), vec![1.0 - 0.1 * 10.0, 2.0 - 0.1 * 20.0]);
    assert_eq!(values(&layers[0].b), vec![0.0 - 0.1 * 1.0, 0.0 - 0.1 * -1.0]);
    assert_eq!(values(&layers[1].w), vec![5.0, 6.0]);
    assert_eq!(values(&layers[1].b), vec![7.0]);
}

#[test]
fn adam_starts_with_zero_moments_and_the_usual_hyperparameters() {
    let model: Model<F> = Model::new(&[3, 4, 2], Activation::ReLU);
    let adam = Adam::new(F(0.01), &model.layers);
    assert_eq!(adam.lr.0, 0.01);
    assert_eq!(adam.beta1.0, 0.9);
    assert_eq!(adam.beta2.0, 0.999);
    assert_eq!(adam.eps.0, 1e-8);
    assert_eq!(adam.t, 0);
    let lens = |buffers: &Vec<Vec<F>>| buffers.iter().map(|b| b.len()).collect::<Vec<usize>>();
    assert_eq!(lens(&adam.m_w), vec![12, 8]);
    assert_eq!(lens(&adam.v_w), vec![12, 8]);
    assert_eq!(lens(&adam.m_b), vec![4, 2]);
    assert_eq!(lens(&adam.v_b), vec![4, 2]);
    for buffers in [&adam.m_w, &adam.v_w, &adam.m_b, &adam.v_b] {
        assert!(buffers.iter().all(|b| b.iter().all(|v| v.0 == 0.0)));
    }
}

#[test]
fn adam_first_step_has_a_closed_form() {
    let mut layer = dense(tensor(vec![2.0], 1, 1), tensor(vec![-3.0], 1, 1), Activation::Identity);
    layer.grad_w = Some(tensor(vec![1.0], 1, 1));
    layer.grad_b = Some(tensor(vec![1.0], 1, 1));
    let mut layers = vec![layer];
    let lr = 0.1f32;
    let mut adam = Adam::new(F(lr), &layers);
    adam.step(&mut layers);
    assert_eq!(adam.t, 1);

    let (beta1, beta2, eps) = (0.9f32, 0.999f32, 1e-8f32);
    let m = beta1 * 0.0 + (1.0 - beta1) * 1.0;
    let v = beta2 * 0.0 + (1.0 - beta2) * (1.0 * 1.0);
    let m_hat = m / (1.0 - beta1.powi(1));
    let v_hat = v / (1.0 - beta2.powi(1));
    let update = lr * m_hat / (v_hat.sqrt() + eps);
    assert_eq!(adam.m_w[0][0].0, m);
    assert_eq!(adam.v_w[0][0].0, v);
    assert_eq!(adam.m_b[0][0].0, m);
    assert_eq!(adam.v_b[0][0].0, v);
    assert_eq!(layers[0].w.get(0, 0).0, 2.0 - update);
    assert_eq!(layers[0].b.get(0, 0).0, -3.0 - update);
    // with g = 1 and zero moments, the corrected moments are one: the step is lr
    assert!((update - lr).abs() < 1e-6, "update is {}", update);
}

#[test]
fn adam_step_skips_layers_without_both_gradients() {
    let mut half = dense(
        tensor(vec![1.0, 2.0], 1, 2),
        tensor(vec![0.0, 0.0], 1, 2),
        Activation::ReLU,
    );
    half.grad_w = Some(tensor(vec![1.0, 1.0], 1, 2));
    let none = dense(tensor(vec![5.0, 6.0], 2, 1), tensor(vec![7.0], 1, 1), Activation::ReLU);
    let mut layers = vec![half, none];
    let mut adam = Adam::new(F(0.1), &layers);
    adam.step(&mut layers);
    assert_eq!(adam.t, 1);
    assert_eq!(values(&layers[0].w), vec![1.0, 2.0]);
    assert_eq!(values(&layers[0].b), vec![0.0, 0.0]);
    assert_eq!(values(&layers[1].w), vec![5.0, 6.0]);
    assert!(adam.m_w.iter().all(|b| b.iter().all(|v| v.0 == 0.0)));
    assert!(adam.v_w.iter().all(|b| b.iter().all(|v| v.0 == 0.0)));
}

#[test]
fn model_layers_follow_the_widths() {
    let model: Model<F> = Model::new(&[3, 4, 2], Activation::Sigmoid);
    assert_eq!(model.layer_count(), 2);
    assert_eq!(model.layer_shape(0), (3, 4));
    assert_eq!(model.layer_shape(1), (4, 2));
    assert_eq!(model.layers[0].b.shape(), (1, 4));
    assert_eq!(model.layers[1].b.shape(), (1, 2));
    assert_eq!(model.num_params(), 3 * 4 + 4 + 4 * 2 + 2);
    assert!(model.layers.iter().all(|l| matches!(l.activation, Activation::Sigmoid)));
    let single: Model<F> = Model::new(&[5], Activation::ReLU);
    assert_eq!(single.layer_count(), 0);
    let empty: Model<F> = Model::new(&[], Activation::ReLU);
    assert_eq!(empty.layer_count(), 0);
    assert_eq!(empty.num_params(), 0);
}

#[test]
fn model_forward_chains_the_layers() {
    let first = dense(
        tensor(vec![1.0, -1.0, 2.0, 0.5], 2, 2),
        tensor(vec![0.0, 1.0], 1, 2),
        Activation::ReLU,
    );
    let second = dense(tensor(vec![2.0, -3.0], 2, 1), tensor(vec![0.25], 1, 1), Activation::ReLU);
    let mut model = Model { layers: vec![first, second] };
    let x = tensor(vec![1.0, 2.0, -1.0, 0.0], 2, 2);
    let out = model.forward(&x).expect("forward failed");
    // first layer: relu([5, 1] ; [-1, 2]) = [5, 1] ; [0, 2]
    // second layer: relu(10 - 3 + 0.25 ; -6 + 0.25) = 7.25 ; 0
    assert_eq!(out.shape(), (2, 1));
    assert_eq!(values(&out), vec![7.25, 0.0]);
    assert!(model.layers.iter().all(|l| l.is_forward_done()));
}

#[test]
fn model_forward_rejects_an_input_of_another_width() {
    let mut model: Model<F> = Model::new(&[3, 4, 2], Activation::ReLU);
    let x = tensor(vec![1.0, 2.0], 1, 2);
    assert_eq!(
        shape_mismatch_text(model.forward(&x)),
        "a.cols must equal b.rows for matmul"
    );
    assert!(!model.layers[0].is_forward_done());
    assert!(!model.layers[1].is_forward_done());
}

#[test]
fn model_without_layers_returns_its_input() {
    let mut model: Model<F> = Model::new(&[4], Activation::ReLU);
    let x = tensor(vec![1.0, -2.0, 3.0], 1, 3);
    let out = model.forward(&x).expect("forward failed");
    assert_eq!(out.shape(), (1, 3));
    assert_eq!(values(&out), vec![1.0, -2.0, 3.0]);
}

#[test]
fn slice_rows_copies_a_range_of_rows() {
    let t = tensor(vec![1.0, 2.0, 3.0, 4.0, 5.0, 6.0, 7.0, 8.0], 4, 2);
    let mid = slice_rows(&t, 1, 3).expect("slice failed");
    assert_eq!(mid.shape(), (2, 2));
    assert_eq!(values(&mid), vec![3.0, 4.0, 5.0, 6.0]);
    let none = slice_rows(&t, 2, 2).expect("slice failed");
    assert_eq!(none.shape(), (0, 2));
    assert!(none.data.is_empty());
}

#[test]
fn train_test_split_keeps_the_order_of_rows() {
    let t = tensor(vec![1.0, 2.0, 3.0, 4.0, 5.0, 6.0, 7.0, 8.0, 9.0, 10.0], 5, 2);
    let (train, test) = train_test_split(&t, F(0.8)).expect("split failed");
    assert_eq!(train.shape(), (4, 2));
    assert_eq!(values(&train), vec![1.0, 2.0, 3.0, 4.0, 5.0, 6.0, 7.0, 8.0]);
    assert_eq!(test.shape(), (1, 2));
    assert_eq!(values(&test), vec![9.0, 10.0]);
}

#[test]
fn train_test_split_rounds_the_share_of_rows() {
    let t = tensor(vec![1.0, 2.0, 3.0, 4.0, 5.0], 5, 1);
    // 2.5 rows round to 3
    let (train, test) = train_test_split(&t, F(0.5)).expect("split failed");
    assert_eq!(values(&train), vec![1.0, 2.0, 3.0]);
    assert_eq!(values(&test), vec![4.0, 5.0]);
    // 0.5 rows round to 1, 4.95 rows to 5
    let (train, test) = train_test_split(&t, F(0.1)).expect("split failed");
    assert_eq!((train.shape(), test.shape()), ((1, 1), (4, 1)));
    let (train, test) = train_test_split(&t, F(0.99)).expect("split failed");
    assert_eq!((train.shape(), test.shape()), ((5, 1), (0, 1)));
    let (train, test) = train_test_split(&t, F(0.01)).expect("split failed");
    assert_eq!((train.shape(), test.shape()), ((0, 1), (5, 1)));
}

#[test]
fn train_test_split_rejects_a_ratio_out_of_range() {
    let t = tensor(vec![1.0, 2.0, 3.0, 4.0], 4, 1);
    for ratio in [0.0, 1.0, -0.25, 1.5, f32::NAN, f32::INFINITY] {
        assert_eq!(
            invalid_argument_text(train_test_split(&t, F(ratio))),
            "Split ratio must be between 0.0 and 1.0"
        );
    }
}

/// The rows of a table read with the standard library: line by line, blank
/// lines skipped, cells trimmed, zero for what is no number.
fn rows_by_hand(text: &str) -> Vec<Vec<f32>> {
    let mut rows = Vec::new();
    for line in text.lines() {
        if line.trim().is_empty() {
            continue;
        }
        rows.push(
            line.split(',')
                .map(|cell| cell.trim().parse::<f32>().unwrap_or(0.0))
                .collect(),
        );
    }
    rows
}

#[test]
fn tensor_from_csv_reads_a_table() {
    let t: Tensor<F> = tensor_from_csv("1,2,3\n4,5,6\n").expect("table rejected");
    assert_eq!(t.shape(), (2, 3));
    assert_eq!(values(&t), vec![1.0, 2.0, 3.0, 4.0, 5.0, 6.0]);
    let single: Tensor<F> = tensor_from_csv("-7.5e-1").expect("table rejected");
    assert_eq!(single.shape(), (1, 1));
    assert_eq!(values(&single), vec![-0.75]);
}

#[test]
fn tensor_from_csv_trims_cells_and_skips_blank_lines() {
    let text = "\n  1.5 , 2 ,\t3\r\n\r\n   \n 4,abc, 6 \n\u{a0}7\u{a0},,\u{2003}9\n\n";
    let t: Tensor<F> = tensor_from_csv(text).expect("table rejected");
    assert_eq!(t.shape(), (3, 3));
    assert_eq!(values(&t), vec![1.5, 2.0, 3.0, 4.0, 0.0, 6.0, 7.0, 0.0, 9.0]);
}

#[test]
fn tensor_from_csv_agrees_with_reading_line_by_line() {
    let texts = [
        "1,2\n3,4",
        "1,2\n3,4\n",
        "1,2\r\n3,4\r\n",
        " 1 ,2 \n\n\n3, 4\n   \n",
        "0.5,,\n,1e3,\n-1,inf,nan\n",
        "a,b,c\n1,2,3\n",
        "1\n2\n3\n",
        "1,2,3,4,5,6,7,8,9,10",
        "1 2,3\n4,5 6\n",
        "1,\n2,\n",
        "+1,1.,.5\n0x10,1_000,--1\n",
        "1,2\r3,4\n5,6\n",
        "1,2\r3\n4,5\r\n",
        "",
        "\r\n\r\n",
        "1,2\n3\n",
        "\u{feff}1,2\n",
        "\u{85}1,2\u{2028}\n3,4\u{3000}\n",
    ];
    for text in texts {
        let expected = rows_by_hand(text);
        let res: Result<Tensor<F>, NeuroxError> = tensor_from_csv(text);
        if expected.is_empty() {
            assert_eq!(invalid_argument_text(res), "empty csv", "{:?}", text);
        } else if expected.iter().any(|row| row.len() != expected[0].len()) {
            assert_eq!(
                invalid_argument_text(res),
                "csv has non-uniform row length",
                "{:?}",
                text
            );
        } else {
            let t = res.expect("table rejected");
            assert_eq!(t.shape(), (expected.len(), expected[0].len()), "{:?}", text);
            let flat: Vec<f32> = expected.into_iter().flatten().collect();
            let same = values(&t)
                .iter()
                .zip(flat.iter())
                .all(|(a, b)| a.to_bits() == b.to_bits());
            assert!(same, "{:?}: {:?} and {:?}", text, values(&t), flat);
        }
    }
}

#[test]
fn tensor_from_csv_rejects_an_empty_or_ragged_table() {
    for text in ["", "\n", "  \n\t\n\r\n", "\u{a0}"] {
        assert!(rows_by_hand(text).is_empty());
        let res: Result<Tensor<F>, NeuroxError> = tensor_from_csv(text);
        assert_eq!(invalid_argument_text(res), "empty csv");
    }
    for text in ["1,2\n3\n", "1\n2,3\n", "1,2\n3,4,\n", "1,2\n,\n3\n"] {
        let res: Result<Tensor<F>, NeuroxError> = tensor_from_csv(text);
        assert_eq!(invalid_argument_text(res), "csv has non-uniform row length");
    }
}

#[test]
fn tensor_from_rows_flattens_a_table() {
    let rows = vec![vec![F(1.0), F(2.0), F(3.0)], vec![F(4.0), F(5.0), F(6.0)]];
    let t = tensor_from_rows(&rows).expect("rows rejected");
    assert_eq!(t.shape(), (2, 3));
    assert_eq!(values(&t), vec![1.0, 2.0, 3.0, 4.0, 5.0, 6.0]);
}

#[test]
fn tensor_from_rows_rejects_no_rows_and_ragged_rows() {
    let empty: Vec<Vec<F>> = Vec::new();
    assert_eq!(invalid_argument_text(tensor_from_rows(&empty)), "empty csv");
    let ragged = vec![vec![F(1.0), F(2.0)], vec![F(3.0)]];
    assert_eq!(
        invalid_argument_text(tensor_from_rows(&ragged)),
        "csv has non-uniform row length"
    );
}

#[test]
fn error_messages_name_the_kind() {
    assert_eq!(
        NeuroxError::ShapeMismatch("bias shape must be (1, cols)".to_string()).message(),
        "shape mismatch: bias shape must be (1, cols)"
    );
    assert_eq!(
        NeuroxError::InvalidArgument("empty csv".to_string()).message(),
        "invalid argument: empty csv"
    );
    assert_eq!(NeuroxError::Other("no luck".to_string()).message(), "other: no luck");
    let cause = std::io::Error::new(std::io::ErrorKind::NotFound, "no such table");
    assert_eq!(NeuroxError::Io(cause).message(), "io error: no such table");
    assert_eq!(
        NeuroxError::shape_mismatch("a.cols must equal b.rows for matmul").message(),
        "shape mismatch: a.cols must equal b.rows for matmul"
    );
    assert_eq!(
        NeuroxError::invalid_argument("csv has non-uniform row length").message(),
        "invalid argument: csv has non-uniform row length"
    );
}

#[test]
fn training_without_epochs_changes_nothing() {
    let mut model: Model<F> = Model::new(&[2, 3, 2], Activation::Tanh);
    let before: Vec<Vec<f32>> = model.layers.iter().map(|l| values(&l.w)).collect();
    model
        .train_sgd(&xor_inputs(), &xor_targets(), 0, 4, F(0.1))
        .expect("training failed");
    model
        .train_adam(&xor_inputs(), &xor_targets(), 0, 4, F(0.1))
        .expect("training failed");
    let after: Vec<Vec<f32>> = model.layers.iter().map(|l| values(&l.w)).collect();
    assert_eq!(before, after);
    assert!(model.layers.iter().all(|l| l.grad_w.is_none() && !l.is_forward_done()));
}

#[test]
fn training_rejects_inputs_of_another_width() {
    let mut model: Model<F> = Model::new(&[3, 4, 2], Activation::ReLU);
    assert_eq!(
        shape_mismatch_text(model.train_sgd(&xor_inputs(), &xor_targets(), 5, 4, F(0.1))),
        "a.cols must equal b.rows for matmul"
    );
    assert_eq!(
        shape_mismatch_text(model.train_adam(&xor_inputs(), &xor_targets(), 5, 2, F(0.1))),
        "a.cols must equal b.rows for matmul"
    );
    assert!(model.layers.iter().all(|l| l.grad_w.is_none()));
}

/// One batch by hand: forward, softmax, cross-entropy, backward in reverse
/// order.
fn gradients_by_hand(model: &mut Model<F>, bx: &Tensor<F>, by: &Tensor<F>) {
    let preds = model.forward(bx).expect("forward failed");
    let probs = activations::softmax(&preds);
    let (_, grad) = loss::cross_entropy_loss(&probs, by);
    let mut upstream = grad;
    for layer in model.layers.iter_mut().rev() {
        upstream = layer.backward(&upstream).expect("backward failed");
    }
}

#[test]
fn sgd_training_walks_contiguous_batches() {
    let x = tensor(vec![0.0, 0.0, 0.0, 1.0, 1.0, 0.0, 1.0, 1.0, 0.5, 0.5], 5, 2);
    let y = tensor(vec![1.0, 0.0, 0.0, 1.0, 0.0, 1.0, 1.0, 0.0, 1.0, 0.0], 5, 2);
    let mut trained: Model<F> = Model::new(&[2, 4, 2], Activation::Tanh);
    let mut by_hand = same_parameters(&trained);
    trained.train_sgd(&x, &y, 2, 2, F(0.05)).expect("training failed");

    let opt = SGD::new(F(0.05));
    for _ in 0..2 {
        // five rows in batches of two: rows 0..2, 2..4 and the short batch 4..5
        for (start, end) in [(0, 2), (2, 4), (4, 5)] {
            let bx = slice_rows(&x, start, end).unwrap();
            let by = slice_rows(&y, start, end).unwrap();
            gradients_by_hand(&mut by_hand, &bx, &by);
            opt.step(&mut by_hand.layers);
        }
    }
    for (a, b) in trained.layers.iter().zip(by_hand.layers.iter()) {
        assert_eq!(values(&a.w), values(&b.w));
        assert_eq!(values(&a.b), values(&b.b));
    }
}

#[test]
fn adam_training_walks_contiguous_batches() {
    let x = tensor(vec![0.0, 0.0, 0.0, 1.0, 1.0, 0.0, 1.0, 1.0, 0.5, 0.5], 5, 2);
    let y = tensor(vec![1.0, 0.0, 0.0, 1.0, 0.0, 1.0, 1.0, 0.0, 1.0, 0.0], 5, 2);
    let mut trained: Model<F> = Model::new(&[2, 3, 2], Activation::Sigmoid);
    let mut by_hand = same_parameters(&trained);
    trained.train_adam(&x, &y, 3, 4, F(0.01)).expect("training failed");

    let mut adam = Adam::new(F(0.01), &by_hand.layers);
    for _ in 0..3 {
        for (start, end) in [(0, 4), (4, 5)] {
            let bx = slice_rows(&x, start, end).unwrap();
            let by = slice_rows(&y, start, end).unwrap();
            gradients_by_hand(&mut by_hand, &bx, &by);
            adam.step(&mut by_hand.layers);
        }
    }
    assert_eq!(adam.t, 6);
    for (a, b) in trained.layers.iter().zip(by_hand.layers.iter()) {
        assert_eq!(values(&a.w), values(&b.w));
        assert_eq!(values(&a.b), values(&b.b));
    }
}

#[test]
fn a_batch_larger_than_the_data_is_one_batch() {
    let mut trained: Model<F> = Model::new(&[2, 3, 2], Activation::ReLU);
    let mut by_hand = same_parameters(&trained);
    trained
        .train_sgd(&xor_inputs(), &xor_targets(), 1, usize::MAX, F(0.1))
        .expect("training failed");
    gradients_by_hand(&mut by_hand, &xor_inputs(), &xor_targets());
    SGD::new(F(0.1)).step(&mut by_hand.layers);
    for (a, b) in trained.layers.iter().zip(by_hand.layers.iter()) {
        assert_eq!(values(&a.w), values(&b.w));
        assert_eq!(values(&a.b), values(&b.b));
    }
}

#[test]
fn render_shows_the_shape_and_the_entries() {
    let t = tensor(vec![1.0, -2.5, 3.14159, 4.0], 2, 2);
    assert_eq!(t.render(), "Tensor(2, 2) [[1.0000, -2.5000], [3.1416, 4.0000]]");
    let row = tensor(vec![0.5], 1, 1);
    assert_eq!(row.render(), "Tensor(1, 1) [[0.5000]]");
    let none: Tensor<F> = Tensor::new(0, 4);
    assert_eq!(none.render(), "Tensor(0, 4) []");
    let narrow: Tensor<F> = Tensor::new(2, 0);
    assert_eq!(narrow.render(), "Tensor(2, 0) [[], []]");
}

#[test]
fn render_cuts_after_three_rows_and_six_columns() {
    let values: Vec<f32> = (0..28).map(|k| k as f32).collect();
    let wide = tensor(values.clone(), 4, 7);
    assert_eq!(
        wide.render(),
        "Tensor(4, 7) [[0.0000, 1.0000, 2.0000, 3.0000, 4.0000, 5.0000, ...], \
         [7.0000, 8.0000, 9.0000, 10.0000, 11.0000, 12.0000, ...], \
         [14.0000, 15.0000, 16.0000, 17.0000, 18.0000, 19.0000, ...], ...]"
    );
    let exact = tensor(values[..18].to_vec(), 3, 6);
    assert_eq!(
        exact.render(),
        "Tensor(3, 6) [[0.0000, 1.0000, 2.0000, 3.0000, 4.0000, 5.0000], \
         [6.0000, 7.0000, 8.0000, 9.0000, 10.0000, 11.0000], \
         [12.0000, 13.0000, 14.0000, 15.0000, 16.0000, 17.0000]]"
    );
    let long: Tensor<F> = Tensor::new(1200, 1);
    assert_eq!(long.render(), "Tensor(1200, 1) [[0.0000], [0.0000], [0.0000], ...]");
}

#[test]
fn decimal_writes_whole_numbers() {
    assert_eq!(neurox::text::decimal(0), "0");
    assert_eq!(neurox::text::decimal(7), "7");
    assert_eq!(neurox::text::decimal(10), "10");
    assert_eq!(neurox::text::decimal(1234567890), "1234567890");
    assert_eq!(neurox::text::decimal(usize::MAX), format!("{}", usize::MAX));
}

#[test]
fn summary_lists_the_layers_and_the_total() {
    let model: Model<F> = Model::new(&[784, 128, 10], Activation::ReLU);
    assert_eq!(
        model.summary(),
        "Model Summary:\n \
         Layer 0: Dense 784 -> 128 (params 100480)\n \
         Layer 1: Dense 128 -> 10 (params 1290)\n\
         Total params: 101770\n"
    );
    let empty: Model<F> = Model::new(&[3], Activation::ReLU);
    assert_eq!(empty.summary(), "Model Summary:\nTotal params: 0\n");
}

#[test]
fn training_a_model_without_layers_changes_nothing() {
    let mut model: Model<F> = Model::new(&[2], Activation::ReLU);
    model
        .train_sgd(&xor_inputs(), &xor_targets(), 3, 3, F(0.1))
        .expect("training failed");
    model
        .train_adam(&xor_inputs(), &xor_targets(), 3, 3, F(0.1))
        .expect("training failed");
    assert_eq!(model.layer_count(), 0);
    let out = model.forward(&xor_inputs()).expect("forward failed");
    assert_eq!(values(&out), values(&xor_inputs()));
}

#[test]
fn slicing_all_rows_copies_the_tensor() {
    let t = tensor(vec![1.0, 2.0, 3.0, 4.0, 5.0, 6.0], 3, 2);
    let all = slice_rows(&t, 0, 3).expect("slice failed");
    assert_eq!(all.shape(), (3, 2));
    assert_eq!(values(&all), values(&t));
}
