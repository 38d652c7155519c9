//! The decision network: a small feed-forward network over fixed-point
//! numbers, with a one-step memory (the previous output is concatenated onto
//! the next input) and a plain gradient-descent training step.
//!
//! Activations live in `[0, UNIT]`; weights and biases are fixed-point with
//! the same scale and are kept inside `[-W_LIMIT, W_LIMIT]` so every affine
//! transform fits in 64 bits.

use vstd::prelude::*;

use crate::data::{Entity, GameData, Has, Insert};
use crate::lazy::lazy_eq;
use crate::math::{clamp_i128, clamp_spec, div_floor};
use crate::rng::rand_range;
use crate::{DIM_LIMIT, UNIT, W_LIMIT};

verus! {

/// Largest magnitude a backpropagated error term may take; larger gradients
/// saturate here.
pub const GRAD_LIMIT: i64 = 1000000;

/// A dense row-major matrix of fixed-point weights.
#[derive(Clone, Debug, PartialEq)]
pub struct Matrix {
    pub rows: usize,
    pub cols: usize,
    pub data: Vec<i64>,
}

impl Matrix {
    /// Structural invariant: the flat buffer holds exactly `rows * cols`
    /// bounded entries, and both dimensions are small.
    pub open spec fn wf(self) -> bool {
        &&& self.data@.len() == self.rows * self.cols
        &&& 1 <= self.rows <= DIM_LIMIT
        &&& 1 <= self.cols <= DIM_LIMIT
        &&& forall|k: int|
            0 <= k < self.data@.len() ==> -W_LIMIT <= #[trigger] self.data@[k] <= W_LIMIT
    }

    /// Entry at row `i`, column `j`.
    pub open spec fn at(self, i: int, j: int) -> int {
        self.data@[i * self.cols + j] as int
    }

    pub fn get(&self, i: usize, j: usize) -> (v: i64)
        requires
            self.wf(),
            i < self.rows,
            j < self.cols,
        ensures
            v == self.at(i as int, j as int),
    {
        proof {
            lemma_flat_index(self.rows as int, self.cols as int, i as int, j as int);
            assert(i as int * self.cols as int + j < 0x80000000) by (nonlinear_arith)
                requires
                    0 <= i < self.rows <= DIM_LIMIT as int,
                    0 <= j < self.cols <= DIM_LIMIT as int,
                    DIM_LIMIT == 2000,
            ;
        }
        self.data[i * self.cols + j]
    }
}

/// `i * cols + j` indexes inside a `rows * cols` buffer.
pub proof fn lemma_flat_index(rows: int, cols: int, i: int, j: int)
    requires
        0 <= i < rows,
        0 <= j < cols,
    ensures
        0 <= i * cols + j < rows * cols,
{
    assert(i * cols + j < rows * cols) by (nonlinear_arith)
        requires
            0 <= i < rows,
            0 <= j < cols,
    ;
    assert(0 <= i * cols) by (nonlinear_arith)
        requires
            0 <= i,
            0 <= cols,
    ;
}

/// Every entry of `v` is an activation in `[0, UNIT]`.
pub open spec fn activations_wf(v: Seq<i64>) -> bool {
    forall|k: int| 0 <= k < v.len() ==> 0 <= #[trigger] v[k] <= UNIT
}

/// One fresh network entry: the sum of twelve uniform draws, centred — the
/// classic integer rendering of a standard-normal sample of unit variance
/// (scale `UNIT`), kept exactly representable where a floating-point normal
/// sampler cannot be.
fn init_entry() -> (r: i64)
    ensures
        -W_LIMIT <= r <= W_LIMIT,
{
    let mut acc: i64 = 0;
    let mut k: usize = 0;
    while k < 12
        invariant
            k <= 12,
            0 <= acc <= k * 999,
        decreases 12 - k,
    {
        acc = acc + rand_range(0, 1000);
        k = k + 1;
    }
    acc - 6000
}

/// Builds a zero vector; used by the component constructors.
pub fn zero_vec(n: usize) -> (v: Vec<i64>)
    ensures
        v@.len() == n,
        forall|k: int| 0 <= k < n ==> #[trigger] v@[k] == 0,
{
    let mut v: Vec<i64> = Vec::new();
    while v.len() < n
        invariant
            v@.len() <= n,
            forall|k: int| 0 <= k < v@.len() ==> #[trigger] v@[k] == 0,
        decreases n - v@.len(),
    {
        v.push(0);
    }
    v
}

/// The sensory feature vector fed into the decision network.
#[derive(Clone, Debug, PartialEq)]
pub struct Inputs {
    pub input: Vec<i64>,
}

impl Inputs {
    pub fn new(n: usize) -> (r: Inputs)
        ensures
            r.input@.len() == n,
            forall|k: int| 0 <= k < n ==> #[trigger] r.input@[k] == 0,
    {
        Inputs { input: zero_vec(n) }
    }
}

/// The network's latest action distribution.
#[derive(Clone, Debug, PartialEq)]
pub struct Outputs {
    pub output: Vec<i64>,
}

impl Outputs {
    pub fn new(n: usize) -> (r: Outputs)
        ensures
            r.output@.len() == n,
            forall|k: int| 0 <= k < n ==> #[trigger] r.output@[k] == 0,
    {
        Outputs { output: zero_vec(n) }
    }
}

/// An optional training target for the network.
#[derive(Clone, Debug, PartialEq)]
pub struct Desired {
    pub desired: Vec<i64>,
}

impl Desired {
    pub fn new(n: usize) -> (r: Desired)
        ensures
            r.desired@.len() == n,
            forall|k: int| 0 <= k < n ==> #[trigger] r.desired@[k] == 0,
    {
        Desired { desired: zero_vec(n) }
    }
}

/// The decision network: one weight matrix and bias vector per layer
/// transition, plus the cached previous output that gives it memory.
#[derive(Clone, Debug, PartialEq)]
pub struct Network {
    pub cache_next: Vec<i64>,
    pub cache_prev: Vec<i64>,
    pub weights: Vec<Matrix>,
    pub biases: Vec<Vec<i64>>,
}

impl Network {
    /// Structural invariant: layers chain up, biases match their layer's
    /// output size, entries are bounded, and the memory caches hold
    /// activations sized like the final layer.
    pub open spec fn wf(self) -> bool {
        &&& self.weights@.len() == self.biases@.len()
        &&& self.weights@.len() >= 1
        &&& forall|l: int| 0 <= l < self.weights@.len() ==> (#[trigger] self.weights@[l]).wf()
        &&& forall|l: int|
            0 <= l < self.weights@.len() ==> (#[trigger] self.biases@[l])@.len()
                == self.weights@[l].rows
        &&& forall|l: int, k: int|
            0 <= l < self.biases@.len() && 0 <= k < self.biases@[l]@.len() ==> -W_LIMIT <= (
            #[trigger] self.biases@[l]@[k]) <= W_LIMIT
        &&& forall|l: int|
            1 <= l < self.weights@.len() ==> (#[trigger] self.weights@[l]).cols
                == self.weights@[l - 1].rows
        &&& self.cache_next@.len() == self.weights@[self.weights@.len() - 1].rows
        &&& self.cache_prev@.len() == self.cache_next@.len()
        &&& activations_wf(self.cache_next@)
        &&& activations_wf(self.cache_prev@)
    }

    /// Length of the sensory input the first layer expects (its column count
    /// minus the concatenated memory vector).
    pub open spec fn input_len(self) -> int {
        self.weights@[0].cols - self.cache_next@.len()
    }

    /// Length of the output vector the last layer produces.
    pub open spec fn output_len(self) -> int {
        self.weights@[self.weights@.len() - 1].rows as int
    }
}

/// The fixed-point sigmoid: `1/2 + z / (2 * (1 + |z|))` scaled by `UNIT`, a
/// rational squashing function with the logistic shape, exactly computable
/// over the integers. It is `UNIT/2` at zero and stays within `[0, UNIT]`.
pub open spec fn sigmoid_spec(z: int) -> int {
    (UNIT + (z * UNIT) / (UNIT + (if z >= 0 {
        z
    } else {
        -z
    }))) / 2
}

/// The sigmoid's value always lies in `[0, UNIT]`.
pub proof fn lemma_sigmoid_bounds(z: int)
    ensures
        0 <= sigmoid_spec(z) <= UNIT,
{
    let az = if z >= 0 {
        z
    } else {
        -z
    };
    let d = UNIT + az;
    assert(-(d * UNIT) <= z * UNIT && z * UNIT < d * UNIT) by (nonlinear_arith)
        requires
            d == UNIT + az,
            az == (if z >= 0 {
                z
            } else {
                -z
            }),
            UNIT == 1000,
    ;
    vstd::arithmetic::div_mod::lemma_div_multiples_vanish(-UNIT as int, d);
    assert(-(d * UNIT) == (-UNIT as int) * d) by (nonlinear_arith);
    vstd::arithmetic::div_mod::lemma_div_is_ordered(-(d * UNIT), z * UNIT, d);
    vstd::arithmetic::div_mod::lemma_multiply_divide_lt(z * UNIT, d, UNIT as int);
}

/// The fixed-point sigmoid of `z`.
pub fn sigmoid(n: i64) -> (s: i64)
    ensures
        s == sigmoid_spec(n as int),
        0 <= s <= UNIT,
{
    let zi: i128 = n as i128;
    let az: i128 = if zi >= 0 {
        zi
    } else {
        -zi
    };
    proof {
        assert(-10000000000000000000000 <= zi as int * UNIT as int <= 10000000000000000000000)
            by (nonlinear_arith)
            requires
                -9223372036854775808 <= zi as int <= 9223372036854775807,
                UNIT == 1000,
        ;
    }
    let q: i128 = div_floor(zi * UNIT as i128, UNIT as i128 + az);
    proof {
        lemma_sigmoid_bounds(n as int);
    }
    ((UNIT as i128 + q) / 2) as i64
}

/// The sigmoid's derivative in fixed point: `s * (UNIT - s) / UNIT`.
pub open spec fn sigmoid_der_spec(z: int) -> int {
    sigmoid_spec(z) * (UNIT - sigmoid_spec(z)) / (UNIT as int)
}

/// The fixed-point derivative of the sigmoid at `z`.
pub fn sigmoid_der(n: i64) -> (d: i64)
    ensures
        d == sigmoid_der_spec(n as int),
        0 <= d <= UNIT,
{
    let sig = sigmoid(n);
    proof {
        lemma_sigmoid_bounds(n as int);
        assert(0 <= sig as int * (UNIT - sig) <= 250000) by (nonlinear_arith)
            requires
                0 <= sig as int <= UNIT,
                UNIT == 1000,
        ;
        vstd::arithmetic::div_mod::lemma_div_pos_is_pos(sig as int * (UNIT - sig), UNIT as int);
        vstd::arithmetic::div_mod::lemma_div_is_ordered(
            sig as int * (UNIT - sig),
            250000,
            UNIT as int,
        );
    }
    sig * (UNIT - sig) / UNIT
}

/// Sum of squared differences over the first `n` entries.
pub open spec fn sq_err(r: Seq<i64>, d: Seq<i64>, n: int) -> int
    decreases n,
{
    if n <= 0 {
        0
    } else {
        sq_err(r, d, n - 1) + (r[n - 1] - d[n - 1]) * (r[n - 1] - d[n - 1])
    }
}

/// The sum-of-squared-error cost of a prediction against a target, rescaled
/// into fixed point.
pub open spec fn cost_spec(r: Seq<i64>, d: Seq<i64>) -> int {
    sq_err(r, d, r.len() as int) / (UNIT as int)
}

/// Sum-of-squared-error cost of `result` against `desired`. The rescale
/// floors: differences whose squared sum stays under one quantum cost
/// nothing, so a zero cost means equality only up to that quantum.
pub fn cost(result: &Vec<i64>, desired: &Vec<i64>) -> (c: i64)
    requires
        result@.len() == desired@.len(),
        result@.len() <= DIM_LIMIT,
        activations_wf(result@),
        activations_wf(desired@),
    ensures
        c == cost_spec(result@, desired@),
        0 <= c <= 2000000,
{
    let mut acc: i64 = 0;
    let mut i: usize = 0;
    while i < result.len()
        invariant
            i <= result@.len() <= DIM_LIMIT,
            result@.len() == desired@.len(),
            activations_wf(result@),
            activations_wf(desired@),
            acc == sq_err(result@, desired@, i as int),
            0 <= acc <= i * 1000000,
            DIM_LIMIT == 2000,
        decreases result@.len() - i,
    {
        let diff: i64 = result[i] - desired[i];
        proof {
            assert(0 <= diff as int * diff as int <= 1000000) by (nonlinear_arith)
                requires
                    -1000 <= diff as int <= 1000,
            ;
        }
        acc = acc + diff * diff;
        i = i + 1;
    }
    proof {
        vstd::arithmetic::div_mod::lemma_div_pos_is_pos(acc as int, UNIT as int);
        vstd::arithmetic::div_mod::lemma_div_is_ordered(acc as int, 2000000000, UNIT as int);
    }
    acc / UNIT
}

/// The outer-product gradient entry for weight `(i, j)`: the layer's error
/// term times the incoming activation, rescaled into fixed point.
pub open spec fn outer_entry(act: Seq<i64>, delta: Seq<i64>, i: int, j: int) -> int {
    (act[j] * delta[i]) / (UNIT as int)
}

/// The weight-gradient matrix for one layer: each entry the incoming
/// activation times the outgoing error term (rescaled into fixed point).
pub fn nabla_w_l(act: &Vec<i64>, delta: &Vec<i64>) -> (m: Matrix)
    requires
        1 <= act@.len() <= DIM_LIMIT,
        1 <= delta@.len() <= DIM_LIMIT,
        activations_wf(act@),
        forall|k: int|
            0 <= k < delta@.len() ==> -GRAD_LIMIT <= #[trigger] delta@[k] <= GRAD_LIMIT,
    ensures
        m.wf(),
        m.rows == delta@.len(),
        m.cols == act@.len(),
        forall|i: int, j: int|
            0 <= i < m.rows && 0 <= j < m.cols ==> m.at(i, j) == outer_entry(
                act@,
                delta@,
                i,
                j,
            ),
{
    let rows = delta.len();
    let cols = act.len();
    let mut data: Vec<i64> = Vec::new();
    let mut i: usize = 0;
    while i < rows
        invariant
            i <= rows,
            rows == delta@.len(),
            cols == act@.len(),
            1 <= rows <= DIM_LIMIT,
            1 <= cols <= DIM_LIMIT,
            activations_wf(act@),
            forall|k: int|
                0 <= k < delta@.len() ==> -GRAD_LIMIT <= #[trigger] delta@[k] <= GRAD_LIMIT,
            data@.len() == i * cols,
            forall|r: int, c: int|
                0 <= r < i && 0 <= c < cols ==> #[trigger] data@[r * cols + c] == outer_entry(
                    act@,
                    delta@,
                    r,
                    c,
                ),
            forall|k: int| 0 <= k < data@.len() ==> -W_LIMIT <= #[trigger] data@[k] <= W_LIMIT,
        decreases rows - i,
    {
        let mut j: usize = 0;
        while j < cols
            invariant
                i < rows,
                j <= cols,
                rows == delta@.len(),
                cols == act@.len(),
                1 <= rows <= DIM_LIMIT,
                1 <= cols <= DIM_LIMIT,
                activations_wf(act@),
                forall|k: int|
                    0 <= k < delta@.len() ==> -GRAD_LIMIT <= #[trigger] delta@[k] <= GRAD_LIMIT,
                data@.len() == i * cols + j,
                forall|r: int, c: int|
                    0 <= r < i && 0 <= c < cols ==> #[trigger] data@[r * cols + c] == outer_entry(
                        act@,
                        delta@,
                        r,
                        c,
                    ),
                forall|c: int|
                    0 <= c < j ==> #[trigger] data@[i * cols + c] == outer_entry(
                        act@,
                        delta@,
                        i as int,
                        c,
                    ),
                forall|k: int| 0 <= k < data@.len() ==> -W_LIMIT <= #[trigger] data@[k] <= W_LIMIT,
            decreases cols - j,
        {
            proof {
                assert(-1000000000 <= act@[j as int] as int * delta@[i as int] as int
                    <= 1000000000) by (nonlinear_arith)
                    requires
                        0 <= act@[j as int] as int <= 1000,
                        -1000000 <= delta@[i as int] as int <= 1000000,
                ;
            }
            let prod: i64 = act[j] * delta[i];
            proof {
                vstd::arithmetic::div_mod::lemma_div_is_ordered(
                    -1000000000,
                    prod as int,
                    UNIT as int,
                );
                vstd::arithmetic::div_mod::lemma_div_is_ordered(
                    prod as int,
                    1000000000,
                    UNIT as int,
                );
                assert((-1000000000) as int / (UNIT as int) == -1000000);
                assert(1000000000 as int / (UNIT as int) == 1000000);
                lemma_flat_index(rows as int, cols as int, i as int, j as int);
                assert((i * cols + j) + 1 == i as int * cols as int + (j as int + 1));
            }
            let entry: i64 = div_floor(prod as i128, UNIT as i128) as i64;
            data.push(entry);
            proof {
                assert forall|r: int, c: int| 0 <= r < i && 0 <= c < cols implies #[trigger] data@[r * cols + c] == outer_entry(act@, delta@, r, c) by {
                    lemma_flat_index(i as int, cols as int, r, c);
                }
            }
            j = j + 1;
        }
        proof {
            assert(i as int * cols as int + cols as int == (i as int + 1) * cols as int)
                by (nonlinear_arith);
            assert forall|r: int, c: int| 0 <= r < i as int + 1 && 0 <= c < cols implies #[trigger] data@[r * cols + c] == outer_entry(act@, delta@, r, c) by {
                if r == i as int {
                    assert(data@[i as int * cols + c] == outer_entry(act@, delta@, i as int, c));
                }
            }
        }
        i = i + 1;
    }
    Matrix { rows, cols, data }
}

/// Dot product of row `i` of `w` with the first `n` entries of `x`.
pub open spec fn row_dot(w: Matrix, x: Seq<i64>, i: int, n: int) -> int
    decreases n,
{
    if n <= 0 {
        0
    } else {
        row_dot(w, x, i, n - 1) + w.at(i, n - 1) * x[n - 1]
    }
}

/// The pre-activation of unit `i`: the rescaled dot product plus the bias.
pub open spec fn layer_z(w: Matrix, b: Seq<i64>, x: Seq<i64>, i: int) -> int {
    row_dot(w, x, i, w.cols as int) / (UNIT as int) + b[i]
}

/// One layer's activations: the affine transform followed by the sigmoid.
pub open spec fn layer_out(w: Matrix, b: Seq<i64>, x: Seq<i64>) -> Seq<i64> {
    Seq::new(w.rows as nat, |i: int| sigmoid_spec(layer_z(w, b, x, i)) as i64)
}

/// The network's output after the first `l` layers on `x`.
pub open spec fn net_out(weights: Seq<Matrix>, biases: Seq<Vec<i64>>, x: Seq<i64>, l: int) -> Seq<
    i64,
>
    decreases l,
{
    if l <= 0 {
        x
    } else {
        layer_out(weights[l - 1], biases[l - 1]@, net_out(weights, biases, x, l - 1))
    }
}

/// What a whole forward pass returns: every layer applied to the previous
/// output vector concatenated with the sensory input.
pub open spec fn ff_spec(n: Network, input: Seq<i64>) -> Seq<i64> {
    net_out(n.weights@, n.biases@, n.cache_next@ + input, n.weights@.len() as int)
}

/// What one forward pass does to a network: weights, biases and the
/// training memory stay; the output cache becomes the pass's result.
pub open spec fn ff_rel(pre: Network, post: Network, input: Seq<i64>) -> bool {
    &&& post.weights@ == pre.weights@
    &&& post.biases@ == pre.biases@
    &&& post.cache_prev@ == pre.cache_prev@
    &&& post.cache_next@ == ff_spec(pre, input)
}

/// What one training step does to a network: every weight and bias takes
/// the saturating gradient step against the backpropagated squared-error
/// gradient on the remembered-plus-current input, scaled by `eta`; the
/// output cache stays; the memory becomes the input when the lengths agree.
pub open spec fn updated_rel(
    pre: Network,
    post: Network,
    input: Seq<i64>,
    desired: Seq<i64>,
    eta: int,
) -> bool {
    &&& post.weights@.len() == pre.weights@.len()
    &&& post.biases@.len() == pre.biases@.len()
    &&& forall|l: int|
        0 <= l < post.weights@.len() ==> (#[trigger] post.weights@[l]).rows
            == pre.weights@[l].rows && post.weights@[l].cols == pre.weights@[l].cols
    &&& post.cache_next@ == pre.cache_next@
    &&& forall|l: int, i: int, j: int|
        0 <= l < post.weights@.len() && 0 <= i < post.weights@[l].rows && 0 <= j
            < post.weights@[l].cols ==> #[trigger] post.weights@[l].at(i, j) == clamp_spec(
            pre.weights@[l].at(i, j) - (outer_entry(
                acts_at(pre, pre.cache_prev@ + input, l),
                delta_at(pre, pre.cache_prev@ + input, desired, l),
                i,
                j,
            ) * eta) / (UNIT as int),
            W_LIMIT as int,
        ) as i64
    &&& forall|l: int, i: int|
        0 <= l < post.biases@.len() && 0 <= i < post.biases@[l]@.len()
            ==> #[trigger] post.biases@[l]@[i] == clamp_spec(
            pre.biases@[l]@[i] - (delta_at(pre, pre.cache_prev@ + input, desired, l)[i] * eta) / (
            UNIT as int),
            W_LIMIT as int,
        ) as i64
    &&& (input.len() == pre.cache_prev@.len() ==> post.cache_prev@ == input)
    &&& (input.len() != pre.cache_prev@.len() ==> post.cache_prev@ == pre.cache_prev@)
}

/// The activations entering layer `l` (the concatenated input itself for
/// `l == 0`).
pub open spec fn acts_at(n: Network, x0: Seq<i64>, l: int) -> Seq<i64> {
    net_out(n.weights@, n.biases@, x0, l)
}

/// The pre-activations of layer `l`.
pub open spec fn zs_at(n: Network, x0: Seq<i64>, l: int) -> Seq<i64> {
    Seq::new(
        n.weights@[l].rows as nat,
        |i: int| layer_z(n.weights@[l], n.biases@[l]@, acts_at(n, x0, l), i) as i64,
    )
}

/// Dot product of column `j` of `w` with the first `n` entries of `delta` —
/// the transposed product that carries error terms backwards.
pub open spec fn col_dot(w: Matrix, delta: Seq<i64>, j: int, n: int) -> int
    decreases n,
{
    if n <= 0 {
        0
    } else {
        col_dot(w, delta, j, n - 1) + w.at(n - 1, j) * delta[n - 1]
    }
}

/// The error terms of layer `l` of the squared-error cost: at the last
/// layer the output error times the sigmoid derivative; earlier, the next
/// layer's terms carried back through the transposed weights — every
/// division floored into fixed point and every term saturated at
/// `GRAD_LIMIT`.
pub open spec fn delta_at(n: Network, x0: Seq<i64>, desired: Seq<i64>, l: int) -> Seq<i64>
    decreases n.weights@.len() - l,
{
    if l == n.weights@.len() - 1 {
        Seq::new(
            n.weights@[l].rows as nat,
            |i: int|
                clamp_spec(
                    ((acts_at(n, x0, l + 1)[i] - desired[i]) * sigmoid_der_spec(
                        zs_at(n, x0, l)[i] as int,
                    )) / (UNIT as int),
                    GRAD_LIMIT as int,
                ) as i64,
        )
    } else if l < 0 || l >= n.weights@.len() {
        Seq::empty()
    } else {
        Seq::new(
            n.weights@[l].rows as nat,
            |i: int|
                clamp_spec(
                    (clamp_spec(
                        col_dot(
                            n.weights@[l + 1],
                            delta_at(n, x0, desired, l + 1),
                            i,
                            n.weights@[l + 1].rows as int,
                        ) / (UNIT as int),
                        GRAD_LIMIT as int,
                    ) * sigmoid_der_spec(zs_at(n, x0, l)[i] as int)) / (UNIT as int),
                    GRAD_LIMIT as int,
                ) as i64,
        )
    }
}

/// A partial column dot product over bounded entries is bounded.
proof fn lemma_col_dot_bound(w: Matrix, delta: Seq<i64>, j: int, n: int)
    requires
        w.wf(),
        grads_wf(delta),
        0 <= j < w.cols,
        0 <= n <= w.rows,
        delta.len() == w.rows,
    ensures
        -n * 1000000000000000 <= col_dot(w, delta, j, n) <= n * 1000000000000000,
    decreases n,
{
    if n > 0 {
        lemma_col_dot_bound(w, delta, j, n - 1);
        lemma_flat_index(w.rows as int, w.cols as int, n - 1, j);
        assert(-W_LIMIT <= w.at(n - 1, j) <= W_LIMIT);
        assert(-1000000000 <= delta[n - 1] <= 1000000000);
        assert(-1000000000000000 <= w.at(n - 1, j) * delta[n - 1] <= 1000000000000000)
            by (nonlinear_arith)
            requires
                -1000000000 <= w.at(n - 1, j) <= 1000000000,
                -1000000 <= delta[n - 1] <= 1000000,
        ;
        assert(-n * 1000000000000000 <= col_dot(w, delta, j, n) <= n * 1000000000000000)
            by (nonlinear_arith)
            requires
                col_dot(w, delta, j, n) == col_dot(w, delta, j, n - 1) + w.at(n - 1, j) * delta[n
                    - 1],
                -(n - 1) * 1000000000000000 <= col_dot(w, delta, j, n - 1) <= (n - 1)
                    * 1000000000000000,
                -1000000000000000 <= w.at(n - 1, j) * delta[n - 1] <= 1000000000000000,
        ;
    }
}

/// A partial row dot product over bounded entries is bounded.
proof fn lemma_row_dot_bound(w: Matrix, x: Seq<i64>, i: int, n: int)
    requires
        w.wf(),
        activations_wf(x),
        0 <= i < w.rows,
        0 <= n <= w.cols,
        x.len() == w.cols,
    ensures
        -n * 1000000000000 <= row_dot(w, x, i, n) <= n * 1000000000000,
    decreases n,
{
    if n <= 0 {
    } else {
        lemma_row_dot_bound(w, x, i, n - 1);
        lemma_flat_index(w.rows as int, w.cols as int, i, n - 1);
        assert(-W_LIMIT <= w.at(i, n - 1) <= W_LIMIT);
        assert(0 <= x[n - 1] <= UNIT);
        assert(-1000000000000 <= w.at(i, n - 1) * x[n - 1] <= 1000000000000) by (nonlinear_arith)
            requires
                -1000000000 <= w.at(i, n - 1) <= 1000000000,
                0 <= x[n - 1] <= 1000,
        ;
        assert(row_dot(w, x, i, n) == row_dot(w, x, i, n - 1) + w.at(i, n - 1) * x[n - 1]);
        assert(-(n - 1) * 1000000000000 <= row_dot(w, x, i, n - 1) <= (n - 1) * 1000000000000);
        assert(-n * 1000000000000 <= row_dot(w, x, i, n) <= n * 1000000000000)
            by (nonlinear_arith)
            requires
                row_dot(w, x, i, n) == row_dot(w, x, i, n - 1) + w.at(i, n - 1) * x[n - 1],
                -(n - 1) * 1000000000000 <= row_dot(w, x, i, n - 1) <= (n - 1) * 1000000000000,
                -1000000000000 <= w.at(i, n - 1) * x[n - 1] <= 1000000000000,
        ;
    }
}

/// An exact copy of a plain vector.
pub fn copy_vec(v: &Vec<i64>) -> (r: Vec<i64>)
    ensures
        r@ == v@,
{
    let mut r: Vec<i64> = Vec::new();
    let mut i: usize = 0;
    while i < v.len()
        invariant
            i <= v@.len(),
            r@ == v@.take(i as int),
        decreases v@.len() - i,
    {
        r.push(v[i]);
        proof {
            assert(v@.take(i as int + 1) =~= v@.take(i as int).push(v@[i as int]));
        }
        i = i + 1;
    }
    proof {
        assert(v@.take(v@.len() as int) =~= v@);
    }
    r
}

/// One layer of the forward pass: multiply, rescale, add the bias, squash.
fn affine_sigmoid(w: &Matrix, b: &Vec<i64>, x: &Vec<i64>) -> (r: Vec<i64>)
    requires
        w.wf(),
        b@.len() == w.rows,
        x@.len() == w.cols,
        activations_wf(x@),
        forall|k: int| 0 <= k < b@.len() ==> -W_LIMIT <= #[trigger] b@[k] <= W_LIMIT,
    ensures
        r@ == layer_out(*w, b@, x@),
        r@.len() == w.rows,
        activations_wf(r@),
{
    let mut r: Vec<i64> = Vec::new();
    let mut i: usize = 0;
    while i < w.rows
        invariant
            i <= w.rows,
            w.wf(),
            b@.len() == w.rows,
            x@.len() == w.cols,
            activations_wf(x@),
            forall|k: int| 0 <= k < b@.len() ==> -W_LIMIT <= #[trigger] b@[k] <= W_LIMIT,
            r@.len() == i,
            forall|k: int|
                0 <= k < i ==> #[trigger] r@[k] == sigmoid_spec(layer_z(*w, b@, x@, k)) as i64,
            activations_wf(r@),
        decreases w.rows - i,
    {
        let mut acc: i128 = 0;
        let mut j: usize = 0;
        while j < w.cols
            invariant
                i < w.rows,
                j <= w.cols,
                w.wf(),
                x@.len() == w.cols,
                activations_wf(x@),
                acc == row_dot(*w, x@, i as int, j as int),
                -2000 * 1000000000000 <= acc <= 2000 * 1000000000000,
            decreases w.cols - j,
        {
            let wij = w.get(i, j);
            let xj = x[j];
            proof {
                lemma_flat_index(w.rows as int, w.cols as int, i as int, j as int);
                assert(-W_LIMIT <= w.at(i as int, j as int) <= W_LIMIT);
                assert(-1000000000000 <= wij as int * xj as int <= 1000000000000)
                    by (nonlinear_arith)
                    requires
                        -1000000000 <= wij as int <= 1000000000,
                        0 <= xj as int <= 1000,
                ;
                lemma_row_dot_bound(*w, x@, i as int, j as int);
            }
            acc = acc + wij as i128 * xj as i128;
            proof {
                lemma_row_dot_bound(*w, x@, i as int, j as int + 1);
            }
            j = j + 1;
        }
        let z_wide: i128 = div_floor(acc, UNIT as i128) + b[i] as i128;
        proof {
            vstd::arithmetic::div_mod::lemma_div_is_ordered(
                acc as int,
                2000000000000000,
                UNIT as int,
            );
            vstd::arithmetic::div_mod::lemma_div_is_ordered(
                -2000000000000000,
                acc as int,
                UNIT as int,
            );
        }
        let z: i64 = z_wide as i64;
        let s = sigmoid(z);
        r.push(s);
        i = i + 1;
    }
    proof {
        assert(r@ =~= layer_out(*w, b@, x@));
    }
    r
}

impl Network {
    /// Builds a network for the given layer sizes, the first layer widened
    /// by the output size so the previous output can be concatenated onto
    /// the input. Weights and biases start as independent, approximately
    /// standard-normal draws (see `init_entry`) — the only source of initial
    /// behavioural diversity.
    pub fn new(layers: &Vec<usize>) -> (r: Network)
        requires
            2 <= layers@.len() <= 100,
            forall|k: int| 0 <= k < layers@.len() ==> 1 <= #[trigger] layers@[k] <= 500,
        ensures
            r.wf(),
            r.input_len() == layers@[0],
            r.output_len() == layers@[layers@.len() - 1],
            r.weights@.len() == layers@.len() - 1,
            r.biases@.len() == layers@.len() - 1,
            r.weights@[0].cols == layers@[0] + layers@[layers@.len() - 1],
            forall|l: int|
                0 <= l < r.weights@.len() ==> (#[trigger] r.weights@[l]).rows == layers@[l + 1],
            forall|l: int|
                1 <= l < r.weights@.len() ==> (#[trigger] r.weights@[l]).cols == layers@[l],
            forall|l: int|
                0 <= l < r.biases@.len() ==> (#[trigger] r.biases@[l])@.len() == layers@[l + 1],
            r.cache_next@.len() == layers@[layers@.len() - 1],
            r.cache_prev@.len() == layers@[layers@.len() - 1],
            forall|k: int| 0 <= k < r.cache_next@.len() ==> #[trigger] r.cache_next@[k] == 0,
            forall|k: int| 0 <= k < r.cache_prev@.len() ==> #[trigger] r.cache_prev@[k] == 0,
    {
        let last: usize = layers[layers.len() - 1];
        let mut weights: Vec<Matrix> = Vec::new();
        let mut biases: Vec<Vec<i64>> = Vec::new();
        let mut l: usize = 1;
        while l < layers.len()
            invariant
                1 <= l <= layers@.len(),
                2 <= layers@.len() <= 100,
                forall|k: int| 0 <= k < layers@.len() ==> 1 <= #[trigger] layers@[k] <= 500,
                last == layers@[layers@.len() - 1],
                weights@.len() == l - 1,
                biases@.len() == l - 1,
                forall|k: int| 0 <= k < weights@.len() ==> (#[trigger] weights@[k]).wf(),
                forall|k: int|
                    0 <= k < weights@.len() ==> (#[trigger] weights@[k]).rows == layers@[k + 1],
                weights@.len() >= 1 ==> weights@[0].cols == layers@[0] + last,
                forall|k: int|
                    1 <= k < weights@.len() ==> (#[trigger] weights@[k]).cols == weights@[k
                        - 1].rows,
                forall|k: int|
                    1 <= k < weights@.len() ==> (#[trigger] weights@[k]).cols == layers@[k],
                forall|k: int|
                    0 <= k < biases@.len() ==> (#[trigger] biases@[k])@.len()
                        == weights@[k].rows,
                forall|k: int, t: int|
                    0 <= k < biases@.len() && 0 <= t < biases@[k]@.len() ==> -W_LIMIT <= (
                    #[trigger] biases@[k]@[t]) <= W_LIMIT,
            decreases layers@.len() - l,
        {
            let rows: usize = layers[l];
            let cols: usize = if l == 1 {
                layers[0] + last
            } else {
                layers[l - 1]
            };
            let mut data: Vec<i64> = Vec::new();
            proof {
                assert(rows as int * cols as int <= 500000) by (nonlinear_arith)
                    requires
                        1 <= rows as int <= 500,
                        1 <= cols as int <= 1000,
                ;
            }
            let total: usize = rows * cols;
            while data.len() < total
                invariant
                    data@.len() <= total,
                    forall|k: int|
                        0 <= k < data@.len() ==> -W_LIMIT <= #[trigger] data@[k] <= W_LIMIT,
                decreases total - data@.len(),
            {
                data.push(init_entry());
            }
            let mut bias: Vec<i64> = Vec::new();
            while bias.len() < rows
                invariant
                    bias@.len() <= rows,
                    forall|k: int|
                        0 <= k < bias@.len() ==> -W_LIMIT <= #[trigger] bias@[k] <= W_LIMIT,
                decreases rows - bias@.len(),
            {
                bias.push(init_entry());
            }
            weights.push(Matrix { rows, cols, data });
            biases.push(bias);
            l = l + 1;
        }
        let cache_next = zero_vec(last);
        let cache_prev = zero_vec(last);
        Network { cache_next, cache_prev, weights, biases }
    }

    /// Runs the forward pass on a sensory input: the cached previous output
    /// is concatenated in front, each layer applies its affine transform and
    /// the sigmoid, and the result becomes the new cached output.
    pub fn feedforward(&mut self, layer: &Vec<i64>) -> (out: Vec<i64>)
        requires
            old(self).wf(),
            layer@.len() == old(self).input_len(),
            activations_wf(layer@),
        ensures
            final(self).wf(),
            out@ == ff_spec(*old(self), layer@),
            out@.len() == old(self).output_len(),
            activations_wf(out@),
            final(self).cache_next@ == out@,
            final(self).cache_prev@ == old(self).cache_prev@,
            final(self).weights@ == old(self).weights@,
            final(self).biases@ == old(self).biases@,
            final(self).input_len() == old(self).input_len(),
            final(self).output_len() == old(self).output_len(),
            ff_rel(*old(self), *final(self), layer@),
    {
        let ghost pre = *self;
        let mut x: Vec<i64> = copy_vec(&self.cache_next);
        let mut i: usize = 0;
        while i < layer.len()
            invariant
                i <= layer@.len(),
                x@ == pre.cache_next@ + layer@.take(i as int),
                pre.wf(),
                activations_wf(layer@),
                activations_wf(pre.cache_next@),
            decreases layer@.len() - i,
        {
            x.push(layer[i]);
            proof {
                assert(pre.cache_next@ + layer@.take(i as int + 1) =~= (pre.cache_next@
                    + layer@.take(i as int)).push(layer@[i as int]));
            }
            i = i + 1;
        }
        proof {
            assert(layer@.take(layer@.len() as int) =~= layer@);
            assert(activations_wf(x@));
        }
        let mut l: usize = 0;
        while l < self.weights.len()
            invariant
                l <= self.weights@.len(),
                *self == pre,
                pre.wf(),
                x@ == net_out(pre.weights@, pre.biases@, pre.cache_next@ + layer@, l as int),
                activations_wf(x@),
                x@.len() == (if l == 0 {
                    pre.weights@[0].cols as int
                } else {
                    pre.weights@[l - 1].rows as int
                }),
                layer@.len() == pre.input_len(),
            decreases self.weights@.len() - l,
        {
            x = affine_sigmoid(&self.weights[l], &self.biases[l], &x);
            l = l + 1;
        }
        let out = copy_vec(&x);
        self.cache_next = x;
        out
    }
}

/// The pre-activations of one layer (the affine transform before the
/// squash), each within `Z_LIMIT`.
fn affine(w: &Matrix, b: &Vec<i64>, x: &Vec<i64>) -> (r: Vec<i64>)
    requires
        w.wf(),
        b@.len() == w.rows,
        x@.len() == w.cols,
        activations_wf(x@),
        forall|k: int| 0 <= k < b@.len() ==> -W_LIMIT <= #[trigger] b@[k] <= W_LIMIT,
    ensures
        r@.len() == w.rows,
        forall|k: int|
            0 <= k < r@.len() ==> #[trigger] r@[k] == layer_z(*w, b@, x@, k)
                && -3000000000000 <= r@[k] <= 3000000000000,
{
    let mut r: Vec<i64> = Vec::new();
    let mut i: usize = 0;
    while i < w.rows
        invariant
            i <= w.rows,
            w.wf(),
            b@.len() == w.rows,
            x@.len() == w.cols,
            activations_wf(x@),
            forall|k: int| 0 <= k < b@.len() ==> -W_LIMIT <= #[trigger] b@[k] <= W_LIMIT,
            r@.len() == i,
            forall|k: int|
                0 <= k < r@.len() ==> #[trigger] r@[k] == layer_z(*w, b@, x@, k)
                    && -3000000000000 <= r@[k] <= 3000000000000,
        decreases w.rows - i,
    {
        let mut acc: i128 = 0;
        let mut j: usize = 0;
        while j < w.cols
            invariant
                i < w.rows,
                j <= w.cols,
                w.wf(),
                x@.len() == w.cols,
                activations_wf(x@),
                acc == row_dot(*w, x@, i as int, j as int),
                -2000 * 1000000000000 <= acc <= 2000 * 1000000000000,
            decreases w.cols - j,
        {
            let wij = w.get(i, j);
            let xj = x[j];
            proof {
                lemma_flat_index(w.rows as int, w.cols as int, i as int, j as int);
                assert(-W_LIMIT <= w.at(i as int, j as int) <= W_LIMIT);
                assert(-1000000000000 <= wij as int * xj as int <= 1000000000000)
                    by (nonlinear_arith)
                    requires
                        -1000000000 <= wij as int <= 1000000000,
                        0 <= xj as int <= 1000,
                ;
                lemma_row_dot_bound(*w, x@, i as int, j as int);
            }
            acc = acc + wij as i128 * xj as i128;
            proof {
                lemma_row_dot_bound(*w, x@, i as int, j as int + 1);
            }
            j = j + 1;
        }
        proof {
            vstd::arithmetic::div_mod::lemma_div_is_ordered(
                acc as int,
                2000000000000000,
                UNIT as int,
            );
            vstd::arithmetic::div_mod::lemma_div_is_ordered(
                -2000000000000000,
                acc as int,
                UNIT as int,
            );
        }
        let z: i64 = (div_floor(acc, UNIT as i128) + b[i] as i128) as i64;
        r.push(z);
        i = i + 1;
    }
    r
}

/// Error terms the backward pass propagates: bounded by `GRAD_LIMIT`.
pub open spec fn grads_wf(v: Seq<i64>) -> bool {
    forall|k: int| 0 <= k < v.len() ==> -GRAD_LIMIT <= #[trigger] v[k] <= GRAD_LIMIT
}

/// The transposed-weights product that carries error terms one layer back,
/// rescaled into fixed point and saturated at `GRAD_LIMIT`: entry `j` is
/// exactly `clamp(col_dot / UNIT)`.
fn backput(w: &Matrix, delta: &Vec<i64>) -> (r: Vec<i64>)
    requires
        w.wf(),
        delta@.len() == w.rows,
        grads_wf(delta@),
    ensures
        r@.len() == w.cols,
        grads_wf(r@),
        forall|j: int|
            0 <= j < w.cols ==> #[trigger] r@[j] == clamp_spec(
                col_dot(*w, delta@, j, w.rows as int) / (UNIT as int),
                GRAD_LIMIT as int,
            ) as i64,
{
    let mut r: Vec<i64> = Vec::new();
    let mut j: usize = 0;
    while j < w.cols
        invariant
            j <= w.cols,
            w.wf(),
            delta@.len() == w.rows,
            grads_wf(delta@),
            r@.len() == j,
            grads_wf(r@),
            forall|t: int|
                0 <= t < j ==> #[trigger] r@[t] == clamp_spec(
                    col_dot(*w, delta@, t, w.rows as int) / (UNIT as int),
                    GRAD_LIMIT as int,
                ) as i64,
        decreases w.cols - j,
    {
        let mut acc: i128 = 0;
        let mut i: usize = 0;
        while i < w.rows
            invariant
                j < w.cols,
                i <= w.rows,
                w.wf(),
                delta@.len() == w.rows,
                grads_wf(delta@),
                acc == col_dot(*w, delta@, j as int, i as int),
                -2000 * 1000000000000000 <= acc <= 2000 * 1000000000000000,
            decreases w.rows - i,
        {
            let wij = w.get(i, j);
            let di = delta[i];
            proof {
                lemma_flat_index(w.rows as int, w.cols as int, i as int, j as int);
                assert(-W_LIMIT <= w.at(i as int, j as int) <= W_LIMIT);
                assert(-1000000000000000 <= wij as int * di as int <= 1000000000000000)
                    by (nonlinear_arith)
                    requires
                        -1000000000 <= wij as int <= 1000000000,
                        -1000000 <= di as int <= 1000000,
                ;
                lemma_col_dot_bound(*w, delta@, j as int, i as int);
                lemma_col_dot_bound(*w, delta@, j as int, i as int + 1);
            }
            acc = acc + wij as i128 * di as i128;
            i = i + 1;
        }
        r.push(clamp_i128(div_floor(acc, UNIT as i128), GRAD_LIMIT));
        j = j + 1;
    }
    r
}


impl Network {
    /// Backpropagates the squared-error gradient through every layer: runs
    /// the forward pass remembering each pre-activation, then carries the
    /// error terms backwards with the sigmoid derivative. The gradients are
    /// pinned exactly: one bias-gradient vector `delta_at` and one
    /// weight-gradient matrix of `outer_entry` terms per layer (error terms
    /// saturate at `GRAD_LIMIT`). The network itself is unchanged.
    pub fn backprop(
        &mut self,
        nabla_b: &mut Vec<Vec<i64>>,
        nabla_w: &mut Vec<Matrix>,
        input: &Vec<i64>,
        desired: &Vec<i64>,
    )
        requires
            old(self).wf(),
            input@.len() == old(self).weights@[0].cols,
            activations_wf(input@),
            desired@.len() == old(self).output_len(),
            activations_wf(desired@),
        ensures
            *final(self) == *old(self),
            final(nabla_w)@.len() == old(self).weights@.len(),
            final(nabla_b)@.len() == old(self).weights@.len(),
            forall|l: int|
                0 <= l < final(nabla_w)@.len() ==> (#[trigger] final(nabla_w)@[l]).wf()
                    && final(nabla_w)@[l].rows == old(self).weights@[l].rows
                    && final(nabla_w)@[l].cols == old(self).weights@[l].cols,
            forall|l: int|
                0 <= l < final(nabla_b)@.len() ==> (#[trigger] final(nabla_b)@[l])@ == delta_at(
                    *old(self),
                    input@,
                    desired@,
                    l,
                ),
            forall|l: int, i: int, j: int|
                0 <= l < final(nabla_w)@.len() && 0 <= i < final(nabla_w)@[l].rows && 0 <= j
                    < final(nabla_w)@[l].cols ==> #[trigger] final(nabla_w)@[l].at(i, j)
                    == outer_entry(
                    acts_at(*old(self), input@, l),
                    delta_at(*old(self), input@, desired@, l),
                    i,
                    j,
                ),
    {
        let ghost nref = *self;
        let ghost x0 = input@;
        let ghost want = desired@;
        let n = self.weights.len();
        let mut acts: Vec<Vec<i64>> = Vec::new();
        let mut zs: Vec<Vec<i64>> = Vec::new();
        acts.push(copy_vec(input));
        let mut l: usize = 0;
        while l < n
            invariant
                l <= n,
                *self == nref,
                n == nref.weights@.len(),
                nref.wf(),
                x0 == input@,
                input@.len() == nref.weights@[0].cols,
                activations_wf(input@),
                acts@.len() == l + 1,
                zs@.len() == l,
                forall|k: int| 0 <= k <= l ==> (#[trigger] acts@[k])@ == acts_at(nref, x0, k),
                forall|k: int| 0 <= k <= l ==> activations_wf((#[trigger] acts@[k])@),
                forall|k: int|
                    0 <= k <= l ==> (#[trigger] acts@[k])@.len() == (if k == 0 {
                        nref.weights@[0].cols as int
                    } else {
                        nref.weights@[k - 1].rows as int
                    }),
                forall|k: int| 0 <= k < l ==> (#[trigger] zs@[k])@ == zs_at(nref, x0, k),
                forall|k: int|
                    0 <= k < l ==> (#[trigger] zs@[k])@.len() == nref.weights@[k].rows,
            decreases n - l,
        {
            let z = affine(&self.weights[l], &self.biases[l], &acts[l]);
            let mut a: Vec<i64> = Vec::new();
            let mut t: usize = 0;
            while t < z.len()
                invariant
                    t <= z@.len(),
                    a@.len() == t,
                    activations_wf(a@),
                    forall|u: int|
                        0 <= u < t ==> #[trigger] a@[u] == sigmoid_spec(z@[u] as int) as i64,
                decreases z@.len() - t,
            {
                a.push(sigmoid(z[t]));
                t = t + 1;
            }
            proof {
                assert(z@ =~= zs_at(nref, x0, l as int));
                assert(a@ =~= layer_out(
                    nref.weights@[l as int],
                    nref.biases@[l as int]@,
                    acts_at(nref, x0, l as int),
                ));
                assert(a@ == acts_at(nref, x0, l as int + 1));
            }
            zs.push(z);
            acts.push(a);
            l = l + 1;
        }
        proof {
            assert(acts@[n as int]@ == acts_at(nref, x0, n as int));
            assert(zs@[n - 1]@ == zs_at(nref, x0, n as int - 1));
        }
        // error terms at the output layer
        let out = &acts[n];
        let zlast = &zs[n - 1];
        let mut delta: Vec<i64> = Vec::new();
        let mut t: usize = 0;
        while t < out.len()
            invariant
                t <= out@.len(),
                out@ == acts_at(nref, x0, n as int),
                zlast@ == zs_at(nref, x0, n as int - 1),
                out@.len() == want.len(),
                out@.len() == zlast@.len(),
                want == desired@,
                n == nref.weights@.len(),
                nref.wf(),
                delta@.len() == t,
                grads_wf(delta@),
                activations_wf(out@),
                activations_wf(desired@),
                forall|u: int|
                    0 <= u < t ==> #[trigger] delta@[u] == clamp_spec(
                        ((out@[u] - want[u]) * sigmoid_der_spec(zlast@[u] as int)) / (UNIT as int),
                        GRAD_LIMIT as int,
                    ) as i64,
            decreases out@.len() - t,
        {
            let diff: i64 = out[t] - desired[t];
            let der: i64 = sigmoid_der(zlast[t]);
            proof {
                assert(-1000000 <= diff as int * der as int <= 1000000) by (nonlinear_arith)
                    requires
                        -1000 <= diff as int <= 1000,
                        0 <= der as int <= 1000,
                ;
            }
            delta.push(clamp_i128(div_floor(diff as i128 * der as i128, UNIT as i128), GRAD_LIMIT));
            t = t + 1;
        }
        proof {
            assert(delta@ =~= delta_at(nref, x0, want, n as int - 1));
        }
        nabla_w.clear();
        nabla_b.clear();
        // walk the layers backwards, building the gradients front-to-back at
        // the end
        let mut rev_w: Vec<Matrix> = Vec::new();
        let mut rev_b: Vec<Vec<i64>> = Vec::new();
        let mut back: usize = 0;
        while back < n
            invariant
                back <= n,
                *self == nref,
                n == nref.weights@.len(),
                nref.wf(),
                x0 == input@,
                want == desired@,
                acts@.len() == n + 1,
                zs@.len() == n,
                forall|k: int| 0 <= k <= n ==> (#[trigger] acts@[k])@ == acts_at(nref, x0, k),
                forall|k: int| 0 <= k <= n ==> activations_wf((#[trigger] acts@[k])@),
                forall|k: int|
                    0 <= k < n ==> (#[trigger] acts@[k])@.len() == (if k == 0 {
                        nref.weights@[0].cols as int
                    } else {
                        nref.weights@[k - 1].rows as int
                    }),
                forall|k: int| 0 <= k < n ==> (#[trigger] zs@[k])@ == zs_at(nref, x0, k),
                forall|k: int|
                    0 <= k < n ==> (#[trigger] zs@[k])@.len() == nref.weights@[k].rows,
                back < n ==> delta@ == delta_at(nref, x0, want, n as int - 1 - back),
                back < n ==> delta@.len() == nref.weights@[n - 1 - back].rows,
                grads_wf(delta@),
                rev_w@.len() == back,
                rev_b@.len() == back,
                forall|k: int|
                    0 <= k < back ==> (#[trigger] rev_w@[k]).wf() && rev_w@[k].rows
                        == nref.weights@[n - 1 - k].rows && rev_w@[k].cols == nref.weights@[n - 1
                        - k].cols,
                forall|k: int, i: int, j: int|
                    0 <= k < back && 0 <= i < rev_w@[k].rows && 0 <= j < rev_w@[k].cols
                        ==> #[trigger] rev_w@[k].at(i, j) == outer_entry(
                        acts_at(nref, x0, n as int - 1 - k),
                        delta_at(nref, x0, want, n as int - 1 - k),
                        i,
                        j,
                    ),
                forall|k: int|
                    0 <= k < back ==> (#[trigger] rev_b@[k])@ == delta_at(
                        nref,
                        x0,
                        want,
                        n as int - 1 - k,
                    ),
            decreases n - back,
        {
            let li = n - 1 - back;
            let gw = nabla_w_l(&acts[li], &delta);
            rev_w.push(gw);
            rev_b.push(copy_vec(&delta));
            if back + 1 < n {
                let carried = backput(&self.weights[li], &delta);
                let zprev = &zs[li - 1];
                proof {
                    assert(carried@.len() == nref.weights@[li as int].cols);
                    assert(nref.weights@[li as int].cols == nref.weights@[li - 1].rows);
                    assert(zprev@.len() == nref.weights@[li - 1].rows);
                }
                let mut next_delta: Vec<i64> = Vec::new();
                let mut t2: usize = 0;
                while t2 < carried.len()
                    invariant
                        t2 <= carried@.len(),
                        carried@.len() == zprev@.len(),
                        grads_wf(carried@),
                        next_delta@.len() == t2,
                        grads_wf(next_delta@),
                        forall|u: int|
                            0 <= u < t2 ==> #[trigger] next_delta@[u] == clamp_spec(
                                (carried@[u] * sigmoid_der_spec(zprev@[u] as int)) / (UNIT as int),
                                GRAD_LIMIT as int,
                            ) as i64,
                    decreases carried@.len() - t2,
                {
                    let der: i64 = sigmoid_der(zprev[t2]);
                    proof {
                        assert(-1000000000 <= carried@[t2 as int] as int * der as int
                            <= 1000000000) by (nonlinear_arith)
                            requires
                                -1000000 <= carried@[t2 as int] as int <= 1000000,
                                0 <= der as int <= 1000,
                        ;
                    }
                    next_delta.push(
                        clamp_i128(
                            div_floor(carried[t2] as i128 * der as i128, UNIT as i128),
                            GRAD_LIMIT,
                        ),
                    );
                    t2 = t2 + 1;
                }
                proof {
                    assert(next_delta@ =~= delta_at(nref, x0, want, li as int - 1));
                }
                delta = next_delta;
            }
            back = back + 1;
        }
        // reverse into layer order
        let mut k: usize = rev_w.len();
        while k > 0
            invariant
                k <= rev_w@.len(),
                rev_w@.len() == n,
                rev_b@.len() == n,
                *self == nref,
                n == nref.weights@.len(),
                nref.wf(),
                x0 == input@,
                want == desired@,
                nabla_w@.len() == n - k,
                nabla_b@.len() == n - k,
                forall|t3: int|
                    0 <= t3 < rev_w@.len() ==> (#[trigger] rev_w@[t3]).wf() && rev_w@[t3].rows
                        == nref.weights@[n - 1 - t3].rows && rev_w@[t3].cols == nref.weights@[n - 1
                        - t3].cols,
                forall|t3: int, i: int, j: int|
                    0 <= t3 < rev_w@.len() && 0 <= i < rev_w@[t3].rows && 0 <= j < rev_w@[t3].cols
                        ==> #[trigger] rev_w@[t3].at(i, j) == outer_entry(
                        acts_at(nref, x0, n as int - 1 - t3),
                        delta_at(nref, x0, want, n as int - 1 - t3),
                        i,
                        j,
                    ),
                forall|t3: int|
                    0 <= t3 < rev_b@.len() ==> (#[trigger] rev_b@[t3])@ == delta_at(
                        nref,
                        x0,
                        want,
                        n as int - 1 - t3,
                    ),
                forall|t3: int|
                    0 <= t3 < nabla_w@.len() ==> (#[trigger] nabla_w@[t3]).wf()
                        && nabla_w@[t3].rows == nref.weights@[t3].rows && nabla_w@[t3].cols
                        == nref.weights@[t3].cols,
                forall|t3: int, i: int, j: int|
                    0 <= t3 < nabla_w@.len() && 0 <= i < nabla_w@[t3].rows && 0 <= j
                        < nabla_w@[t3].cols ==> #[trigger] nabla_w@[t3].at(i, j) == outer_entry(
                        acts_at(nref, x0, t3),
                        delta_at(nref, x0, want, t3),
                        i,
                        j,
                    ),
                forall|t3: int|
                    0 <= t3 < nabla_b@.len() ==> (#[trigger] nabla_b@[t3])@ == delta_at(
                        nref,
                        x0,
                        want,
                        t3,
                    ),
            decreases k,
        {
            k = k - 1;
            let rows: usize = rev_w[k].rows;
            let cols: usize = rev_w[k].cols;
            let mdata: Vec<i64> = copy_vec(&rev_w[k].data);
            let mb = copy_vec(&rev_b[k]);
            nabla_w.push(Matrix { rows, cols, data: mdata });
            nabla_b.push(mb);
            proof {
                let p = nabla_w@.len() - 1;
                assert forall|i: int, j: int|
                    0 <= i < nabla_w@[p].rows && 0 <= j < nabla_w@[p].cols implies #[trigger] nabla_w@[p].at(
                    i,
                    j,
                ) == rev_w@[k as int].at(i, j) by {
                    lemma_flat_index(nabla_w@[p].rows as int, nabla_w@[p].cols as int, i, j);
                }
            }
        }
    }
}

/// One saturating gradient-descent step on a weight matrix: each entry
/// moves against its gradient scaled by `eta`, saturating at `W_LIMIT`.
fn step_matrix(w: &Matrix, g: &Matrix, eta: i64) -> (r: Matrix)
    requires
        w.wf(),
        g.wf(),
        g.rows == w.rows,
        g.cols == w.cols,
        0 <= eta <= 2000000,
    ensures
        r.wf(),
        r.rows == w.rows,
        r.cols == w.cols,
        forall|i: int, j: int|
            0 <= i < w.rows && 0 <= j < w.cols ==> #[trigger] r.at(i, j) == clamp_spec(
                w.at(i, j) - (g.at(i, j) * eta) / (UNIT as int),
                W_LIMIT as int,
            ) as i64,
{
    let total = w.data.len();
    let mut data: Vec<i64> = Vec::new();
    let mut k: usize = 0;
    while k < total
        invariant
            k <= total,
            total == w.data@.len(),
            w.wf(),
            g.wf(),
            g.rows == w.rows,
            g.cols == w.cols,
            0 <= eta <= 2000000,
            data@.len() == k,
            forall|t: int|
                0 <= t < data@.len() ==> #[trigger] data@[t] == clamp_spec(
                    w.data@[t] - (g.data@[t] * eta) / (UNIT as int),
                    W_LIMIT as int,
                ) as i64,
            forall|t: int| 0 <= t < data@.len() ==> -W_LIMIT <= #[trigger] data@[t] <= W_LIMIT,
        decreases total - k,
    {
        proof {
            assert(-2000000000000000 <= g.data@[k as int] as int * eta as int
                <= 2000000000000000) by (nonlinear_arith)
                requires
                    -1000000000 <= g.data@[k as int] as int <= 1000000000,
                    0 <= eta as int <= 2000000,
            ;
        }
        let delta: i128 = div_floor(g.data[k] as i128 * eta as i128, UNIT as i128);
        data.push(clamp_i128(w.data[k] as i128 - delta, W_LIMIT));
        k = k + 1;
    }
    let r = Matrix { rows: w.rows, cols: w.cols, data };
    proof {
        assert forall|i: int, j: int| 0 <= i < w.rows && 0 <= j < w.cols implies #[trigger] r.at(
            i,
            j,
        ) == clamp_spec(w.at(i, j) - (g.at(i, j) * eta) / (UNIT as int), W_LIMIT as int) as i64 by {
            lemma_flat_index(w.rows as int, w.cols as int, i, j);
        }
    }
    r
}

/// One saturating gradient-descent step on a bias vector.
fn step_bias(b: &Vec<i64>, g: &Vec<i64>, eta: i64) -> (r: Vec<i64>)
    requires
        b@.len() == g@.len(),
        forall|t: int| 0 <= t < b@.len() ==> -W_LIMIT <= #[trigger] b@[t] <= W_LIMIT,
        grads_wf(g@),
        0 <= eta <= 2000000,
    ensures
        r@.len() == b@.len(),
        forall|t: int| 0 <= t < r@.len() ==> -W_LIMIT <= #[trigger] r@[t] <= W_LIMIT,
        forall|t: int|
            0 <= t < r@.len() ==> #[trigger] r@[t] == clamp_spec(
                b@[t] - (g@[t] * eta) / (UNIT as int),
                W_LIMIT as int,
            ) as i64,
{
    let mut r: Vec<i64> = Vec::new();
    let mut k: usize = 0;
    while k < b.len()
        invariant
            k <= b@.len(),
            b@.len() == g@.len(),
            forall|t: int| 0 <= t < b@.len() ==> -W_LIMIT <= #[trigger] b@[t] <= W_LIMIT,
            grads_wf(g@),
            0 <= eta <= 2000000,
            r@.len() == k,
            forall|t: int| 0 <= t < r@.len() ==> -W_LIMIT <= #[trigger] r@[t] <= W_LIMIT,
            forall|t: int|
                0 <= t < r@.len() ==> #[trigger] r@[t] == clamp_spec(
                    b@[t] - (g@[t] * eta) / (UNIT as int),
                    W_LIMIT as int,
                ) as i64,
        decreases b@.len() - k,
    {
        proof {
            assert(-2000000000000 <= g@[k as int] as int * eta as int <= 2000000000000)
                by (nonlinear_arith)
                requires
                    -1000000 <= g@[k as int] as int <= 1000000,
                    0 <= eta as int <= 2000000,
            ;
        }
        let delta: i128 = div_floor(g[k] as i128 * eta as i128, UNIT as i128);
        r.push(clamp_i128(b[k] as i128 - delta, W_LIMIT));
        k = k + 1;
    }
    r
}

impl Network {
    /// One training step: the previous step's remembered input is
    /// concatenated in front of the current one, the squared-error gradients
    /// are backpropagated, and every weight and bias takes a plain
    /// gradient-descent step scaled by `eta`, saturating at `W_LIMIT`.
    ///
    /// By design the caller passes the current prediction's own cost as
    /// `eta`, so worse predictions take larger steps — a deliberate,
    /// self-referential training scheme, not an accident.
    pub fn update(&mut self, input: &Vec<i64>, desired: &Vec<i64>, eta: i64)
        requires
            old(self).wf(),
            input@.len() == old(self).input_len(),
            activations_wf(input@),
            desired@.len() == old(self).output_len(),
            activations_wf(desired@),
            0 <= eta <= 2000000,
        ensures
            final(self).wf(),
            final(self).weights@.len() == old(self).weights@.len(),
            final(self).biases@.len() == old(self).biases@.len(),
            forall|l: int|
                0 <= l < final(self).weights@.len() ==> (#[trigger] final(self).weights@[l]).rows
                    == old(self).weights@[l].rows && final(self).weights@[l].cols == old(
                    self,
                ).weights@[l].cols,
            final(self).cache_next@ == old(self).cache_next@,
            final(self).input_len() == old(self).input_len(),
            final(self).output_len() == old(self).output_len(),
            forall|l: int, i: int, j: int|
                0 <= l < final(self).weights@.len() && 0 <= i < final(self).weights@[l].rows && 0
                    <= j < final(self).weights@[l].cols ==> #[trigger] final(self).weights@[l].at(
                    i,
                    j,
                ) == clamp_spec(
                    old(self).weights@[l].at(i, j) - (outer_entry(
                        acts_at(*old(self), old(self).cache_prev@ + input@, l),
                        delta_at(*old(self), old(self).cache_prev@ + input@, desired@, l),
                        i,
                        j,
                    ) * eta) / (UNIT as int),
                    W_LIMIT as int,
                ) as i64,
            forall|l: int, i: int|
                0 <= l < final(self).biases@.len() && 0 <= i < final(self).biases@[l]@.len()
                    ==> #[trigger] final(self).biases@[l]@[i] == clamp_spec(
                    old(self).biases@[l]@[i] - (delta_at(
                        *old(self),
                        old(self).cache_prev@ + input@,
                        desired@,
                        l,
                    )[i] * eta) / (UNIT as int),
                    W_LIMIT as int,
                ) as i64,
            input@.len() == old(self).cache_prev@.len() ==> final(self).cache_prev@ == input@,
            input@.len() != old(self).cache_prev@.len() ==> final(self).cache_prev@ == old(
                self,
            ).cache_prev@,
            updated_rel(*old(self), *final(self), input@, desired@, eta as int),
    {
        let ghost pre = *self;
        let mut layer: Vec<i64> = copy_vec(&self.cache_prev);
        let mut i: usize = 0;
        while i < input.len()
            invariant
                i <= input@.len(),
                layer@ == pre.cache_prev@ + input@.take(i as int),
                pre.wf(),
                activations_wf(input@),
                activations_wf(pre.cache_prev@),
            decreases input@.len() - i,
        {
            layer.push(input[i]);
            proof {
                assert(pre.cache_prev@ + input@.take(i as int + 1) =~= (pre.cache_prev@
                    + input@.take(i as int)).push(input@[i as int]));
            }
            i = i + 1;
        }
        proof {
            assert(input@.take(input@.len() as int) =~= input@);
            assert(activations_wf(layer@));
        }
        let mut nabla_b: Vec<Vec<i64>> = Vec::new();
        let mut nabla_w: Vec<Matrix> = Vec::new();
        self.backprop(&mut nabla_b, &mut nabla_w, &layer, desired);
        let n = self.weights.len();
        let mut new_w: Vec<Matrix> = Vec::new();
        let mut new_b: Vec<Vec<i64>> = Vec::new();
        let mut l: usize = 0;
        while l < n
            invariant
                l <= n,
                *self == pre,
                n == pre.weights@.len(),
                pre.wf(),
                0 <= eta <= 2000000,
                nabla_w@.len() == n,
                nabla_b@.len() == n,
                forall|k: int|
                    0 <= k < n ==> (#[trigger] nabla_w@[k]).wf() && nabla_w@[k].rows
                        == pre.weights@[k].rows && nabla_w@[k].cols == pre.weights@[k].cols,
                forall|k: int|
                    0 <= k < n ==> (#[trigger] nabla_b@[k])@.len() == pre.weights@[k].rows
                        && grads_wf(nabla_b@[k]@),
                new_w@.len() == l,
                new_b@.len() == l,
                forall|k: int|
                    0 <= k < l ==> (#[trigger] new_w@[k]).wf() && new_w@[k].rows
                        == pre.weights@[k].rows && new_w@[k].cols == pre.weights@[k].cols,
                forall|k: int|
                    0 <= k < l ==> (#[trigger] new_b@[k])@.len() == pre.weights@[k].rows
                        && (forall|t: int|
                        0 <= t < new_b@[k]@.len() ==> -W_LIMIT <= #[trigger] new_b@[k]@[t]
                            <= W_LIMIT),
                forall|k: int, i: int, j: int|
                    0 <= k < l && 0 <= i < new_w@[k].rows && 0 <= j < new_w@[k].cols
                        ==> #[trigger] new_w@[k].at(i, j) == clamp_spec(
                        pre.weights@[k].at(i, j) - (nabla_w@[k].at(i, j) * eta) / (UNIT as int),
                        W_LIMIT as int,
                    ) as i64,
                forall|k: int, t: int|
                    0 <= k < l && 0 <= t < new_b@[k]@.len() ==> #[trigger] new_b@[k]@[t]
                        == clamp_spec(
                        pre.biases@[k]@[t] - (nabla_b@[k]@[t] * eta) / (UNIT as int),
                        W_LIMIT as int,
                    ) as i64,
                forall|k: int, i: int, j: int|
                    0 <= k < n && 0 <= i < nabla_w@[k].rows && 0 <= j < nabla_w@[k].cols
                        ==> #[trigger] nabla_w@[k].at(i, j) == outer_entry(
                        acts_at(pre, pre.cache_prev@ + input@, k),
                        delta_at(pre, pre.cache_prev@ + input@, desired@, k),
                        i,
                        j,
                    ),
                forall|k: int|
                    0 <= k < n ==> (#[trigger] nabla_b@[k])@ == delta_at(
                        pre,
                        pre.cache_prev@ + input@,
                        desired@,
                        k,
                    ),
            decreases n - l,
        {
            new_w.push(step_matrix(&self.weights[l], &nabla_w[l], eta));
            new_b.push(step_bias(&self.biases[l], &nabla_b[l], eta));
            l = l + 1;
        }
        self.weights = new_w;
        self.biases = new_b;
        if input.len() == self.cache_prev.len() {
            self.cache_prev = copy_vec(input);
        }
    }
}

/// No two listed entities name the same row.
pub open spec fn distinct_idx(list: Seq<Entity>) -> bool {
    forall|k1: int, k2: int|
        0 <= k1 < k2 < list.len() ==> (#[trigger] list[k1]).idx != (#[trigger] list[k2]).idx
}

/// Whether one of the first `k` listed entities names row `i`.
pub open spec fn touched(list: Seq<Entity>, k: int, i: int) -> bool {
    exists|j: int| 0 <= j < k && (#[trigger] list[j]).idx == i
}

/// Whether row `i` is ready for inference: all four network components
/// visible, with shapes that agree.
pub open spec fn nn_ready(d: GameData, i: int) -> bool {
    &&& !d.delete@[i]
    &&& d.nns@[i] is Some
    &&& d.inputs@[i] is Some
    &&& d.outputs@[i] is Some
    &&& d.desired@[i] is Some
    &&& ({
        let n = d.nns@[i]->0;
        &&& n.weights@[0].cols >= n.cache_next@.len()
        &&& n.input_len() == d.inputs@[i]->0.input@.len()
        &&& n.output_len() == d.desired@[i]->0.desired@.len()
        &&& n.output_len() <= 2000
    })
}

/// Runs every listed entity's decision network: its sensory inputs are fed
/// forward into a fresh action distribution — exactly `ff_spec` of the
/// network and inputs the pass found — the network takes one self-training
/// step whose learning rate is its own current cost, and the distribution
/// is stored in the entity's outputs. Entities lacking any of the four
/// network components, or whose component shapes disagree, are left
/// untouched. Only networks and outputs change, and only at listed rows.
pub fn nn_system(data: &mut GameData, entities: &Vec<Entity>)
    requires
        old(data).wf(),
        old(data).sound(),
        forall|k: int|
            0 <= k < entities@.len() ==> (#[trigger] entities@[k]).idx < old(data).entity,
    ensures
        final(data).wf(),
        final(data).sound(),
        final(data).entity == old(data).entity,
        final(data).delete@ == old(data).delete@,
        lazy_eq(old(data).lazy, final(data).lazy),
        final(data).creatures@ == old(data).creatures@,
        final(data).foods@ == old(data).foods@,
        final(data).positions@ == old(data).positions@,
        final(data).velocities@ == old(data).velocities@,
        final(data).directions@ == old(data).directions@,
        final(data).bodies@ == old(data).bodies@,
        final(data).draw@ == old(data).draw@,
        final(data).inputs@ == old(data).inputs@,
        final(data).desired@ == old(data).desired@,
        final(data).nns@.len() == old(data).nns@.len(),
        final(data).outputs@.len() == old(data).outputs@.len(),
        forall|i: int|
            0 <= i < old(data).nns@.len() && !touched(entities@, entities@.len() as int, i)
                ==> #[trigger] final(data).nns@[i] == old(data).nns@[i],
        forall|i: int|
            0 <= i < old(data).outputs@.len() && !touched(entities@, entities@.len() as int, i)
                ==> #[trigger] final(data).outputs@[i] == old(data).outputs@[i],
        distinct_idx(entities@) ==> forall|k: int|
            0 <= k < entities@.len() ==> ({
                let i = (#[trigger] entities@[k]).idx as int;
                nn_ready(*old(data), i) ==> ({
                    let n0 = old(data).nns@[i]->0;
                    let x = old(data).inputs@[i]->0.input@;
                    &&& final(data).outputs@[i] is Some
                    &&& final(data).outputs@[i]->0.output@ == ff_spec(n0, x)
                    &&& final(data).nns@[i] is Some
                    &&& ({
                        let n1 = final(data).nns@[i]->0;
                        let want = old(data).desired@[i]->0.desired@;
                        &&& n1.wf()
                        &&& n1.weights@.len() == n0.weights@.len()
                        &&& n1.cache_next@ == ff_spec(n0, x)
                        &&& forall|l: int|
                            0 <= l < n1.weights@.len() ==> (#[trigger] n1.weights@[l]).rows
                                == n0.weights@[l].rows && n1.weights@[l].cols
                                == n0.weights@[l].cols
                        &&& exists|nm: Network|
                            #[trigger] ff_rel(n0, nm, x) && updated_rel(
                                nm,
                                n1,
                                x,
                                want,
                                cost_spec(ff_spec(n0, x), want),
                            )
                    })
                })
            }),
{
    let ghost pre = *data;
    let mut k: usize = 0;
    while k < entities.len()
        invariant
            k <= entities@.len(),
            forall|j: int|
                0 <= j < entities@.len() ==> (#[trigger] entities@[j]).idx < pre.entity,
            data.wf(),
            data.sound(),
            data.entity == pre.entity,
            data.delete@ == pre.delete@,
            lazy_eq(pre.lazy, data.lazy),
            data.creatures@ == pre.creatures@,
            data.foods@ == pre.foods@,
            data.positions@ == pre.positions@,
            data.velocities@ == pre.velocities@,
            data.directions@ == pre.directions@,
            data.bodies@ == pre.bodies@,
            data.draw@ == pre.draw@,
            data.inputs@ == pre.inputs@,
            data.desired@ == pre.desired@,
            data.nns@.len() == pre.nns@.len(),
            data.outputs@.len() == pre.outputs@.len(),
            forall|i: int|
                0 <= i < pre.nns@.len() && !touched(entities@, k as int, i)
                    ==> #[trigger] data.nns@[i] == pre.nns@[i],
            forall|i: int|
                0 <= i < pre.outputs@.len() && !touched(entities@, k as int, i)
                    ==> #[trigger] data.outputs@[i] == pre.outputs@[i],
            distinct_idx(entities@) ==> forall|j: int|
                0 <= j < k ==> ({
                    let i = (#[trigger] entities@[j]).idx as int;
                    nn_ready(pre, i) ==> ({
                        let n0 = pre.nns@[i]->0;
                        let x = pre.inputs@[i]->0.input@;
                        &&& data.outputs@[i] is Some
                        &&& data.outputs@[i]->0.output@ == ff_spec(n0, x)
                        &&& data.nns@[i] is Some
                        &&& ({
                            let n1 = data.nns@[i]->0;
                            let want = pre.desired@[i]->0.desired@;
                            &&& n1.wf()
                            &&& n1.weights@.len() == n0.weights@.len()
                            &&& n1.cache_next@ == ff_spec(n0, x)
                            &&& forall|l: int|
                                0 <= l < n1.weights@.len() ==> (#[trigger] n1.weights@[l]).rows
                                    == n0.weights@[l].rows && n1.weights@[l].cols
                                    == n0.weights@[l].cols
                            &&& exists|nm: Network|
                                #[trigger] ff_rel(n0, nm, x) && updated_rel(
                                    nm,
                                    n1,
                                    x,
                                    want,
                                    cost_spec(ff_spec(n0, x), want),
                                )
                        })
                    })
                }),
        decreases entities@.len() - k,
    {
        let e = entities[k];
        let ghost before = *data;
        if !data.has(e.component::<Network>()) || !data.has(e.component::<Inputs>()) || !data.has(
            e.component::<Outputs>(),
        ) || !data.has(e.component::<Desired>()) {
            proof {
                assert(forall|i: int|
                    0 <= i < pre.nns@.len() && !touched(entities@, k as int + 1, i) ==> !touched(
                        entities@,
                        k as int,
                        i,
                    ));
            }
            k = k + 1;
            continue ;
        }
        let input = copy_vec(&data.get_inputs(e.component()).input);
        let desired = copy_vec(&data.get_desired(e.component()).desired);
        let mut nn = data.take_network(e.component());
        // fail-safe shape checks; mismatched components leave the entity
        // untouched
        let cols0 = nn.weights[0].cols;
        let cache_len = nn.cache_next.len();
        let last_rows = nn.weights[nn.weights.len() - 1].rows;
        if cols0 < cache_len || cols0 - cache_len != input.len() || last_rows != desired.len()
            || last_rows > 2000 {
            data.insert(e, nn);
            proof {
                assert(data.nns@ =~= before.nns@);
                assert(forall|i: int|
                    0 <= i < pre.nns@.len() && !touched(entities@, k as int + 1, i) ==> !touched(
                        entities@,
                        k as int,
                        i,
                    ));
            }
            k = k + 1;
            continue ;
        }
        let ghost n0 = nn;
        let out = nn.feedforward(&input);
        let ghost nm_g = nn;
        let eta = cost(&out, &desired);
        nn.update(&input, &desired, eta);
        proof {
            assert(ff_rel(n0, nm_g, input@));
            assert(updated_rel(nm_g, nn, input@, desired@, eta as int));
        }
        data.insert(e, nn);
        data.set_outputs(e.component(), Outputs { output: out });
        proof {
            assert(forall|i: int|
                0 <= i < pre.nns@.len() && !touched(entities@, k as int + 1, i) ==> (!touched(
                    entities@,
                    k as int,
                    i,
                ) && i != e.idx as int));
        }
        k = k + 1;
    }
}

} // verus!
