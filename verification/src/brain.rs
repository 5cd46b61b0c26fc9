//! The controller of an agent: three small networks that turn what the
//! sensor rays report into the next facing, and the mutation of their
//! weights.
use vstd::prelude::*;

use crate::entity::Entity;
use crate::fixed::{ints, trunc_div, UNIT};
use crate::random_helper::RandomHelper;

verus! {

/// Signals that enter a network.
pub const INPUTS: usize = 5;

/// Neurons of the hidden layer.
pub const HIDDEN: usize = 7;

/// Signals that leave a network.
pub const OUTPUTS: usize = 3;

/// Weights of the first layer, `HIDDEN` rows of `INPUTS`.
pub const LAYER1_CELLS: usize = 35;

/// Weights of the second layer, `OUTPUTS` rows of `HIDDEN`.
pub const LAYER2_CELLS: usize = 21;

/// Absolute value.
pub open spec fn magnitude(x: int) -> int {
    if x < 0 {
        -x
    } else {
        x
    }
}

/// The squashing function `x / (|x| + 1/2)` on fixed-point numbers, rounded
/// toward zero.
pub open spec fn sigmoid_spec(num: int) -> int {
    trunc_div(num * UNIT, magnitude(num) + UNIT / 2)
}

/// The squashing function is odd.
pub proof fn lemma_sigmoid_odd(x: int)
    ensures
        sigmoid_spec(-x) == -sigmoid_spec(x),
{
    assert((-x) * UNIT == -(x * UNIT)) by (nonlinear_arith);
    if x == 0 {
        assert(0 * UNIT == 0) by (nonlinear_arith);
    } else if x > 0 {
        assert(x * UNIT > 0) by (nonlinear_arith)
            requires
                x > 0,
        ;
    } else {
        assert(x * UNIT < 0) by (nonlinear_arith)
            requires
                x < 0,
        ;
    }
}

/// The squashing function stays strictly inside `(-UNIT, UNIT)` and keeps
/// the sign of its argument.
pub proof fn lemma_sigmoid_bounded(x: int)
    ensures
        -UNIT < sigmoid_spec(x) < UNIT,
        x >= 0 ==> sigmoid_spec(x) >= 0,
        x <= 0 ==> sigmoid_spec(x) <= 0,
{
    let m = magnitude(x);
    let d = m + UNIT / 2;
    assert(0 <= m * UNIT < UNIT * d) by (nonlinear_arith)
        requires
            m >= 0,
            d == m + 500_000,
            UNIT == 1_000_000,
    ;
    assert(0 <= (m * UNIT) / d < UNIT) by (nonlinear_arith)
        requires
            0 <= m * UNIT < UNIT * d,
            d > 0,
    ;
    if x >= 0 {
        assert(x * UNIT >= 0) by (nonlinear_arith)
            requires
                x >= 0,
        ;
    } else {
        assert(x * UNIT < 0 && -(x * UNIT) == m * UNIT) by (nonlinear_arith)
            requires
                x < 0,
                m == -x,
        ;
    }
}

/// On arguments that are not negative the squashing function never decreases.
proof fn lemma_sigmoid_monotonic_nonneg(x: int, y: int)
    requires
        0 <= x <= y,
    ensures
        sigmoid_spec(x) <= sigmoid_spec(y),
{
    let h = UNIT / 2;
    let qx = (x * UNIT) / (x + h);
    let qy = (y * UNIT) / (y + h);
    assert(x * UNIT >= 0 && y * UNIT >= 0) by (nonlinear_arith)
        requires
            0 <= x <= y,
    ;
    assert(qx <= qy) by (nonlinear_arith)
        requires
            0 <= x <= y,
            h == 500_000,
            UNIT == 1_000_000,
            qx == (x * UNIT) / (x + h),
            qy == (y * UNIT) / (y + h),
    {
        // qx * (x + h) <= x * UNIT and qx < UNIT, so qx * (y + h) <= y * UNIT.
        assert(qx * (x + h) <= x * UNIT);
        assert(qx < UNIT);
        assert(qx * (y + h) == qx * (x + h) + qx * (y - x));
        assert(qx * (y - x) <= UNIT * (y - x));
        assert(qx * (y + h) <= y * UNIT);
    }
}

/// The squashing function never decreases.
pub proof fn lemma_sigmoid_monotonic(x: int, y: int)
    requires
        x <= y,
    ensures
        sigmoid_spec(x) <= sigmoid_spec(y),
{
    if x >= 0 {
        lemma_sigmoid_monotonic_nonneg(x, y);
    } else if y <= 0 {
        lemma_sigmoid_monotonic_nonneg(-y, -x);
        lemma_sigmoid_odd(x);
        lemma_sigmoid_odd(y);
    } else {
        lemma_sigmoid_bounded(x);
        lemma_sigmoid_bounded(y);
    }
}

/// Sum of the products of `n` weights, from `start` on, with the first `n`
/// inputs.
pub open spec fn dot(weights: Seq<int>, start: int, input: Seq<int>, n: nat) -> int
    decreases n,
{
    if n == 0 {
        0
    } else {
        dot(weights, start, input, (n - 1) as nat) + weights[start + n - 1] * input[n - 1]
    }
}

/// What neuron `row` of a layer gives: the squashed weighted sum of the
/// inputs, the sum being brought back to the fixed-point scale first.
pub open spec fn neuron(weights: Seq<int>, row: int, input: Seq<int>) -> int {
    sigmoid_spec(trunc_div(dot(weights, row * input.len(), input, input.len()), UNIT as int))
}

/// What a layer of `rows` neurons gives.
pub open spec fn layer(weights: Seq<int>, rows: nat, input: Seq<int>) -> Seq<int> {
    Seq::new(rows, |row: int| neuron(weights, row, input))
}

/// The weights of one network: each layer row by row.
pub struct NetworkView {
    pub layer1: Seq<int>,
    pub layer2: Seq<int>,
}

impl NetworkView {
    /// Both layers have their shape and every weight lies in `[-UNIT, UNIT]`.
    pub open spec fn wf(self) -> bool {
        &&& self.layer1.len() == LAYER1_CELLS
        &&& self.layer2.len() == LAYER2_CELLS
        &&& forall|i: int| 0 <= i < self.layer1.len() ==> -UNIT <= #[trigger] self.layer1[i] <= UNIT
        &&& forall|i: int| 0 <= i < self.layer2.len() ==> -UNIT <= #[trigger] self.layer2[i] <= UNIT
    }

    /// Number of weights of a layer (0 is the first, anything else the second).
    pub open spec fn cells(layer: int) -> int {
        if layer == 0 {
            LAYER1_CELLS as int
        } else {
            LAYER2_CELLS as int
        }
    }

    /// Position of the weight at `row` and `col` of a layer.
    pub open spec fn cell_index(layer: int, row: int, col: int) -> int {
        if layer == 0 {
            row * INPUTS as int + col
        } else {
            row * HIDDEN as int + col
        }
    }

    /// The weight at position `cell` of a layer.
    pub open spec fn cell(self, layer: int, cell: int) -> int {
        if layer == 0 {
            self.layer1[cell]
        } else {
            self.layer2[cell]
        }
    }

    /// These weights with one of them replaced.
    pub open spec fn replaced(self, layer: int, cell: int, value: int) -> NetworkView {
        if layer == 0 {
            NetworkView { layer1: self.layer1.update(cell, value), layer2: self.layer2 }
        } else {
            NetworkView { layer1: self.layer1, layer2: self.layer2.update(cell, value) }
        }
    }

    /// What the network gives for an input: the second layer applied to what
    /// the first layer gives.
    pub open spec fn infer(self, input: Seq<int>) -> Seq<int> {
        layer(self.layer2, OUTPUTS as nat, layer(self.layer1, HIDDEN as nat, input))
    }
}

/// Replacing one weight leaves every other weight as it was.
pub proof fn lemma_replaced_changes_one_cell(net: NetworkView, layer: int, cell: int, value: int)
    requires
        net.wf(),
        0 <= layer < 2,
        0 <= cell < NetworkView::cells(layer),
    ensures
        net.replaced(layer, cell, value).cell(layer, cell) == value,
        forall|l: int, c: int|
            0 <= l < 2 && 0 <= c < NetworkView::cells(l) && (l != layer || c != cell)
                ==> net.replaced(layer, cell, value).cell(l, c) == net.cell(l, c),
        net.replaced(layer, cell, value).layer1.len() == net.layer1.len(),
        net.replaced(layer, cell, value).layer2.len() == net.layer2.len(),
        -UNIT <= value <= UNIT ==> net.replaced(layer, cell, value).wf(),
{
}

/// Squashes a weighted sum.
fn squash(num: i128) -> (r: i64)
    requires
        -0x8_0000_0000_0000_0000 <= num <= 0x8_0000_0000_0000_0000,
    ensures
        r == sigmoid_spec(num as int),
{
    let m: i128 = if num < 0 {
        -num
    } else {
        num
    };
    proof {
        lemma_sigmoid_bounded(num as int);
        assert(-0x8_0000_0000_0000_0000 * 1_000_000 <= num * UNIT <= 0x8_0000_0000_0000_0000
            * 1_000_000) by (nonlinear_arith)
            requires
                -0x8_0000_0000_0000_0000 <= num <= 0x8_0000_0000_0000_0000,
                UNIT == 1_000_000,
        ;
    }
    let q: i128 = (num * (UNIT as i128)) / (m + (UNIT as i128) / 2);
    q as i64
}

/// Applies one layer of `rows` neurons to an input.
fn feed(weights: &Vec<i64>, rows: usize, input: &Vec<i64>) -> (out: Vec<i64>)
    requires
        rows <= HIDDEN,
        0 < input.len() <= HIDDEN,
        weights.len() == rows * input.len(),
        forall|i: int| 0 <= i < weights.len() ==> -UNIT <= #[trigger] weights[i] <= UNIT,
    ensures
        ints(out@) == layer(ints(weights@), rows as nat, ints(input@)),
{
    let cols = input.len();
    let ghost w = ints(weights@);
    let ghost x = ints(input@);
    let mut out: Vec<i64> = Vec::new();
    let mut row: usize = 0;
    while row < rows
        invariant
            row <= rows <= HIDDEN,
            cols == input.len(),
            0 < cols <= HIDDEN,
            weights.len() == rows * cols,
            forall|i: int| 0 <= i < weights.len() ==> -UNIT <= #[trigger] weights[i] <= UNIT,
            w == ints(weights@),
            x == ints(input@),
            out.len() == row,
            forall|r: int| 0 <= r < row ==> #[trigger] out[r] as int == neuron(w, r, x),
        decreases rows - row,
    {
        assert(row * cols + cols <= rows * cols) by (nonlinear_arith)
            requires
                row < rows,
                cols > 0,
        ;
        let base: usize = row * cols;
        let mut acc: i128 = 0;
        let mut col: usize = 0;
        while col < cols
            invariant
                col <= cols <= HIDDEN,
                cols == input.len(),
                base + cols <= weights.len(),
                forall|i: int| 0 <= i < weights.len() ==> -UNIT <= #[trigger] weights[i] <= UNIT,
                w == ints(weights@),
                x == ints(input@),
                acc == dot(w, base as int, x, col as nat),
                -col * 9_223_372_036_854_775_808_000_000 <= acc,
                acc <= col * 9_223_372_036_854_775_808_000_000,
            decreases cols - col,
        {
            let weight: i128 = weights[base + col] as i128;
            let signal: i128 = input[col] as i128;
            assert(-9_223_372_036_854_775_808_000_000 <= weight * signal
                <= 9_223_372_036_854_775_808_000_000) by (nonlinear_arith)
                requires
                    -1_000_000 <= weight <= 1_000_000,
                    -0x8000_0000_0000_0000 <= signal <= 0x8000_0000_0000_0000,
            ;
            assert(w[base + col] == weight && x[col as int] == signal);
            acc = acc + weight * signal;
            col = col + 1;
        }
        let sum: i128 = acc / (UNIT as i128);
        let value = squash(sum);
        out.push(value);
        assert(base == row * x.len());
        row = row + 1;
    }
    assert(ints(out@) =~= layer(w, rows as nat, x));
    out
}

/// A two-layer feed-forward network with its own source of fresh weights.
pub struct InputProcessorNetwork {
    rand: RandomHelper,
    layer1: Vec<i64>,
    layer2: Vec<i64>,
}

impl View for InputProcessorNetwork {
    type V = NetworkView;

    closed spec fn view(&self) -> NetworkView {
        NetworkView { layer1: ints(self.layer1@), layer2: ints(self.layer2@) }
    }
}

/// Draws `count` weights from `[-UNIT, UNIT)`.
fn draw_weights(rand: &mut RandomHelper, count: usize) -> (weights: Vec<i64>)
    ensures
        weights.len() == count,
        forall|i: int| 0 <= i < weights.len() ==> -UNIT <= #[trigger] weights[i] < UNIT,
{
    let mut weights: Vec<i64> = Vec::new();
    let mut i: usize = 0;
    while i < count
        invariant
            i <= count,
            weights.len() == i,
            forall|k: int| 0 <= k < weights.len() ==> -UNIT <= #[trigger] weights[k] < UNIT,
        decreases count - i,
    {
        let weight = rand.random_between(-UNIT, UNIT);
        weights.push(weight);
        i = i + 1;
    }
    weights
}

/// Whether every number of `weights` lies in `[-UNIT, UNIT]`.
fn all_in_range(weights: &Vec<i64>) -> (b: bool)
    ensures
        b == (forall|i: int| 0 <= i < weights.len() ==> -UNIT <= #[trigger] weights[i] <= UNIT),
{
    let mut i: usize = 0;
    while i < weights.len()
        invariant
            i <= weights.len(),
            forall|k: int| 0 <= k < i ==> -UNIT <= #[trigger] weights[k] <= UNIT,
        decreases weights.len() - i,
    {
        if weights[i] < -UNIT || weights[i] > UNIT {
            return false;
        }
        i = i + 1;
    }
    true
}

impl InputProcessorNetwork {
    /// Both layers have their shape and every weight lies in `[-UNIT, UNIT]`.
    pub open spec fn wf(&self) -> bool {
        self@.wf()
    }

    /// A network with weights drawn from `[-UNIT, UNIT)` by a generator
    /// seeded with `seed`.
    pub fn new(seed: u64) -> (network: Self)
        ensures
            network.wf(),
            forall|i: int| 0 <= i < LAYER1_CELLS ==> #[trigger] network@.layer1[i] < UNIT,
            forall|i: int| 0 <= i < LAYER2_CELLS ==> #[trigger] network@.layer2[i] < UNIT,
    {
        let mut rand = RandomHelper::new(500 * UNIT, 500 * UNIT, seed);
        let layer1 = draw_weights(&mut rand, LAYER1_CELLS);
        let layer2 = draw_weights(&mut rand, LAYER2_CELLS);
        InputProcessorNetwork { rand, layer1, layer2 }
    }

    /// A network with the given weights, each layer row by row. There is one
    /// exactly when both layers have their shape and every weight lies in
    /// `[-UNIT, UNIT]`.
    pub fn from_weights(layer1: Vec<i64>, layer2: Vec<i64>, seed: u64) -> (network: Option<Self>)
        ensures
            network is Some <==> (NetworkView {
                layer1: ints(layer1@),
                layer2: ints(layer2@),
            }).wf(),
            network matches Some(n) ==> n.wf() && n@ == (NetworkView {
                layer1: ints(layer1@),
                layer2: ints(layer2@),
            }),
    {
        if layer1.len() != LAYER1_CELLS || layer2.len() != LAYER2_CELLS {
            return None;
        }
        if !all_in_range(&layer1) || !all_in_range(&layer2) {
            assert(!(NetworkView { layer1: ints(layer1@), layer2: ints(layer2@) }).wf()) by {
                let v = NetworkView { layer1: ints(layer1@), layer2: ints(layer2@) };
                if v.wf() {
                    assert forall|i: int| 0 <= i < layer1.len() implies -UNIT <= #[trigger] layer1[i]
                        <= UNIT by {
                        assert(v.layer1[i] == layer1[i]);
                    }
                    assert forall|i: int| 0 <= i < layer2.len() implies -UNIT <= #[trigger] layer2[i]
                        <= UNIT by {
                        assert(v.layer2[i] == layer2[i]);
                    }
                }
            }
            return None;
        }
        let rand = RandomHelper::new(500 * UNIT, 500 * UNIT, seed);
        Some(InputProcessorNetwork { rand, layer1, layer2 })
    }

    /// The weights of the first layer, row by row.
    pub fn layer1(&self) -> (weights: &Vec<i64>)
        ensures
            ints(weights@) == self@.layer1,
    {
        &self.layer1
    }

    /// The weights of the second layer, row by row.
    pub fn layer2(&self) -> (weights: &Vec<i64>)
        ensures
            ints(weights@) == self@.layer2,
    {
        &self.layer2
    }

    /// Runs the network on `input`.
    pub fn infer(&self, input: &Vec<i64>) -> (output: Vec<i64>)
        requires
            self.wf(),
            input.len() == INPUTS,
        ensures
            ints(output@) == self@.infer(ints(input@)),
    {
        proof {
            assert forall|i: int| 0 <= i < self.layer1.len() implies -UNIT
                <= #[trigger] self.layer1[i] <= UNIT by {
                assert(self@.layer1[i] == self.layer1[i]);
            }
            assert forall|i: int| 0 <= i < self.layer2.len() implies -UNIT
                <= #[trigger] self.layer2[i] <= UNIT by {
                assert(self@.layer2[i] == self.layer2[i]);
            }
        }
        let hidden = feed(&self.layer1, HIDDEN, input);
        assert(ints(hidden@).len() == HIDDEN);
        feed(&self.layer2, OUTPUTS, &hidden)
    }

    /// Overwrites the weight at `row` and `col` of a layer (0 is the first,
    /// anything else the second).
    pub fn set_weight(&mut self, layer: usize, row: usize, col: usize, value: i64)
        requires
            old(self).wf(),
            layer == 0 ==> row < HIDDEN && col < INPUTS,
            layer != 0 ==> row < OUTPUTS && col < HIDDEN,
            -UNIT <= value <= UNIT,
        ensures
            final(self)@ == old(self)@.replaced(
                layer as int,
                NetworkView::cell_index(layer as int, row as int, col as int),
                value as int,
            ),
            final(self).wf(),
    {
        if layer == 0 {
            let cell = row * INPUTS + col;
            self.layer1.set(cell, value);
            assert(ints(self.layer1@) =~= ints(old(self).layer1@).update(cell as int, value as int));
        } else {
            let cell = row * HIDDEN + col;
            self.layer2.set(cell, value);
            assert(ints(self.layer2@) =~= ints(old(self).layer2@).update(cell as int, value as int));
        }
    }

    /// Replaces one weight, chosen by chance, with a fresh one of
    /// `[-UNIT, UNIT)`: the layer by a fair coin, then the cell evenly within
    /// the layer. Every other weight keeps its value.
    pub fn mutate(&mut self)
        requires
            old(self).wf(),
        ensures
            final(self).wf(),
            exists|layer: int, cell: int, value: int|
                0 <= layer < 2 && 0 <= cell < NetworkView::cells(layer) && -UNIT <= value < UNIT
                    && final(self)@ == #[trigger] old(self)@.replaced(layer, cell, value),
    {
        let layer = self.rand.random_between(0, 2);
        if layer == 0 {
            let row = self.rand.random_between(0, HIDDEN as i64);
            let col = self.rand.random_between(0, INPUTS as i64);
            let value = self.rand.random_between(-UNIT, UNIT);
            self.set_weight(0, row as usize, col as usize, value);
            assert(final(self)@ == old(self)@.replaced(0, row * INPUTS as int + col, value as int));
        } else {
            let row = self.rand.random_between(0, OUTPUTS as i64);
            let col = self.rand.random_between(0, HIDDEN as i64);
            let value = self.rand.random_between(-UNIT, UNIT);
            self.set_weight(1, row as usize, col as usize, value);
            assert(final(self)@ == old(self)@.replaced(1, row * HIDDEN as int + col, value as int));
        }
    }
}

impl Clone for InputProcessorNetwork {
    /// A network with the same weights, whose generator continues from this
    /// one's state.
    fn clone(&self) -> (copy: Self)
        ensures
            copy@ == self@,
    {
        let copy = InputProcessorNetwork {
            rand: self.rand.fork(),
            layer1: self.layer1.clone(),
            layer2: self.layer2.clone(),
        };
        assert(copy.layer1@ =~= self.layer1@);
        assert(copy.layer2@ =~= self.layer2@);
        copy
    }
}

/// The weights of the three networks of one controller.
pub struct BrainNetworkView {
    pub wall: NetworkView,
    pub food: NetworkView,
    pub carnivore: NetworkView,
}

impl BrainNetworkView {
    /// Each of the three networks is well formed.
    pub open spec fn wf(self) -> bool {
        self.wall.wf() && self.food.wf() && self.carnivore.wf()
    }

    /// These networks with one weight of one of them replaced: 0 names the
    /// wall network, 1 the food network, anything else the carnivore network.
    pub open spec fn replaced(self, network: int, layer: int, cell: int, value: int) -> Self {
        if network == 0 {
            BrainNetworkView { wall: self.wall.replaced(layer, cell, value), ..self }
        } else if network == 1 {
            BrainNetworkView { food: self.food.replaced(layer, cell, value), ..self }
        } else {
            BrainNetworkView { carnivore: self.carnivore.replaced(layer, cell, value), ..self }
        }
    }

    /// These networks, or these networks with one weight replaced by a value
    /// of `[-UNIT, UNIT)`.
    pub open spec fn same_or_one_cell_replaced(self, after: Self) -> bool {
        after == self || exists|network: int, layer: int, cell: int, value: int|
            0 <= network < 3 && 0 <= layer < 2 && 0 <= cell < NetworkView::cells(layer) && -UNIT
                <= value < UNIT && after == #[trigger] self.replaced(network, layer, cell, value)
    }
}

/// The three networks of one controller: one for walls, one for food or
/// prey, one for carnivores.
pub struct BrainNetwork {
    rand: RandomHelper,
    pub wall_network: InputProcessorNetwork,
    pub food_network: InputProcessorNetwork,
    pub carnivore_network: InputProcessorNetwork,
}

impl View for BrainNetwork {
    type V = BrainNetworkView;

    closed spec fn view(&self) -> BrainNetworkView {
        BrainNetworkView {
            wall: self.wall_network@,
            food: self.food_network@,
            carnivore: self.carnivore_network@,
        }
    }
}

impl BrainNetwork {
    /// Each of the three networks is well formed.
    pub open spec fn wf(&self) -> bool {
        self@.wf()
    }

    /// Three networks with weights drawn from `[-UNIT, UNIT)` by generators
    /// seeded after `seed`.
    pub fn new(seed: u64) -> (networks: Self)
        ensures
            networks.wf(),
    {
        let rand = RandomHelper::new(500 * UNIT, 500 * UNIT, seed);
        BrainNetwork {
            rand,
            wall_network: InputProcessorNetwork::new(seed.wrapping_add(1)),
            food_network: InputProcessorNetwork::new(seed.wrapping_add(2)),
            carnivore_network: InputProcessorNetwork::new(seed.wrapping_add(3)),
        }
    }

    /// The three given networks as the networks of one controller.
    pub fn from_networks(
        wall_network: InputProcessorNetwork,
        food_network: InputProcessorNetwork,
        carnivore_network: InputProcessorNetwork,
        seed: u64,
    ) -> (networks: Self)
        ensures
            networks@ == (BrainNetworkView {
                wall: wall_network@,
                food: food_network@,
                carnivore: carnivore_network@,
            }),
    {
        BrainNetwork {
            rand: RandomHelper::new(500 * UNIT, 500 * UNIT, seed),
            wall_network,
            food_network,
            carnivore_network,
        }
    }

    /// The networks of `base` with the wall network of `wall` and the
    /// carnivore network of `carnivore` in place of its own.
    pub fn recombine(base: BrainNetwork, wall: BrainNetwork, carnivore: BrainNetwork) -> (networks:
        Self)
        ensures
            networks@ == (BrainNetworkView {
                food: base@.food,
                wall: wall@.wall,
                carnivore: carnivore@.carnivore,
            }),
    {
        BrainNetwork {
            rand: base.rand,
            wall_network: wall.wall_network,
            food_network: base.food_network,
            carnivore_network: carnivore.carnivore_network,
        }
    }

    /// Mutates one of the three networks, chosen evenly.
    pub fn mutate(&mut self)
        requires
            old(self).wf(),
        ensures
            final(self).wf(),
            exists|network: int, layer: int, cell: int, value: int|
                0 <= network < 3 && 0 <= layer < 2 && 0 <= cell < NetworkView::cells(layer) && -UNIT
                    <= value < UNIT && final(self)@ == #[trigger] old(self)@.replaced(
                    network,
                    layer,
                    cell,
                    value,
                ),
    {
        let network = self.rand.random_between(0, 3);
        if network == 0 {
            self.wall_network.mutate();
            let ghost (layer, cell, value) = choose|layer: int, cell: int, value: int|
                0 <= layer < 2 && 0 <= cell < NetworkView::cells(layer) && -UNIT <= value < UNIT
                    && self.wall_network@ == #[trigger] old(self).wall_network@.replaced(
                    layer,
                    cell,
                    value,
                );
            assert(self@ == old(self)@.replaced(0, layer, cell, value));
        } else if network == 1 {
            self.food_network.mutate();
            let ghost (layer, cell, value) = choose|layer: int, cell: int, value: int|
                0 <= layer < 2 && 0 <= cell < NetworkView::cells(layer) && -UNIT <= value < UNIT
                    && self.food_network@ == #[trigger] old(self).food_network@.replaced(
                    layer,
                    cell,
                    value,
                );
            assert(self@ == old(self)@.replaced(1, layer, cell, value));
        } else {
            self.carnivore_network.mutate();
            let ghost (layer, cell, value) = choose|layer: int, cell: int, value: int|
                0 <= layer < 2 && 0 <= cell < NetworkView::cells(layer) && -UNIT <= value < UNIT
                    && self.carnivore_network@ == #[trigger] old(self).carnivore_network@.replaced(
                    layer,
                    cell,
                    value,
                );
            assert(self@ == old(self)@.replaced(2, layer, cell, value));
        }
    }
}

impl Clone for BrainNetwork {
    /// Networks with the same weights.
    fn clone(&self) -> (copy: Self)
        ensures
            copy@ == self@,
    {
        BrainNetwork {
            rand: self.rand.fork(),
            wall_network: self.wall_network.clone(),
            food_network: self.food_network.clone(),
            carnivore_network: self.carnivore_network.clone(),
        }
    }
}

/// Sensor rays around a body, one per facing.
pub const RAYS: usize = 8;

/// What one ray reports: the kind of the nearest body it met and the distance
/// to it, or nothing within the view range.
pub type Reading = Option<(Entity, i64)>;

/// The input slot that a sighting raises for a viewer, if it raises one:
/// 0 for what the viewer eats, 1 for a carnivore, 2 for a wall.
pub open spec fn category(viewer: Entity, seen: Entity) -> Option<int> {
    match seen {
        Entity::FOOD => if viewer == Entity::HERBIVORE {
            Some(0)
        } else {
            None
        },
        Entity::HERBIVORE => if viewer == Entity::HERBIVORE {
            None
        } else {
            Some(0)
        },
        Entity::CARNIVORE => Some(1),
        Entity::WALL => Some(2),
        Entity::OTHER => None,
    }
}

/// How near a sighting is: `1 - toi / view_range`, on the fixed-point scale.
pub open spec fn proximity(toi: int, view_range: int) -> int {
    UNIT - trunc_div(toi * UNIT, view_range)
}

/// The signal of one ray for one input slot: the proximity of the sighting
/// where the sighting raises that slot, zero otherwise.
pub open spec fn relevance(viewer: Entity, reading: Reading, view_range: int, slot: int) -> int {
    match reading {
        Some((seen, toi)) => if category(viewer, seen) == Some(slot) {
            proximity(toi as int, view_range)
        } else {
            0
        },
        None => 0,
    }
}

/// The ray that feeds input `k` of a network: the rays two to the left of
/// the facing up to two to the right of it, in that order.
pub open spec fn cone_ray(facing: int, k: int) -> int {
    (facing + 6 + k) % 8
}

/// The ray that feeds input `k` of a network.
pub fn cone_ray_of(facing: i8, k: usize) -> (ray: usize)
    requires
        0 <= facing < 8,
        k < INPUTS,
    ensures
        ray == cone_ray(facing as int, k as int),
        ray < RAYS,
{
    (facing as usize + 6 + k) % 8
}

/// The five signals of one slot in the forward cone of a facing.
pub open spec fn cone(
    readings: Seq<Reading>,
    viewer: Entity,
    view_range: int,
    slot: int,
    facing: int,
) -> Seq<int> {
    Seq::new(
        INPUTS as nat,
        |k: int| relevance(viewer, readings[cone_ray(facing, k)], view_range, slot),
    )
}

/// Index of the largest of three fused outputs. Among equal largest ones
/// going straight (1) is preferred, then turning left (0).
pub open spec fn favourite(left: int, straight: int, right: int) -> int {
    if straight >= left && straight >= right {
        1
    } else if left >= right {
        0
    } else {
        2
    }
}

/// The facing after a choice: 0 turns one step left, 1 keeps the facing,
/// anything else turns one step right.
pub open spec fn turn(facing: int, choice: int) -> int {
    if choice == 0 {
        (facing + 7) % 8
    } else if choice == 1 {
        facing
    } else {
        (facing + 1) % 8
    }
}

/// Every sighting lies within the view range.
pub open spec fn readings_in_range(readings: Seq<Reading>, view_range: int) -> bool {
    forall|i: int|
        0 <= i < readings.len() ==> (#[trigger] readings[i] matches Some((_, toi)) ==> 0 <= toi
            <= view_range)
}

impl BrainNetworkView {
    /// The three fused outputs for a set of readings: output by output, the
    /// sum of what the food, carnivore and wall networks give for their slot
    /// of the forward cone.
    pub open spec fn fused(
        self,
        view_range: int,
        readings: Seq<Reading>,
        viewer: Entity,
        facing: int,
    ) -> Seq<int> {
        let food = self.food.infer(cone(readings, viewer, view_range, 0, facing));
        let carnivore = self.carnivore.infer(cone(readings, viewer, view_range, 1, facing));
        let wall = self.wall.infer(cone(readings, viewer, view_range, 2, facing));
        Seq::new(OUTPUTS as nat, |i: int| food[i] + carnivore[i] + wall[i])
    }

    /// The facing that the networks choose for a set of readings.
    pub open spec fn direction(
        self,
        view_range: int,
        readings: Seq<Reading>,
        viewer: Entity,
        facing: int,
    ) -> int {
        let fused = self.fused(view_range, readings, viewer, facing);
        turn(facing, favourite(fused[0], fused[1], fused[2]))
    }
}

/// What is decided for a facing and a set of readings depends on the
/// weights of the three networks alone: controllers with the same weights
/// decide alike.
pub proof fn lemma_same_weights_same_direction(
    a: BrainNetworkView,
    b: BrainNetworkView,
    view_range: int,
    readings: Seq<Reading>,
    viewer: Entity,
    facing: int,
)
    requires
        a.food == b.food,
        a.carnivore == b.carnivore,
        a.wall == b.wall,
    ensures
        a.direction(view_range, readings, viewer, facing) == b.direction(
            view_range,
            readings,
            viewer,
            facing,
        ),
{
}

/// When the three fused outputs are equal the facing is kept.
pub proof fn lemma_tie_goes_straight(
    networks: BrainNetworkView,
    view_range: int,
    readings: Seq<Reading>,
    viewer: Entity,
    facing: int,
)
    requires
        ({
            let fused = networks.fused(view_range, readings, viewer, facing);
            fused[0] == fused[1] && fused[1] == fused[2]
        }),
    ensures
        networks.direction(view_range, readings, viewer, facing) == facing,
{
}

/// The input slot that a sighting raises for a viewer.
fn category_of(viewer: Entity, seen: Entity) -> (slot: Option<u8>)
    ensures
        match slot {
            Some(s) => category(viewer, seen) == Some(s as int),
            None => category(viewer, seen) is None,
        },
{
    match seen {
        Entity::FOOD => match viewer {
            Entity::HERBIVORE => Some(0),
            _ => None,
        },
        Entity::HERBIVORE => match viewer {
            Entity::HERBIVORE => None,
            _ => Some(0),
        },
        Entity::CARNIVORE => Some(1),
        Entity::WALL => Some(2),
        Entity::OTHER => None,
    }
}

/// How near a sighting within the view range is.
fn proximity_of(toi: i64, view_range: i64) -> (p: i64)
    requires
        0 <= toi <= view_range,
        view_range > 0,
    ensures
        p == proximity(toi as int, view_range as int),
        0 <= p <= UNIT,
{
    assert(0 <= toi * UNIT <= view_range * UNIT && view_range * UNIT
        <= 0x7fff_ffff_ffff_ffff * 1_000_000) by (nonlinear_arith)
        requires
            0 <= toi <= view_range <= 0x7fff_ffff_ffff_ffff,
            UNIT == 1_000_000,
    ;
    assert(0 <= (toi * UNIT) / (view_range as int) <= UNIT) by (nonlinear_arith)
        requires
            0 <= toi * UNIT <= view_range * UNIT,
            view_range > 0,
    ;
    let scaled: i128 = (toi as i128) * (UNIT as i128);
    let ratio: i128 = scaled / (view_range as i128);
    (UNIT as i128 - ratio) as i64
}

/// The signal of one ray for one input slot.
fn relevance_of(viewer: Entity, reading: &Reading, view_range: i64, slot: u8) -> (signal: i64)
    requires
        view_range > 0,
        *reading matches Some((_, toi)) ==> 0 <= toi <= view_range,
    ensures
        signal == relevance(viewer, *reading, view_range as int, slot as int),
{
    match reading {
        Some((seen, toi)) => {
            match category_of(viewer, *seen) {
                Some(raised) => if raised == slot {
                    proximity_of(*toi, view_range)
                } else {
                    0
                },
                None => 0,
            }
        },
        None => 0,
    }
}

/// The five signals of one slot in the forward cone of a facing.
fn cone_of(
    readings: &Vec<Reading>,
    viewer: Entity,
    view_range: i64,
    slot: u8,
    facing: i8,
) -> (input: Vec<i64>)
    requires
        readings.len() == RAYS,
        readings_in_range(readings@, view_range as int),
        view_range > 0,
        0 <= facing < 8,
    ensures
        ints(input@) == cone(readings@, viewer, view_range as int, slot as int, facing as int),
{
    let mut input: Vec<i64> = Vec::new();
    let mut k: usize = 0;
    while k < INPUTS
        invariant
            k <= INPUTS,
            readings.len() == RAYS,
            readings_in_range(readings@, view_range as int),
            view_range > 0,
            0 <= facing < 8,
            input.len() == k,
            forall|j: int|
                0 <= j < k ==> #[trigger] input[j] as int == relevance(
                    viewer,
                    readings[cone_ray(facing as int, j)],
                    view_range as int,
                    slot as int,
                ),
        decreases INPUTS - k,
    {
        let ray = cone_ray_of(facing, k);
        let signal = relevance_of(viewer, &readings[ray], view_range, slot);
        input.push(signal);
        k = k + 1;
    }
    assert(ints(input@) =~= cone(readings@, viewer, view_range as int, slot as int, facing as int));
    input
}

/// A controller: three networks, the range of its sensors, and the chance
/// that governs mutation.
pub struct Brain {
    rand: RandomHelper,
    view_range: i64,
    mutation_rate: i64,
    brain_network: BrainNetwork,
}

impl Brain {
    /// The weights of the three networks.
    pub closed spec fn networks(&self) -> BrainNetworkView {
        self.brain_network@
    }

    /// The range of the sensors.
    pub closed spec fn view_range(&self) -> int {
        self.view_range as int
    }

    /// The threshold that a draw from `[0, UNIT)` must exceed for a mutation.
    pub closed spec fn mutation_rate(&self) -> int {
        self.mutation_rate as int
    }

    /// The networks are well formed and the sensors reach somewhere.
    pub open spec fn wf(&self) -> bool {
        self.networks().wf() && self.view_range() > 0
    }

    /// A controller with fresh networks, whose weights are drawn by
    /// generators seeded after `seed`.
    pub fn new(view_range: i64, mutation_rate: i64, seed: u64) -> (brain: Self)
        requires
            view_range > 0,
        ensures
            brain.wf(),
            brain.view_range() == view_range,
            brain.mutation_rate() == mutation_rate,
    {
        let rand = RandomHelper::new(500 * UNIT, 500 * UNIT, seed);
        Brain {
            rand,
            view_range,
            mutation_rate,
            brain_network: BrainNetwork::new(seed.wrapping_add(777)),
        }
    }

    /// A copy of the networks.
    pub fn get_networks(&self) -> (networks: BrainNetwork)
        ensures
            networks@ == self.networks(),
    {
        self.brain_network.clone()
    }

    /// Replaces the networks.
    pub fn set_networks(&mut self, brain_network: BrainNetwork)
        ensures
            final(self).networks() == brain_network@,
            final(self).view_range() == old(self).view_range(),
            final(self).mutation_rate() == old(self).mutation_rate(),
    {
        self.brain_network = brain_network;
    }

    /// Whether a draw from `[0, UNIT)` lets a mutation happen: it does when
    /// the draw exceeds the mutation rate, so a higher rate makes mutations
    /// rarer.
    pub fn mutation_due(mutation_rate: i64, draw: i64) -> (due: bool)
        ensures
            due == (mutation_rate < draw),
    {
        mutation_rate < draw
    }

    /// Mutates the networks if a draw from `[0, UNIT)` exceeds the mutation
    /// rate; otherwise leaves them as they are.
    pub fn mutate(&mut self)
        requires
            old(self).wf(),
        ensures
            final(self).wf(),
            old(self).networks().same_or_one_cell_replaced(final(self).networks()),
            old(self).mutation_rate() >= UNIT - 1 ==> final(self).networks() == old(
                self,
            ).networks(),
            old(self).mutation_rate() < 0 ==> exists|
                network: int,
                layer: int,
                cell: int,
                value: int,
            |
                0 <= network < 3 && 0 <= layer < 2 && 0 <= cell < NetworkView::cells(layer) && -UNIT
                    <= value < UNIT && final(self).networks() == #[trigger] old(
                    self,
                ).networks().replaced(network, layer, cell, value),
            final(self).view_range() == old(self).view_range(),
            final(self).mutation_rate() == old(self).mutation_rate(),
    {
        let draw = self.rand.random_between(0, UNIT);
        if Brain::mutation_due(self.mutation_rate, draw) {
            self.brain_network.mutate();
        }
    }

    /// Decides the next facing from what the eight rays report. Ray `i`
    /// looks in the direction of facing `i`.
    pub fn get_new_direction(
        &self,
        closest_objects: Vec<Reading>,
        brain_entity: Entity,
        facing: i8,
    ) -> (direction: i8)
        requires
            self.wf(),
            closest_objects.len() == RAYS,
            readings_in_range(closest_objects@, self.view_range()),
            0 <= facing < 8,
        ensures
            direction == self.networks().direction(
                self.view_range(),
                closest_objects@,
                brain_entity,
                facing as int,
            ),
            0 <= direction < 8,
    {
        let food_input = cone_of(&closest_objects, brain_entity, self.view_range, 0, facing);
        let carnivore_input = cone_of(&closest_objects, brain_entity, self.view_range, 1, facing);
        let wall_input = cone_of(&closest_objects, brain_entity, self.view_range, 2, facing);
        assert(ints(food_input@).len() == INPUTS);
        assert(ints(carnivore_input@).len() == INPUTS);
        assert(ints(wall_input@).len() == INPUTS);
        let food = self.brain_network.food_network.infer(&food_input);
        let carnivore = self.brain_network.carnivore_network.infer(&carnivore_input);
        let wall = self.brain_network.wall_network.infer(&wall_input);
        assert(ints(food@).len() == OUTPUTS);
        assert(ints(carnivore@).len() == OUTPUTS);
        assert(ints(wall@).len() == OUTPUTS);
        let left: i128 = food[0] as i128 + carnivore[0] as i128 + wall[0] as i128;
        let straight: i128 = food[1] as i128 + carnivore[1] as i128 + wall[1] as i128;
        let right: i128 = food[2] as i128 + carnivore[2] as i128 + wall[2] as i128;
        proof {
            let fused = self.networks().fused(
                self.view_range(),
                closest_objects@,
                brain_entity,
                facing as int,
            );
            assert(ints(food@)[0] == food[0] && ints(food@)[1] == food[1] && ints(food@)[2]
                == food[2]);
            assert(ints(carnivore@)[0] == carnivore[0] && ints(carnivore@)[1] == carnivore[1]
                && ints(carnivore@)[2] == carnivore[2]);
            assert(ints(wall@)[0] == wall[0] && ints(wall@)[1] == wall[1] && ints(wall@)[2]
                == wall[2]);
            assert(fused[0] == left && fused[1] == straight && fused[2] == right);
        }
        if straight >= left && straight >= right {
            facing
        } else if left >= right {
            (facing + 7) % 8
        } else {
            (facing + 1) % 8
        }
    }

    /// How far the sensors reach.
    pub fn max_sensor_distance(&self) -> (range: i64)
        ensures
            range == self.view_range(),
    {
        self.view_range
    }

    /// The squashing function `x / (|x| + 1/2)` on fixed-point numbers.
    pub fn sigmoid(num: i64) -> (squashed: i64)
        ensures
            squashed == sigmoid_spec(num as int),
    {
        squash(num as i128)
    }
}

} // verus!
