//! The ResNet: a stem convolution and pooling, a sequence of stages (residual block,
//! then a stride-two reducing convolution for every stage but the last), and a
//! flatten plus linear classification head.
//!
//! Choices made here:
//! - construction fails fast when the stage widths and the stage depths differ in
//!   number, instead of building only as many stages as the shorter list allows;
//! - both construction paths build `stages - 1` reducing convolutions, all of them
//!   unpadded with stride two;
//! - a record mirrors the network it restores: convolution block `j` of a stage takes
//!   entry `j` of that stage's record, so a stage of depth `d` needs `d - 1` entries
//!   (not entries `1 .. d` read from an offset of one);
//! - the head is sized `last width * (input side / 2^stages - 1)` per spatial axis, and
//!   the stem's pooling target is derived from that reduced side so that the reducing
//!   convolutions bring the feature map exactly to it: every input that passes the
//!   stem then reaches the head with the features it was sized for;
//! - the forward pass flattens the feature map it actually has, so a mismatch would be
//!   reported as a `FeatureMismatch` rather than reshaped into.
use crate::layers::{AdaptiveAvgPool2d, Conv2d, Dims2, Dims4, Fresh, Linear, Padding, ShapeError};
use crate::residual::{conv_block_count, lemma_chains_agree, lemma_res_block_keeps_shape, spec_conv_block_count, ResBlock, ResBlockConfig, ResBlockRecord};
use vstd::arithmetic::div_mod::{lemma_div_denominator, lemma_fundamental_div_mod, lemma_mod_pos_bound};
use vstd::arithmetic::power2::{lemma2_to64, lemma_pow2_pos, lemma_pow2_strictly_increases, lemma_pow2_unfold, pow2};
use vstd::prelude::*;

verus! {

/// Kernel side of every convolution inside the stages and of the reducing convolutions.
pub const STAGE_KERNEL: usize = 3;

/// Stride of the reducing convolutions along both spatial axes.
pub const REDUCING_STRIDE: usize = 2;

/// Hyperparameters of a [`ResNet`]. `blocks` holds the depth of each stage.
#[derive(Clone, Debug)]
pub struct ResNetConfig {
    pub num_classes: usize,
    pub init_kernel: [usize; 2],
    pub in_channels: [usize; 2],
    pub blocks: Vec<usize>,
    pub input_size: [usize; 2],
}

/// Why a network cannot be built from a configuration and a list of stage widths.
#[derive(Clone, Copy, Debug, PartialEq, Eq, Structural)]
pub enum ConstructError {
    /// No stage width was given.
    NoStages,
    /// The stage widths and the stage depths differ in number.
    LengthMismatch { widths: usize, depths: usize },
    /// An input side halved once per stage leaves nothing to reduce.
    InputTooSmall,
    /// The classification head's input size does not fit in a `usize`.
    TooManyFeatures,
    /// The record does not hold an entry for every layer that takes one.
    RecordMismatch,
}

/// Checkpointed parameters of a [`ResNet`].
pub struct ResNetRecord<P> {
    pub conv: P,
    pub res_blocks: Vec<ResBlockRecord<P>>,
    pub reducing_conv: Vec<P>,
    pub classification: P,
}

/// A ResNet whose checkpointable parameters are of type `P`.
pub struct ResNet<P> {
    pub conv: Conv2d<P>,
    pub pool: AdaptiveAvgPool2d,
    pub res_blocks: Vec<ResBlock<P>>,
    pub reducing_conv: Vec<Conv2d<P>>,
    pub classification: Linear<P>,
}

/// `extent / 2^stages - 1`, when that is at least one.
pub open spec fn spec_reduced_extent(extent: nat, stages: nat) -> Option<nat> {
    if extent / pow2(stages) >= 2 {
        Some((extent / pow2(stages) - 1) as nat)
    } else {
        None
    }
}

proof fn lemma_halve(x: nat, i: nat)
    ensures
        x / pow2(i) / 2 == x / pow2(i + 1),
{
    lemma_pow2_pos(i);
    lemma_pow2_unfold(i + 1);
    lemma_div_denominator(x as int, pow2(i) as int, 2);
    assert(pow2(i) * 2 == pow2(i + 1)) by (nonlinear_arith)
        requires pow2(i + 1) == 2 * pow2(i);
}

/// Side of the feature map that the head is sized for: `extent` divided by two once
/// per stage, minus one.
pub fn reduced_extent(extent: usize, stages: usize) -> (r: Option<usize>)
    ensures
        r is Some <==> spec_reduced_extent(extent as nat, stages as nat) is Some,
        r matches Some(v) ==> spec_reduced_extent(extent as nat, stages as nat) == Some(v as nat),
{
    let mut q: usize = extent;
    let mut i: usize = 0;
    proof {
        lemma2_to64();
    }
    while i < stages
        invariant
            i <= stages,
            q as nat == extent as nat / pow2(i as nat),
        decreases stages - i,
    {
        proof {
            lemma_halve(extent as nat, i as nat);
        }
        q = q / 2;
        i = i + 1;
    }
    if q >= 2 { Some(q - 1) } else { None }
}

/// Side to pool to so that `k` reducing convolutions (kernel three, stride two, no
/// padding) end at side `side`: each of them maps `2y + 1` to `y`.
pub open spec fn spec_pool_side(side: nat, k: nat) -> nat
    decreases k,
{
    if k == 0 {
        side
    } else {
        2 * spec_pool_side(side, (k - 1) as nat) + 1
    }
}

proof fn lemma_pool_side_closed(side: nat, k: nat)
    ensures
        spec_pool_side(side, k) + 1 == pow2(k) * (side + 1),
        spec_pool_side(side, k) >= side,
    decreases k,
{
    if k == 0 {
        lemma2_to64();
    } else {
        lemma_pool_side_closed(side, (k - 1) as nat);
        lemma_pow2_unfold(k);
        assert(pow2(k) * (side + 1) == 2 * (pow2((k - 1) as nat) * (side + 1))) by (nonlinear_arith)
            requires pow2(k) == 2 * pow2((k - 1) as nat);
    }
}

/// Side to which the stem's pooling brings an input side `extent` in a network of
/// `stages` stages: the reduced side, widened back over the `stages - 1` reducing
/// convolutions.
pub fn pool_side(extent: usize, stages: usize) -> (r: Option<usize>)
    requires
        stages >= 1,
    ensures
        r is Some <==> spec_reduced_extent(extent as nat, stages as nat) is Some,
        r matches Some(v) ==> v == spec_pool_side(
            spec_reduced_extent(extent as nat, stages as nat)->0,
            (stages - 1) as nat,
        ),
{
    let side = match reduced_extent(extent, stages) {
        Some(s) => s,
        None => return None,
    };
    proof {
        let d = pow2(stages as nat);
        let h = pow2((stages - 1) as nat);
        lemma_pow2_pos(stages as nat);
        lemma_pow2_unfold(stages as nat);
        lemma_fundamental_div_mod(extent as int, d as int);
        lemma_mod_pos_bound(extent as int, d as int);
        assert(h * (side as nat + 1) <= extent) by (nonlinear_arith)
            requires
                side + 1 == extent as nat / d,
                d == 2 * h,
                extent == d * (extent as nat / d) + extent as int % d as int,
                extent as int % d as int >= 0,
                h > 0;
    }
    let mut y: usize = side;
    let mut i: usize = 0;
    while i < stages - 1
        invariant
            stages >= 1,
            i <= stages - 1,
            y as nat == spec_pool_side(side as nat, i as nat),
            pow2((stages - 1) as nat) * (side as nat + 1) <= extent,
        decreases stages - 1 - i,
    {
        proof {
            lemma_pool_side_closed(side as nat, (i + 1) as nat);
            if i + 1 < stages - 1 {
                lemma_pow2_strictly_increases((i + 1) as nat, (stages - 1) as nat);
            }
            assert(pow2((i + 1) as nat) * (side as nat + 1) <= pow2((stages - 1) as nat) * (side as nat + 1))
                by (nonlinear_arith)
                requires pow2((i + 1) as nat) <= pow2((stages - 1) as nat);
        }
        y = 2 * y + 1;
        i = i + 1;
    }
    Some(y)
}

/// The configuration of stage `width`'s residual block.
pub open spec fn stage_config(width: usize) -> ResBlockConfig {
    ResBlockConfig { channel: width, kernel: [STAGE_KERNEL, STAGE_KERNEL] }
}

/// `c` is the reducing convolution from a stage of width `from` to one of width `to`.
pub open spec fn is_reducer<P>(c: Conv2d<P>, from: usize, to: usize) -> bool {
    &&& c.wf()
    &&& c.channels[0] == from && c.channels[1] == to
    &&& c.kernel[0] == STAGE_KERNEL && c.kernel[1] == STAGE_KERNEL
    &&& c.stride[0] == REDUCING_STRIDE && c.stride[1] == REDUCING_STRIDE
    &&& c.padding == Padding::Valid
}

impl ResNetConfig {
    /// A configuration with a 7x7 stem kernel, stem channels `3 -> 32` and input size 128x128.
    pub fn new(num_classes: usize, blocks: Vec<usize>) -> (r: Self)
        ensures
            r.num_classes == num_classes,
            r.blocks == blocks,
            r.init_kernel == [7usize, 7],
            r.in_channels == [3usize, 32],
            r.input_size == [128usize, 128],
    {
        ResNetConfig { num_classes, init_kernel: [7, 7], in_channels: [3, 32], blocks, input_size: [128, 128] }
    }

    pub fn with_init_kernel(self, init_kernel: [usize; 2]) -> (r: Self)
        ensures
            r == (ResNetConfig { init_kernel, ..self }),
    {
        ResNetConfig { init_kernel, ..self }
    }

    pub fn with_in_channels(self, in_channels: [usize; 2]) -> (r: Self)
        ensures
            r == (ResNetConfig { in_channels, ..self }),
    {
        ResNetConfig { in_channels, ..self }
    }

    pub fn with_input_size(self, input_size: [usize; 2]) -> (r: Self)
        ensures
            r == (ResNetConfig { input_size, ..self }),
    {
        ResNetConfig { input_size, ..self }
    }

    /// Input size of the classification head for stage widths `widths`, or why the
    /// configuration and `widths` do not make a network.
    pub open spec fn head_features(&self, widths: Seq<usize>) -> Result<nat, ConstructError> {
        let n = widths.len();
        let h = spec_reduced_extent(self.input_size[0] as nat, n);
        let w = spec_reduced_extent(self.input_size[1] as nat, n);
        if n == 0 {
            Err(ConstructError::NoStages)
        } else if n != self.blocks@.len() {
            Err(ConstructError::LengthMismatch { widths: n as usize, depths: self.blocks@.len() as usize })
        } else if h is None || w is None {
            Err(ConstructError::InputTooSmall)
        } else if widths[n - 1] * h->0 * w->0 > usize::MAX {
            Err(ConstructError::TooManyFeatures)
        } else {
            Ok((widths[n - 1] * h->0 * w->0) as nat)
        }
    }

    /// `record` has an entry for every layer of a network with stage widths `widths`.
    pub open spec fn record_fits<P>(&self, record: &ResNetRecord<P>, widths: Seq<usize>) -> bool {
        &&& record.res_blocks@.len() >= widths.len()
        &&& record.reducing_conv@.len() + 1 >= widths.len()
        &&& forall|i: int| 0 <= i < widths.len() ==> (#[trigger] record.res_blocks@[i]).blocks@.len() >= spec_conv_block_count(self.blocks@[i] as nat)
    }

    /// `net` has the topology that this configuration and `widths` describe.
    pub open spec fn builds<P>(&self, net: ResNet<P>, widths: Seq<usize>) -> bool {
        let n = widths.len();
        &&& net.wf()
        &&& self.head_features(widths) is Ok
        &&& net.conv.channels == self.in_channels
        &&& net.conv.kernel == self.init_kernel
        &&& net.conv.padding == Padding::Valid
        &&& net.conv.stride[0] == 1 && net.conv.stride[1] == 1
        &&& net.pool.output_size[0] == spec_pool_side(spec_reduced_extent(self.input_size[0] as nat, n)->0, (n - 1) as nat)
        &&& net.pool.output_size[1] == spec_pool_side(spec_reduced_extent(self.input_size[1] as nat, n)->0, (n - 1) as nat)
        &&& net.res_blocks@.len() == n
        &&& net.reducing_conv@.len() == n - 1
        &&& forall|i: int| 0 <= i < n ==> stage_config(widths[i]).built(#[trigger] net.res_blocks@[i], self.blocks@[i] as nat)
        &&& forall|i: int| 0 <= i < n - 1 ==> is_reducer(#[trigger] net.reducing_conv@[i], widths[i], widths[i + 1])
        &&& net.classification.in_features == self.head_features(widths)->Ok_0
        &&& net.classification.out_features == self.num_classes
    }

    /// `net` holds the parameters of `record`, each at the layer whose entry it is.
    pub open spec fn restores<P>(&self, net: ResNet<P>, record: &ResNetRecord<P>) -> bool {
        &&& net.conv.params == record.conv
        &&& net.classification.params == record.classification
        &&& forall|i: int| 0 <= i < net.reducing_conv@.len() ==> (#[trigger] net.reducing_conv@[i]).params == record.reducing_conv@[i]
        &&& forall|i: int, j: int| 0 <= i < net.res_blocks@.len() && 0 <= j < net.res_blocks@[i].blocks@.len()
            ==> (#[trigger] net.res_blocks@[i].blocks@[j]).conv.params == record.res_blocks@[i].blocks@[j].conv
    }

    fn head_size(&self, widths: &Vec<usize>) -> (r: Result<usize, ConstructError>)
        ensures
            r is Ok <==> self.head_features(widths@) is Ok,
            r matches Ok(f) ==> self.head_features(widths@) == Ok::<nat, ConstructError>(f as nat),
            r matches Err(e) ==> self.head_features(widths@) == Err::<nat, ConstructError>(e),
    {
        let n = widths.len();
        if n == 0 {
            return Err(ConstructError::NoStages);
        }
        if n != self.blocks.len() {
            return Err(ConstructError::LengthMismatch { widths: n, depths: self.blocks.len() });
        }
        let h = reduced_extent(self.input_size[0], n);
        let w = reduced_extent(self.input_size[1], n);
        match (h, w) {
            (Some(h), Some(w)) => if w == 0 {
                assert(widths@[n - 1] * h * 0 == 0) by (nonlinear_arith);
                Ok(0)
            } else {
                match widths[n - 1].checked_mul(h) {
                Some(a) => match a.checked_mul(w) {
                    Some(f) => Ok(f),
                    None => Err(ConstructError::TooManyFeatures),
                },
                None => {
                    assert(widths@[n - 1] * h * w > usize::MAX) by (nonlinear_arith)
                        requires widths@[n - 1] * h > usize::MAX, w >= 1;
                    Err(ConstructError::TooManyFeatures)
                },
                }
            },
            _ => Err(ConstructError::InputTooSmall),
        }
    }

    fn record_covers<P>(&self, record: &ResNetRecord<P>, widths: &Vec<usize>) -> (r: bool)
        requires
            widths@.len() == self.blocks@.len(),
        ensures
            r == self.record_fits(record, widths@),
    {
        let n = widths.len();
        if record.res_blocks.len() < n || (n > 0 && record.reducing_conv.len() < n - 1) {
            return false;
        }
        let mut i: usize = 0;
        while i < n
            invariant
                n == widths@.len(),
                n == self.blocks@.len(),
                record.res_blocks@.len() >= n,
                i <= n,
                forall|k: int| 0 <= k < i ==> (#[trigger] record.res_blocks@[k]).blocks@.len() >= spec_conv_block_count(self.blocks@[k] as nat),
            decreases n - i,
        {
            if record.res_blocks[i].blocks.len() < conv_block_count(self.blocks[i]) {
                return false;
            }
            i = i + 1;
        }
        true
    }

    /// A record of default parameters with an entry for every layer of a network of
    /// `stages` stages.
    fn fresh_record(&self, stages: usize) -> (r: ResNetRecord<Fresh>)
        requires
            stages == self.blocks@.len(),
        ensures
            r.res_blocks@.len() == stages,
            r.reducing_conv@.len() == stages,
            forall|i: int| 0 <= i < stages ==> (#[trigger] r.res_blocks@[i]).blocks@.len() == spec_conv_block_count(self.blocks@[i] as nat),
    {
        let mut res_blocks: Vec<ResBlockRecord<Fresh>> = Vec::new();
        let mut reducing_conv: Vec<Fresh> = Vec::new();
        let mut i: usize = 0;
        while i < stages
            invariant
                stages == self.blocks@.len(),
                i <= stages,
                res_blocks@.len() == i,
                reducing_conv@.len() == i,
                forall|k: int| 0 <= k < i ==> (#[trigger] res_blocks@[k]).blocks@.len() == spec_conv_block_count(self.blocks@[k] as nat),
            decreases stages - i,
        {
            let depth = conv_block_count(self.blocks[i]);
            let mut blocks = Vec::new();
            let mut j: usize = 0;
            while j < depth
                invariant
                    j <= depth,
                    blocks@.len() == j,
                decreases depth - j,
            {
                blocks.push(crate::conv::ConvBlockRecord { conv: Fresh });
                j = j + 1;
            }
            res_blocks.push(ResBlockRecord { blocks });
            reducing_conv.push(Fresh);
            i = i + 1;
        }
        ResNetRecord { conv: Fresh, res_blocks, reducing_conv, classification: Fresh }
    }

    /// Builds a network with default-initialised parameters and one stage per entry of
    /// `layers` (the stage widths): a residual block per stage and a reducing
    /// convolution between consecutive stages. Fails, without building anything, when
    /// `layers` is empty, when its length differs from that of `blocks`, or when the
    /// classification head cannot be sized.
    pub fn init(&self, layers: Vec<usize>) -> (r: Result<ResNet<Fresh>, ConstructError>)
        ensures
            r is Ok <==> self.head_features(layers@) is Ok,
            r matches Err(e) ==> self.head_features(layers@) == Err::<nat, ConstructError>(e),
            r matches Ok(net) ==> self.builds(net, layers@),
    {
        match self.head_size(&layers) {
            Ok(_) => {},
            Err(e) => return Err(e),
        }
        let record = self.fresh_record(layers.len());
        self.init_with(record, layers)
    }

    /// Builds the same network as [`ResNetConfig::init`], every convolution and the
    /// linear layer taking its parameters from `record`: the stem from `record.conv`,
    /// convolution block `j` of stage `i` from `record.res_blocks[i].blocks[j]`, the
    /// reducing convolution after stage `i`
    /// from `record.reducing_conv[i]`, the head from `record.classification`. Fails as
    /// `init` does, and with `RecordMismatch` when `record` lacks an entry.
    pub fn init_with<P>(&self, record: ResNetRecord<P>, layers: Vec<usize>) -> (r: Result<ResNet<P>, ConstructError>)
        ensures
            r is Ok <==> self.head_features(layers@) is Ok && self.record_fits(&record, layers@),
            r matches Err(e) ==> if self.head_features(layers@) is Err {
                self.head_features(layers@) == Err::<nat, ConstructError>(e)
            } else {
                e == ConstructError::RecordMismatch
            },
            r matches Ok(net) ==> self.builds(net, layers@) && self.restores(net, &record),
    {
        let features = match self.head_size(&layers) {
            Ok(f) => f,
            Err(e) => return Err(e),
        };
        if !self.record_covers(&record, &layers) {
            return Err(ConstructError::RecordMismatch);
        }
        let n = layers.len();
        let ghost rec_rb = record.res_blocks@;
        let ghost rec_red = record.reducing_conv@;
        let ResNetRecord { conv, res_blocks: mut rb_rest, reducing_conv: mut red_rest, classification } = record;
        let mut res_blocks: Vec<ResBlock<P>> = Vec::new();
        let mut reducing_conv: Vec<Conv2d<P>> = Vec::new();
        let mut idx: usize = 0;
        while idx < n
            invariant
                n == layers@.len(),
                n == self.blocks@.len(),
                n > 0,
                idx <= n,
                rec_rb.len() >= n,
                rec_red.len() + 1 >= n,
                forall|k: int| 0 <= k < n ==> (#[trigger] rec_rb[k]).blocks@.len() >= spec_conv_block_count(self.blocks@[k] as nat),
                rb_rest@ == rec_rb.subrange(idx as int, rec_rb.len() as int),
                res_blocks@.len() == idx,
                reducing_conv@.len() == (if idx == n { n - 1 } else { idx as int }),
                red_rest@ == rec_red.subrange(reducing_conv@.len() as int, rec_red.len() as int),
                forall|i: int| 0 <= i < idx ==> stage_config(layers@[i]).built(#[trigger] res_blocks@[i], self.blocks@[i] as nat),
                forall|i: int, j: int| 0 <= i < idx && 0 <= j < res_blocks@[i].blocks@.len()
                    ==> (#[trigger] res_blocks@[i].blocks@[j]).conv.params == rec_rb[i].blocks@[j].conv,
                forall|i: int| 0 <= i < reducing_conv@.len() ==> is_reducer(#[trigger] reducing_conv@[i], layers@[i], layers@[i + 1])
                    && reducing_conv@[i].params == rec_red[i],
            decreases n - idx,
        {
            let width = layers[idx];
            let stage = ResBlockConfig::new(width, [STAGE_KERNEL, STAGE_KERNEL]);
            let rec = rb_rest.remove(0);
            let block = stage.init_with(self.blocks[idx], rec);
            proof {
                assert(stage == stage_config(width));
            }
            res_blocks.push(block);
            if idx + 1 < n {
                let params = red_rest.remove(0);
                let next = layers[idx + 1];
                let c = Conv2d::valid([width, next], [STAGE_KERNEL, STAGE_KERNEL], [REDUCING_STRIDE, REDUCING_STRIDE], params);
                reducing_conv.push(c);
            }
            idx = idx + 1;
            proof {
                assert forall|i: int, j: int| 0 <= i < idx && 0 <= j < res_blocks@[i].blocks@.len()
                    implies (#[trigger] res_blocks@[i].blocks@[j]).conv.params == rec_rb[i].blocks@[j].conv by {
                    if i == idx - 1 {
                        assert(res_blocks@[i] == block);
                    }
                }
            }
        }
        let conv = Conv2d::valid(self.in_channels, self.init_kernel, [1, 1], conv);
        let pool_h = pool_side(self.input_size[0], n).unwrap();
        let pool_w = pool_side(self.input_size[1], n).unwrap();
        let pool = AdaptiveAvgPool2d { output_size: [pool_h, pool_w] };
        let classification = Linear { in_features: features, out_features: self.num_classes, params: classification };
        Ok(ResNet { conv, pool, res_blocks, reducing_conv, classification })
    }
}

impl<P> ResNet<P> {
    /// Every layer is well formed, and there is at most one reducing convolution per stage.
    pub open spec fn wf(&self) -> bool {
        &&& self.conv.wf()
        &&& self.reducing_conv@.len() <= self.res_blocks@.len()
        &&& forall|i: int| 0 <= i < self.res_blocks@.len() ==> (#[trigger] self.res_blocks@[i]).wf()
        &&& forall|i: int| 0 <= i < self.reducing_conv@.len() ==> (#[trigger] self.reducing_conv@[i]).wf()
    }
}

impl<P> ResNet<P> {
    /// Shape after stage `i` (its residual block, then its reducing convolution if any).
    pub open spec fn stage_out(&self, i: int, x: Dims4) -> Result<Dims4, ShapeError> {
        match self.res_blocks@[i].out_shape(x) {
            Ok(y) => if i < self.reducing_conv@.len() {
                self.reducing_conv@[i].out_shape(y)
            } else {
                Ok(y)
            },
            Err(e) => Err(e),
        }
    }

    /// Shape after the first `k` stages, starting from `x`.
    pub open spec fn stages_out(&self, k: nat, x: Dims4) -> Result<Dims4, ShapeError>
        decreases k,
    {
        if k == 0 {
            Ok(x)
        } else {
            match self.stages_out((k - 1) as nat, x) {
                Ok(y) => self.stage_out(k - 1, y),
                Err(e) => Err(e),
            }
        }
    }

    /// Shape of the network's output for an input of shape `input`: stem convolution,
    /// pooling, every stage in order, flattening, classification.
    pub open spec fn out_shape(&self, input: Dims4) -> Result<Dims2, ShapeError> {
        match self.conv.out_shape(input) {
            Ok(s) => match self.stages_out(self.res_blocks@.len(), self.pool.out_shape(s)) {
                Ok(z) => match flatten_shape(z) {
                    Ok(f) => self.classification.out_shape(f),
                    Err(e) => Err(e),
                },
                Err(e) => Err(e),
            },
            Err(e) => Err(e),
        }
    }

    /// Once a stage fails, the shapes of all later stages fail the same way.
    pub proof fn lemma_stages_err_persists(&self, k: nat, m: nat, x: Dims4)
        requires
            k <= m,
            self.stages_out(k, x) is Err,
        ensures
            self.stages_out(m, x) == self.stages_out(k, x),
        decreases m - k,
    {
        if m > k {
            self.lemma_stages_err_persists(k, (m - 1) as nat, x);
        }
    }

    /// Number of stages, that is of residual blocks.
    pub fn num_stages(&self) -> (r: usize)
        ensures
            r == self.res_blocks@.len(),
    {
        self.res_blocks.len()
    }

    /// Number of reducing convolutions.
    pub fn num_reducing_convs(&self) -> (r: usize)
        ensures
            r == self.reducing_conv@.len(),
    {
        self.reducing_conv.len()
    }

    fn stage_shape(&self, i: usize, x: Dims4) -> (r: Result<Dims4, ShapeError>)
        requires
            self.wf(),
            i < self.res_blocks@.len(),
        ensures
            r == self.stage_out(i as int, x),
    {
        let y = match self.res_blocks[i].forward_shape(x) {
            Ok(y) => y,
            Err(e) => return Err(e),
        };
        if i < self.reducing_conv.len() {
            self.reducing_conv[i].forward_shape(y)
        } else {
            Ok(y)
        }
    }

    /// Shape of the network's output for an input of shape `input`, or the first layer
    /// at which the shapes do not fit.
    pub fn forward_shape(&self, input: Dims4) -> (r: Result<Dims2, ShapeError>)
        requires
            self.wf(),
        ensures
            r == self.out_shape(input),
    {
        let s = match self.conv.forward_shape(input) {
            Ok(s) => s,
            Err(e) => return Err(e),
        };
        let p = self.pool.forward_shape(s);
        let mut x = p;
        let mut i: usize = 0;
        while i < self.res_blocks.len()
            invariant
                self.wf(),
                i <= self.res_blocks@.len(),
                self.stages_out(i as nat, p) == Ok::<Dims4, ShapeError>(x),
                self.conv.out_shape(input) == Ok::<Dims4, ShapeError>(s),
                p == self.pool.out_shape(s),
            decreases self.res_blocks@.len() - i,
        {
            x = match self.stage_shape(i, x) {
                Ok(y) => y,
                Err(e) => {
                    proof {
                        assert(self.stages_out((i + 1) as nat, p) == Err::<Dims4, ShapeError>(e));
                        self.lemma_stages_err_persists((i + 1) as nat, self.res_blocks@.len(), p);
                    }
                    return Err(e);
                },
            };
            i = i + 1;
        }
        match flatten(x) {
            Ok(f) => self.classification.forward_shape(f),
            Err(e) => Err(e),
        }
    }
}

/// Shape of `x` flattened to (batch, channels * height * width).
pub open spec fn flatten_shape(x: Dims4) -> Result<Dims2, ShapeError> {
    let f = x.channels * x.height * x.width;
    if f > usize::MAX {
        Err(ShapeError::FeatureOverflow)
    } else {
        Ok(Dims2 { batch: x.batch, features: f as usize })
    }
}

/// Flattens a feature map of shape `x` to (batch, channels * height * width).
pub fn flatten(x: Dims4) -> (r: Result<Dims2, ShapeError>)
    ensures
        r == flatten_shape(x),
{
    if x.width == 0 {
        assert(x.channels * x.height * 0 == 0) by (nonlinear_arith);
        return Ok(Dims2 { batch: x.batch, features: 0 });
    }
    match x.channels.checked_mul(x.height) {
        Some(a) => match a.checked_mul(x.width) {
            Some(f) => Ok(Dims2 { batch: x.batch, features: f }),
            None => Err(ShapeError::FeatureOverflow),
        },
        None => {
            assert(x.channels * x.height * x.width > usize::MAX) by (nonlinear_arith)
                requires x.channels * x.height > usize::MAX, x.width >= 1;
            Err(ShapeError::FeatureOverflow)
        },
    }
}

/// Stage widths of both presets.
pub open spec fn preset_widths() -> Seq<usize> {
    seq![32usize, 64, 128, 256]
}

/// The preset whose four stages have depths 2, 2, 2, 2 and widths 32, 64, 128, 256.
pub fn resnet18(num_classes: usize) -> (r: ResNet<Fresh>)
    ensures
        exists|cfg: ResNetConfig| {
            &&& cfg.num_classes == num_classes
            &&& cfg.blocks@ == seq![2usize, 2, 2, 2]
            &&& cfg.init_kernel == [7usize, 7]
            &&& cfg.in_channels == [3usize, 32]
            &&& cfg.input_size == [128usize, 128]
            &&& #[trigger] cfg.builds(r, preset_widths())
        },
{
    preset(num_classes, vec![2, 2, 2, 2])
}

/// The preset whose four stages have depths 3, 4, 6, 3 and widths 32, 64, 128, 256.
pub fn resnet50(num_classes: usize) -> (r: ResNet<Fresh>)
    ensures
        exists|cfg: ResNetConfig| {
            &&& cfg.num_classes == num_classes
            &&& cfg.blocks@ == seq![3usize, 4, 6, 3]
            &&& cfg.init_kernel == [7usize, 7]
            &&& cfg.in_channels == [3usize, 32]
            &&& cfg.input_size == [128usize, 128]
            &&& #[trigger] cfg.builds(r, preset_widths())
        },
{
    preset(num_classes, vec![3, 4, 6, 3])
}

fn preset(num_classes: usize, depths: Vec<usize>) -> (r: ResNet<Fresh>)
    requires
        depths@.len() == 4,
    ensures
        exists|cfg: ResNetConfig| {
            &&& cfg.num_classes == num_classes
            &&& cfg.blocks@ == depths@
            &&& cfg.init_kernel == [7usize, 7]
            &&& cfg.in_channels == [3usize, 32]
            &&& cfg.input_size == [128usize, 128]
            &&& #[trigger] cfg.builds(r, preset_widths())
        },
{
    let cfg = ResNetConfig::new(num_classes, depths);
    let widths: Vec<usize> = vec![32, 64, 128, 256];
    proof {
        lemma2_to64();
        assert(widths@ == preset_widths());
        assert(cfg.input_size[0] == 128 && cfg.input_size[1] == 128);
        assert(128nat / pow2(4) == 8);
        assert(spec_reduced_extent(128, 4) == Some(7nat));
        assert(widths@[3] * 7 * 7 <= usize::MAX);
        assert(cfg.head_features(widths@) is Ok);
    }
    let net = cfg.init(widths);
    net.unwrap()
}

/// When the stem's output width `in_channels[1]` differs from the first stage width,
/// the first convolution of the first stage (the residual block's first, or the
/// reducing convolution after an empty residual block) rejects the feature map, and
/// the whole forward pass fails with that mismatch, for every input that passes the
/// stem.
pub proof fn lemma_stem_mismatch_fails<P>(cfg: ResNetConfig, widths: Seq<usize>, net: ResNet<P>, input: Dims4)
    requires
        cfg.builds(net, widths),
        cfg.in_channels[1] != widths[0],
        cfg.blocks@[0] >= 2 || widths.len() >= 2,
        net.conv.out_shape(input) is Ok,
    ensures
        net.out_shape(input) == Err::<Dims2, ShapeError>(
            ShapeError::ChannelMismatch { expected: widths[0], found: cfg.in_channels[1] },
        ),
{
    let s = net.conv.out_shape(input)->Ok_0;
    let p = net.pool.out_shape(s);
    let rb = net.res_blocks@[0];
    let e = ShapeError::ChannelMismatch { expected: widths[0], found: cfg.in_channels[1] };
    assert(p.channels == cfg.in_channels[1]);
    assert(stage_config(widths[0]).built(rb, cfg.blocks@[0] as nat));
    assert(net.stages_out(0, p) == Ok::<Dims4, ShapeError>(p));
    if rb.blocks@.len() > 0 {
        assert(rb.blocks@[0].conv.channels[0] == widths[0]);
        assert(rb.chain_out(0, p) == Ok::<Dims4, ShapeError>(p));
        assert(rb.chain_out(1, p) == Err::<Dims4, ShapeError>(e));
        rb.lemma_chain_err_persists(1, rb.blocks@.len(), p);
        assert(rb.out_shape(p) == Err::<Dims4, ShapeError>(e));
    } else {
        assert(is_reducer(net.reducing_conv@[0], widths[0], widths[1]));
        assert(rb.out_shape(p) == Ok::<Dims4, ShapeError>(p));
        assert(net.reducing_conv@[0].out_shape(p) == Err::<Dims4, ShapeError>(e));
    }
    assert(net.stage_out(0, p) == Err::<Dims4, ShapeError>(e));
    assert(net.stages_out(1, p) == Err::<Dims4, ShapeError>(e));
    net.lemma_stages_err_persists(1, widths.len(), p);
}

proof fn lemma_pool_side_grows(side: nat, m: nat, k: nat)
    requires
        m <= k,
    ensures
        spec_pool_side(side, m) <= spec_pool_side(side, k),
    decreases k,
{
    if m < k {
        lemma_pool_side_grows(side, m, (k - 1) as nat);
    }
}

/// Shape entering stage `k` of a consistent network built for `widths`.
pub open spec fn stage_input(cfg: ResNetConfig, widths: Seq<usize>, batch: usize, k: int) -> Dims4 {
    let n = widths.len();
    Dims4 {
        batch,
        channels: widths[k],
        height: spec_pool_side(spec_reduced_extent(cfg.input_size[0] as nat, n)->0, (n - 1 - k) as nat) as usize,
        width: spec_pool_side(spec_reduced_extent(cfg.input_size[1] as nat, n)->0, (n - 1 - k) as nat) as usize,
    }
}

proof fn lemma_reducer_halves<P>(c: Conv2d<P>, from: usize, to: usize, x: Dims4, rh: nat, rw: nat, m: nat)
    requires
        is_reducer(c, from, to),
        m >= 1,
        rh >= 1,
        rw >= 1,
        x.channels == from,
        x.height == spec_pool_side(rh, m),
        x.width == spec_pool_side(rw, m),
        spec_pool_side(rh, m) <= usize::MAX,
        spec_pool_side(rw, m) <= usize::MAX,
    ensures
        c.out_shape(x) == Ok::<Dims4, ShapeError>(Dims4 {
            batch: x.batch,
            channels: to,
            height: spec_pool_side(rh, (m - 1) as nat) as usize,
            width: spec_pool_side(rw, (m - 1) as nat) as usize,
        }),
{
    lemma_pool_side_closed(rh, (m - 1) as nat);
    lemma_pool_side_closed(rw, (m - 1) as nat);
    let yh = spec_pool_side(rh, (m - 1) as nat);
    let yw = spec_pool_side(rw, (m - 1) as nat);
    assert((2 * yh + 1 - 3) as nat / 2 + 1 == yh) by (nonlinear_arith) requires yh >= 1;
    assert((2 * yw + 1 - 3) as nat / 2 + 1 == yw) by (nonlinear_arith) requires yw >= 1;
}

proof fn lemma_stages_reach<P>(cfg: ResNetConfig, widths: Seq<usize>, net: ResNet<P>, batch: usize, k: nat)
    requires
        cfg.builds(net, widths),
        k < widths.len(),
    ensures
        net.stages_out(k, stage_input(cfg, widths, batch, 0)) == Ok::<Dims4, ShapeError>(stage_input(cfg, widths, batch, k as int)),
    decreases k,
{
    let n = widths.len();
    let rh = spec_reduced_extent(cfg.input_size[0] as nat, n)->0;
    let rw = spec_reduced_extent(cfg.input_size[1] as nat, n)->0;
    if k > 0 {
        let i = k - 1;
        lemma_stages_reach(cfg, widths, net, batch, (k - 1) as nat);
        let x = stage_input(cfg, widths, batch, i);
        let m = (n - 1 - i) as nat;
        lemma_pool_side_grows(rh, m, (n - 1) as nat);
        lemma_pool_side_grows(rw, m, (n - 1) as nat);
        lemma_pool_side_closed(rh, 0);
        lemma_pool_side_closed(rw, 0);
        assert(stage_config(widths[i]).built(net.res_blocks@[i], cfg.blocks@[i] as nat));
        lemma_res_block_keeps_shape(stage_config(widths[i]), cfg.blocks@[i] as nat, net.res_blocks@[i], x);
        assert(is_reducer(net.reducing_conv@[i], widths[i], widths[i + 1]));
        lemma_reducer_halves(net.reducing_conv@[i], widths[i], widths[i + 1], x, rh, rw, m);
        assert(net.stage_out(i, x) == Ok::<Dims4, ShapeError>(stage_input(cfg, widths, batch, k as int)));
    }
}

/// A network whose stem ends at the first stage's width accepts every input with
/// `in_channels[0]` channels whose height and width are at least those of the stem
/// kernel (of sides at least one), and gives an output of shape (batch, num_classes).
pub proof fn lemma_consistent_network_accepts<P>(cfg: ResNetConfig, widths: Seq<usize>, net: ResNet<P>, input: Dims4)
    requires
        cfg.builds(net, widths),
        cfg.in_channels[1] == widths[0],
        input.channels == cfg.in_channels[0],
        1 <= cfg.init_kernel[0] <= input.height,
        1 <= cfg.init_kernel[1] <= input.width,
    ensures
        net.out_shape(input) == Ok::<Dims2, ShapeError>(Dims2 { batch: input.batch, features: cfg.num_classes }),
{
    let n = widths.len();
    let rh = spec_reduced_extent(cfg.input_size[0] as nat, n)->0;
    let rw = spec_reduced_extent(cfg.input_size[1] as nat, n)->0;
    let s = net.conv.out_shape(input)->Ok_0;
    assert(net.conv.out_shape(input) is Ok);
    assert(net.pool.out_shape(s) == stage_input(cfg, widths, input.batch, 0));
    lemma_stages_reach(cfg, widths, net, input.batch, (n - 1) as nat);
    let x = stage_input(cfg, widths, input.batch, n - 1);
    lemma_pool_side_grows(rh, 0, (n - 1) as nat);
    lemma_pool_side_grows(rw, 0, (n - 1) as nat);
    assert(stage_config(widths[n - 1]).built(net.res_blocks@[n - 1], cfg.blocks@[n - 1] as nat));
    lemma_res_block_keeps_shape(stage_config(widths[n - 1]), cfg.blocks@[n - 1] as nat, net.res_blocks@[n - 1], x);
    assert(net.stages_out(n, net.pool.out_shape(s)) == Ok::<Dims4, ShapeError>(x));
    assert(x.height == rh && x.width == rw);
    assert(flatten_shape(x) == Ok::<Dims2, ShapeError>(Dims2 { batch: input.batch, features: net.classification.in_features }));
}

/// A record with exactly one entry per convolution block of each stage, one per
/// reducing convolution, and entries for the stem and the head fits every
/// configuration that `init` accepts: `init_with` then succeeds, builds `init`'s
/// topology and places every entry at its layer.
pub proof fn lemma_network_shaped_record_fits<P>(cfg: ResNetConfig, widths: Seq<usize>, record: ResNetRecord<P>)
    requires
        cfg.head_features(widths) is Ok,
        record.res_blocks@.len() == widths.len(),
        record.reducing_conv@.len() == widths.len() - 1,
        forall|i: int| 0 <= i < widths.len() ==> (#[trigger] record.res_blocks@[i]).blocks@.len() == spec_conv_block_count(cfg.blocks@[i] as nat),
    ensures
        cfg.record_fits(&record, widths),
{
}

proof fn lemma_stages_agree<P, Q>(cfg: ResNetConfig, widths: Seq<usize>, a: ResNet<P>, b: ResNet<Q>, k: nat, x: Dims4)
    requires
        cfg.builds(a, widths),
        cfg.builds(b, widths),
        k <= widths.len(),
    ensures
        a.stages_out(k, x) == b.stages_out(k, x),
    decreases k,
{
    if k > 0 {
        let i = k - 1;
        lemma_stages_agree(cfg, widths, a, b, (k - 1) as nat, x);
        assert(stage_config(widths[i]).built(a.res_blocks@[i], cfg.blocks@[i] as nat));
        assert(stage_config(widths[i]).built(b.res_blocks@[i], cfg.blocks@[i] as nat));
        if i < widths.len() - 1 {
            assert(is_reducer(a.reducing_conv@[i], widths[i], widths[i + 1]));
            assert(is_reducer(b.reducing_conv@[i], widths[i], widths[i + 1]));
        }
        match a.stages_out((k - 1) as nat, x) {
            Ok(y) => {
                lemma_chains_agree(
                    stage_config(widths[i]),
                    cfg.blocks@[i] as nat,
                    a.res_blocks@[i],
                    b.res_blocks@[i],
                    a.res_blocks@[i].blocks@.len(),
                    y,
                );
                assert(a.res_blocks@[i].out_shape(y) == b.res_blocks@[i].out_shape(y));
                assert(a.stage_out(i, y) == b.stage_out(i, y));
            },
            Err(_) => {},
        }
    }
}

/// Networks built from one configuration and one list of stage widths have the same
/// topology whatever their parameters: a network restored from a record and a freshly
/// initialised one give every input the same output shape (or the same error).
pub proof fn lemma_same_build_same_shapes<P, Q>(cfg: ResNetConfig, widths: Seq<usize>, a: ResNet<P>, b: ResNet<Q>, input: Dims4)
    requires
        cfg.builds(a, widths),
        cfg.builds(b, widths),
    ensures
        a.out_shape(input) == b.out_shape(input),
{
    assert(a.conv.out_shape(input) == b.conv.out_shape(input));
    match a.conv.out_shape(input) {
        Ok(s) => {
            assert(a.pool.out_shape(s) == b.pool.out_shape(s));
            lemma_stages_agree(cfg, widths, a, b, widths.len(), a.pool.out_shape(s));
        },
        Err(_) => {},
    }
}

} // verus!
