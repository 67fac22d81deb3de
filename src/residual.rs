//! The residual block: a chain of channel-preserving convolution blocks whose output
//! is added to the block's input.
use crate::conv::{ConvBlock, ConvBlockConfig, ConvBlockRecord};
use crate::layers::{Dims4, Fresh, ShapeError};
use vstd::prelude::*;

verus! {

/// Configuration of a [`ResBlock`]: channel count of every inner block, and their kernel.
#[derive(Clone, Copy, Debug)]
pub struct ResBlockConfig {
    pub channel: usize,
    pub kernel: [usize; 2],
}

/// Checkpointed parameters of a [`ResBlock`], one record per convolution block of the
/// chain, in order.
pub struct ResBlockRecord<P> {
    pub blocks: Vec<ConvBlockRecord<P>>,
}

/// A chain of convolution blocks wrapped in an identity skip connection.
pub struct ResBlock<P> {
    pub blocks: Vec<ConvBlock<P>>,
}

/// Number of convolution blocks in a residual block of depth `depth`: one less than the
/// depth, and none for depth zero or one.
pub open spec fn spec_conv_block_count(depth: nat) -> nat {
    if depth >= 1 { (depth - 1) as nat } else { 0 }
}

/// Number of convolution blocks that a residual block of depth `depth` holds.
pub fn conv_block_count(depth: usize) -> (r: usize)
    ensures
        r == spec_conv_block_count(depth as nat),
{
    if depth >= 1 { depth - 1 } else { 0 }
}

impl ResBlockConfig {
    pub fn new(channel: usize, kernel: [usize; 2]) -> (r: Self)
        ensures
            r.channel == channel,
            r.kernel == kernel,
    {
        ResBlockConfig { channel, kernel }
    }

    /// The configuration shared by every inner block: `channel -> channel`.
    pub fn block_config(&self) -> (r: ConvBlockConfig)
        ensures
            r.channels[0] == self.channel,
            r.channels[1] == self.channel,
            r.kernel == self.kernel,
    {
        let r = ConvBlockConfig::new([self.channel, self.channel], self.kernel);
        assert(r.channels[0] == self.channel && r.channels[1] == self.channel);
        r
    }

    /// What every block built from this configuration satisfies.
    pub open spec fn built<P>(&self, r: ResBlock<P>, depth: nat) -> bool {
        &&& r.wf()
        &&& r.blocks@.len() == spec_conv_block_count(depth)
        &&& forall|i: int| 0 <= i < r.blocks@.len() ==> (#[trigger] r.blocks@[i]).conv.channels[0] == self.channel
            && r.blocks@[i].conv.channels[1] == self.channel
            && r.blocks@[i].conv.kernel == self.kernel
    }

    /// Builds a residual block of depth `num_blocks`, that is `num_blocks - 1`
    /// default-initialised convolution blocks.
    pub fn init(&self, num_blocks: usize) -> (r: ResBlock<Fresh>)
        ensures
            self.built(r, num_blocks as nat),
    {
        let cfg = self.block_config();
        let mut blocks: Vec<ConvBlock<Fresh>> = Vec::new();
        let mut n: usize = 1;
        while n < num_blocks
            invariant
                1 <= n,
                n <= num_blocks || n == 1,
                blocks@.len() == n - 1,
                cfg.channels[0] == self.channel,
                cfg.channels[1] == self.channel,
                cfg.kernel == self.kernel,
                forall|i: int| 0 <= i < blocks@.len() ==> (#[trigger] blocks@[i]).wf()
                    && blocks@[i].conv.channels[0] == self.channel
                    && blocks@[i].conv.channels[1] == self.channel
                    && blocks@[i].conv.kernel == self.kernel,
            decreases num_blocks - n,
        {
            blocks.push(cfg.init());
            n = n + 1;
        }
        ResBlock { blocks }
    }

    /// Builds a residual block of depth `num_blocks` whose `i`-th convolution block
    /// takes its parameters from `record.blocks[i]`.
    pub fn init_with<P>(&self, num_blocks: usize, record: ResBlockRecord<P>) -> (r: ResBlock<P>)
        requires
            record.blocks@.len() >= spec_conv_block_count(num_blocks as nat),
        ensures
            self.built(r, num_blocks as nat),
            forall|i: int| 0 <= i < r.blocks@.len() ==> i < record.blocks@.len()
                && (#[trigger] r.blocks@[i]).conv.params == record.blocks@[i].conv,
    {
        let cfg = self.block_config();
        let mut blocks: Vec<ConvBlock<P>> = Vec::new();
        let mut rest = record.blocks;
        let mut n: usize = 1;
        while n < num_blocks
            invariant
                1 <= n,
                n <= num_blocks || n == 1,
                rest@ == record.blocks@.subrange(n - 1, record.blocks@.len() as int),
                record.blocks@.len() >= spec_conv_block_count(num_blocks as nat),
                blocks@.len() == n - 1,
                cfg.channels[0] == self.channel,
                cfg.channels[1] == self.channel,
                cfg.kernel == self.kernel,
                forall|i: int| 0 <= i < blocks@.len() ==> (#[trigger] blocks@[i]).wf()
                    && blocks@[i].conv.channels[0] == self.channel
                    && blocks@[i].conv.channels[1] == self.channel
                    && blocks@[i].conv.kernel == self.kernel
                    && blocks@[i].conv.params == record.blocks@[i].conv,
            decreases num_blocks - n,
        {
            let next = rest.remove(0);
            blocks.push(cfg.init_with(next));
            n = n + 1;
        }
        ResBlock { blocks }
    }
}

impl<P> ResBlock<P> {
    /// Every inner block is well formed.
    pub open spec fn wf(&self) -> bool {
        forall|i: int| 0 <= i < self.blocks@.len() ==> (#[trigger] self.blocks@[i]).wf()
    }

    /// Shape after the first `k` blocks of the chain, starting from `x`.
    pub open spec fn chain_out(&self, k: nat, x: Dims4) -> Result<Dims4, ShapeError>
        decreases k,
    {
        if k == 0 {
            Ok(x)
        } else {
            match self.chain_out((k - 1) as nat, x) {
                Ok(y) => self.blocks@[k - 1].out_shape(y),
                Err(e) => Err(e),
            }
        }
    }

    /// Output shape for `input`: the chain runs in order, then its result is added to
    /// `input`, which needs the two shapes equal.
    pub open spec fn out_shape(&self, input: Dims4) -> Result<Dims4, ShapeError> {
        match self.chain_out(self.blocks@.len(), input) {
            Ok(y) => if y == input {
                Ok(input)
            } else {
                Err(ShapeError::ResidualMismatch { expected: input, found: y })
            },
            Err(e) => Err(e),
        }
    }

    /// Once a block of the chain fails, the chain fails the same way.
    pub proof fn lemma_chain_err_persists(&self, k: nat, m: nat, x: Dims4)
        requires
            k <= m,
            self.chain_out(k, x) is Err,
        ensures
            self.chain_out(m, x) == self.chain_out(k, x),
        decreases m - k,
    {
        if m > k {
            self.lemma_chain_err_persists(k, (m - 1) as nat, x);
        }
    }

    /// Number of convolution blocks in the chain.
    pub fn num_conv_blocks(&self) -> (r: usize)
        ensures
            r == self.blocks@.len(),
    {
        self.blocks.len()
    }

    /// Shape of this block's output for an input of shape `input`.
    pub fn forward_shape(&self, input: Dims4) -> (r: Result<Dims4, ShapeError>)
        requires
            self.wf(),
        ensures
            r == self.out_shape(input),
    {
        let mut x = input;
        let mut i: usize = 0;
        while i < self.blocks.len()
            invariant
                self.wf(),
                i <= self.blocks@.len(),
                self.chain_out(i as nat, input) == Ok::<Dims4, ShapeError>(x),
            decreases self.blocks@.len() - i,
        {
            x = match self.blocks[i].forward_shape(x) {
                Ok(y) => y,
                Err(e) => {
                    proof {
                        assert(self.chain_out((i + 1) as nat, input) == Err::<Dims4, ShapeError>(e));
                        self.lemma_chain_err_persists((i + 1) as nat, self.blocks@.len(), input);
                    }
                    return Err(e);
                },
            };
            i = i + 1;
        }
        if x == input {
            Ok(input)
        } else {
            Err(ShapeError::ResidualMismatch { expected: input, found: x })
        }
    }
}

proof fn lemma_chain_keeps_shape<P>(cfg: ResBlockConfig, depth: nat, block: ResBlock<P>, k: nat, input: Dims4)
    requires
        cfg.built(block, depth),
        cfg.kernel[0] % 2 == 1,
        cfg.kernel[1] % 2 == 1,
        k <= block.blocks@.len(),
        k == 0 || input.channels == cfg.channel,
    ensures
        block.chain_out(k, input) == Ok::<Dims4, ShapeError>(input),
    decreases k,
{
    if k > 0 {
        lemma_chain_keeps_shape(cfg, depth, block, (k - 1) as nat, input);
        let b = block.blocks@[k - 1];
        assert(b.wf());
        assert(b.conv.channels[0] == cfg.channel && b.conv.channels[1] == cfg.channel);
        assert(b.out_shape(input) == Ok::<Dims4, ShapeError>(input));
    }
}

/// Two residual blocks built from one configuration and depth give every input the
/// same chain of shapes, whatever their parameters.
pub proof fn lemma_chains_agree<P, Q>(cfg: ResBlockConfig, depth: nat, a: ResBlock<P>, b: ResBlock<Q>, k: nat, x: Dims4)
    requires
        cfg.built(a, depth),
        cfg.built(b, depth),
        k <= a.blocks@.len(),
    ensures
        a.chain_out(k, x) == b.chain_out(k, x),
    decreases k,
{
    if k > 0 {
        lemma_chains_agree(cfg, depth, a, b, (k - 1) as nat, x);
        let i = k - 1;
        assert(a.blocks@[i].wf() && b.blocks@[i].wf());
        assert(a.blocks@[i].conv.kernel == b.blocks@[i].conv.kernel);
        match a.chain_out((k - 1) as nat, x) {
            Ok(y) => {
                assert(a.blocks@[i].out_shape(y) == b.blocks@[i].out_shape(y));
            },
            Err(_) => {},
        }
    }
}

/// A residual block of depth two or more whose kernel sides are odd gives an output of
/// exactly its input's shape for every input with the configured channel count. A
/// block of depth zero or one holds no convolution and keeps every input's shape (its
/// values, the input added to itself, are tensor arithmetic that this library does
/// not model).
pub proof fn lemma_res_block_keeps_shape<P>(cfg: ResBlockConfig, depth: nat, block: ResBlock<P>, input: Dims4)
    requires
        cfg.built(block, depth),
        depth <= 1 || (input.channels == cfg.channel && cfg.kernel[0] % 2 == 1 && cfg.kernel[1] % 2 == 1),
    ensures
        block.out_shape(input) == Ok::<Dims4, ShapeError>(input),
{
    if depth >= 2 {
        lemma_chain_keeps_shape(cfg, depth, block, block.blocks@.len(), input);
    }
}

} // verus!
