//! The convolution block: convolution with same padding, batch normalisation over
//! the channels, then a rectifier.
use crate::layers::{BatchNorm, Conv2d, Dims4, Fresh, Padding, Relu, ShapeError};
use vstd::prelude::*;

verus! {

/// Configuration of a [`ConvBlock`]: input and output channels, kernel height and width.
#[derive(Clone, Copy, Debug)]
pub struct ConvBlockConfig {
    pub channels: [usize; 2],
    pub kernel: [usize; 2],
}

/// Parameters of a [`ConvBlock`] that a checkpoint restores: the convolution's only.
pub struct ConvBlockRecord<P> {
    pub conv: P,
}

/// One convolution, one batch normalisation and one activation. The convolution's
/// parameters are of type `P`; the normalisation always starts from its defaults.
pub struct ConvBlock<P> {
    pub conv: Conv2d<P>,
    pub batchnorm: BatchNorm,
    pub activation: Relu,
}

impl ConvBlockConfig {
    pub fn new(channels: [usize; 2], kernel: [usize; 2]) -> (r: Self)
        ensures
            r.channels == channels,
            r.kernel == kernel,
    {
        ConvBlockConfig { channels, kernel }
    }

    /// Builds a block with default-initialised parameters.
    pub fn init(&self) -> (r: ConvBlock<Fresh>)
        ensures
            r.wf(),
            r.conv.channels == self.channels,
            r.conv.kernel == self.kernel,
    {
        self.init_with(ConvBlockRecord { conv: Fresh })
    }

    /// Builds a block whose convolution takes its parameters from `record`; the
    /// normalisation is initialised afresh.
    pub fn init_with<P>(&self, record: ConvBlockRecord<P>) -> (r: ConvBlock<P>)
        ensures
            r.wf(),
            r.conv.channels == self.channels,
            r.conv.kernel == self.kernel,
            r.conv.params == record.conv,
    {
        ConvBlock {
            conv: Conv2d::same(self.channels, self.kernel, record.conv),
            batchnorm: BatchNorm { num_features: self.channels[1] },
            activation: Relu,
        }
    }
}

impl<P> ConvBlock<P> {
    /// The convolution keeps height and width, and the normalisation covers its output channels.
    pub open spec fn wf(&self) -> bool {
        &&& self.conv.wf()
        &&& self.conv.padding == Padding::Same
        &&& self.batchnorm.num_features == self.conv.channels[1]
    }

    /// Output shape for `input`: that of the convolution, since the normalisation and
    /// the rectifier keep the shape.
    pub open spec fn out_shape(&self, input: Dims4) -> Result<Dims4, ShapeError> {
        self.conv.out_shape(input)
    }

    /// Shape of this block's output for an input of shape `input`.
    pub fn forward_shape(&self, input: Dims4) -> (r: Result<Dims4, ShapeError>)
        requires
            self.wf(),
        ensures
            r == self.out_shape(input),
    {
        self.conv.forward_shape(input)
    }
}

/// A block whose kernel sides are odd maps an input with `channels[0]` channels to an
/// output with `channels[1]` channels and the input's batch, height and width.
pub proof fn lemma_conv_block_same_padding<P>(cfg: ConvBlockConfig, block: ConvBlock<P>, input: Dims4)
    requires
        block.wf(),
        block.conv.channels == cfg.channels,
        block.conv.kernel == cfg.kernel,
        cfg.kernel[0] % 2 == 1,
        cfg.kernel[1] % 2 == 1,
        input.channels == cfg.channels[0],
    ensures
        block.out_shape(input) == Ok::<Dims4, ShapeError>(Dims4 { channels: cfg.channels[1], ..input }),
{
}

} // verus!
