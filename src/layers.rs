//! Primitive layers as seen by the network's wiring: what each one owns and how it
//! maps the shape of its input tensor to the shape of its output.
use vstd::arithmetic::div_mod::lemma_div_basics_5;
use vstd::prelude::*;

verus! {

/// Shape of a 4-dimensional image tensor: (batch, channels, height, width).
#[derive(Clone, Copy, Debug, PartialEq, Eq, Structural)]
pub struct Dims4 {
    pub batch: usize,
    pub channels: usize,
    pub height: usize,
    pub width: usize,
}

/// Shape of a 2-dimensional tensor: (batch, features).
#[derive(Clone, Copy, Debug, PartialEq, Eq, Structural)]
pub struct Dims2 {
    pub batch: usize,
    pub features: usize,
}

/// Why a tensor of a given shape cannot go through a layer.
#[derive(Clone, Copy, Debug, PartialEq, Eq, Structural)]
pub enum ShapeError {
    /// A convolution expected `expected` input channels and received `found`.
    ChannelMismatch { expected: usize, found: usize },
    /// A convolution's kernel side is zero, longer than the unpadded input, or gives
    /// an output side that does not fit in a `usize`.
    BadKernel { kernel: usize, extent: usize },
    /// The two operands of a residual addition differ in shape.
    ResidualMismatch { expected: Dims4, found: Dims4 },
    /// A linear layer expected `expected` input features and received `found`.
    FeatureMismatch { expected: usize, found: usize },
    /// Flattening would give more features than a `usize` holds.
    FeatureOverflow,
}

/// Marker for parameters that the tensor library initialises with its defaults.
#[derive(Clone, Copy, Debug, PartialEq, Eq, Structural)]
pub struct Fresh;

/// Spatial padding of a convolution.
#[derive(Clone, Copy, Debug, PartialEq, Eq, Structural)]
pub enum Padding {
    /// Padded with `(kernel - 1) / 2` rounded up on each side (stride one): an odd
    /// kernel keeps the input's height and width.
    Same,
    /// No padding.
    Valid,
}

/// Output extent of a convolution along one spatial axis, if the kernel fits. Same
/// padding adds `(kernel - 1) / 2` rounded up on each side, which keeps the extent for
/// an odd kernel and adds one for an even kernel.
pub open spec fn conv_extent(extent: nat, kernel: nat, stride: nat, padding: Padding) -> Option<nat> {
    match padding {
        Padding::Same => if kernel >= 1 && (kernel % 2 == 1 || extent < usize::MAX) {
            Some(if kernel % 2 == 0 { extent + 1 } else { extent })
        } else {
            None
        },
        Padding::Valid => if 1 <= kernel <= extent && stride >= 1 {
            Some((extent - kernel) as nat / stride + 1)
        } else {
            None
        },
    }
}

/// A 2-dimensional convolution; `params` holds its checkpointable weights and bias.
pub struct Conv2d<P> {
    pub channels: [usize; 2],
    pub kernel: [usize; 2],
    pub stride: [usize; 2],
    pub padding: Padding,
    pub params: P,
}

impl<P> Conv2d<P> {
    /// Same padding goes with stride one, and every stride is at least one.
    pub open spec fn wf(&self) -> bool {
        &&& self.stride[0] >= 1
        &&& self.stride[1] >= 1
        &&& self.padding == Padding::Same ==> self.stride[0] == 1 && self.stride[1] == 1
    }

    /// Shape produced from `input`, or why `input` does not fit.
    pub open spec fn out_shape(&self, input: Dims4) -> Result<Dims4, ShapeError> {
        let h = conv_extent(input.height as nat, self.kernel[0] as nat, self.stride[0] as nat, self.padding);
        let w = conv_extent(input.width as nat, self.kernel[1] as nat, self.stride[1] as nat, self.padding);
        if input.channels != self.channels[0] {
            Err(ShapeError::ChannelMismatch { expected: self.channels[0], found: input.channels })
        } else if h is None {
            Err(ShapeError::BadKernel { kernel: self.kernel[0], extent: input.height })
        } else if w is None {
            Err(ShapeError::BadKernel { kernel: self.kernel[1], extent: input.width })
        } else {
            Ok(Dims4 {
                batch: input.batch,
                channels: self.channels[1],
                height: h->0 as usize,
                width: w->0 as usize,
            })
        }
    }

    /// A stride-one convolution padded to keep height and width.
    pub fn same(channels: [usize; 2], kernel: [usize; 2], params: P) -> (r: Self)
        ensures
            r.wf(),
            r.channels == channels,
            r.kernel == kernel,
            r.padding == Padding::Same,
            r.params == params,
    {
        Conv2d { channels, kernel, stride: [1, 1], padding: Padding::Same, params }
    }

    /// An unpadded convolution with the given stride.
    pub fn valid(channels: [usize; 2], kernel: [usize; 2], stride: [usize; 2], params: P) -> (r: Self)
        requires
            stride[0] >= 1,
            stride[1] >= 1,
        ensures
            r.wf(),
            r.channels == channels,
            r.kernel == kernel,
            r.stride == stride,
            r.padding == Padding::Valid,
            r.params == params,
    {
        Conv2d { channels, kernel, stride, padding: Padding::Valid, params }
    }

    fn extent(&self, extent: usize, axis: usize) -> (r: Option<usize>)
        requires
            self.wf(),
            axis < 2,
        ensures
            r matches Some(v) ==> conv_extent(extent as nat, self.kernel[axis as int] as nat,
                self.stride[axis as int] as nat, self.padding) == Some(v as nat),
            r is None ==> conv_extent(extent as nat, self.kernel[axis as int] as nat,
                self.stride[axis as int] as nat, self.padding) is None,
    {
        let k = self.kernel[axis];
        let s = self.stride[axis];
        match self.padding {
            Padding::Same => {
                if k == 0 {
                    None
                } else if k % 2 == 1 {
                    Some(extent)
                } else if extent < usize::MAX {
                    Some(extent + 1)
                } else {
                    None
                }
            },
            Padding::Valid => {
                if 1 <= k && k <= extent {
                    let q = (extent - k) / s;
                    proof {
                        lemma_div_basics_5((extent - k) as int, s as int);
                    }
                    Some(q + 1)
                } else {
                    None
                }
            },
        }
    }

    /// Shape of this convolution's output for an input of shape `input`.
    pub fn forward_shape(&self, input: Dims4) -> (r: Result<Dims4, ShapeError>)
        requires
            self.wf(),
        ensures
            r == self.out_shape(input),
    {
        if input.channels != self.channels[0] {
            return Err(ShapeError::ChannelMismatch { expected: self.channels[0], found: input.channels });
        }
        let h = self.extent(input.height, 0);
        let w = self.extent(input.width, 1);
        match (h, w) {
            (Some(h), Some(w)) => Ok(Dims4 { batch: input.batch, channels: self.channels[1], height: h, width: w }),
            (None, _) => Err(ShapeError::BadKernel { kernel: self.kernel[0], extent: input.height }),
            (_, None) => Err(ShapeError::BadKernel { kernel: self.kernel[1], extent: input.width }),
        }
    }
}

/// Batch normalisation over the channel axis; its running statistics are never
/// taken from a record, so it carries no parameter payload.
#[derive(Clone, Copy, Debug, PartialEq, Eq, Structural)]
pub struct BatchNorm {
    pub num_features: usize,
}

/// Rectified linear activation (stateless).
#[derive(Clone, Copy, Debug, PartialEq, Eq, Structural)]
pub struct Relu;

/// Adaptive average pooling to a fixed spatial size.
#[derive(Clone, Copy, Debug)]
pub struct AdaptiveAvgPool2d {
    pub output_size: [usize; 2],
}

impl AdaptiveAvgPool2d {
    /// Shape of the pooled output: channels kept, height and width set to `output_size`.
    pub open spec fn out_shape(&self, input: Dims4) -> Dims4 {
        Dims4 { batch: input.batch, channels: input.channels, height: self.output_size[0], width: self.output_size[1] }
    }

    /// Shape of this layer's output for an input of shape `input`.
    pub fn forward_shape(&self, input: Dims4) -> (r: Dims4)
        ensures
            r == self.out_shape(input),
    {
        Dims4 { batch: input.batch, channels: input.channels, height: self.output_size[0], width: self.output_size[1] }
    }
}

/// A fully connected layer; `params` holds its checkpointable weights and bias.
pub struct Linear<P> {
    pub in_features: usize,
    pub out_features: usize,
    pub params: P,
}

impl<P> Linear<P> {
    /// Shape produced from `input`, or why `input` does not fit.
    pub open spec fn out_shape(&self, input: Dims2) -> Result<Dims2, ShapeError> {
        if input.features != self.in_features {
            Err(ShapeError::FeatureMismatch { expected: self.in_features, found: input.features })
        } else {
            Ok(Dims2 { batch: input.batch, features: self.out_features })
        }
    }

    /// Shape of this layer's output for an input of shape `input`.
    pub fn forward_shape(&self, input: Dims2) -> (r: Result<Dims2, ShapeError>)
        ensures
            r == self.out_shape(input),
    {
        if input.features != self.in_features {
            Err(ShapeError::FeatureMismatch { expected: self.in_features, found: input.features })
        } else {
            Ok(Dims2 { batch: input.batch, features: self.out_features })
        }
    }
}

} // verus!
