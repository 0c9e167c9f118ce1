use vstd::prelude::*;

verus! {

/// A split name that is none of `train`, `val`, `valid` or `test`.
#[derive(Clone, Copy, Debug, PartialEq, Eq, Structural)]
pub enum ConfigError {
    UnknownSplit,
}

/// An image of the split could not be had.
#[derive(Clone, Copy, Debug, PartialEq, Eq, Structural)]
pub enum ImageLoadError {
    /// The image of this frame index is missing or could not be decoded.
    Missing { index: usize },
}

/// A width or a length that does not fit what the consumer expects.
#[derive(Clone, Copy, Debug, PartialEq, Eq, Structural)]
pub enum ShapeError {
    /// The network input has `found` columns where `expected` are needed.
    InputWidth { expected: usize, found: usize },
    /// A layer width does not fit in a machine word.
    WidthOverflow,
}

/// Why a set of decoded frames cannot become a particle dataset.
#[derive(Clone, Copy, Debug, PartialEq, Eq, Structural)]
pub enum DatasetError {
    /// The split holds no frame.
    NoFrames,
    /// The first frame has a zero width or height.
    EmptyImage,
    /// This frame's size differs from that of the first frame.
    SizeMismatch { frame: usize },
    /// This frame's pixel buffer is not three bytes per pixel.
    PixelBuffer { frame: usize },
    /// This frame does not hold one sample per ray and sample index.
    SampleCount { frame: usize },
}

} // verus!
