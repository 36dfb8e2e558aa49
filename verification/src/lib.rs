//! Canny-style edge detection over flat, row-major byte buffers.
//!
//! The pipeline is six pure stages chained over a single-channel intensity
//! buffer: luma reduction, separable Gaussian smoothing, a Sobel gradient
//! operator, non-maximum suppression, double thresholding, and hysteresis
//! linking. Every stage works on plain `Vec<u8>` data plus shape scalars
//! (width, and where needed a per-pixel byte stride); decoding, encoding and
//! display of image containers are left to the caller.
//!
//! All arithmetic is integer arithmetic. Where the textbook formulation of a
//! stage uses real numbers, the stage works over exact rationals instead:
//! the luma weights as integer per-mille coefficients, the Gaussian kernel
//! as fixed-point weights rounded once from the normalized density and
//! summing exactly to the fixed-point scale, the gradient magnitude as an
//! integer ceiling square root, and the direction bands as squared-tangent
//! inequalities decided exactly on integers.

pub mod gradient;
pub mod hysteresis;
pub mod luma;
pub mod pipeline;
pub mod smooth;
pub mod suppress;
pub mod threshold;
