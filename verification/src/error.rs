use vstd::prelude::*;

verus! {

/// Errors reported by filter constructors, the engines, and the pipeline
/// composer. Every error is detected synchronously and handed to the
/// immediate caller; no partial output is ever produced.
#[derive(Clone, Copy, Debug, PartialEq, Eq, Structural)]
pub enum FilterError {
    /// A convolution kernel has an even side length.
    InvalidKernel,
    /// The two gradient arrays differ in length.
    LengthMismatch,
    /// Two composed filters disagree on the channel count between them.
    ArityMismatch,
    /// A constructor was given an out-of-range parameter.
    InvalidParameter,
}

} // verus!
