//! Typed, functional-style composition utilities for filters.
//!
//! A pipeline chains filters end-to-end: the first filter's output feeds
//! the second filter's input. Composition checks that the channel
//! arities agree and otherwise reports `ArityMismatch`.

use crate::error::FilterError;
use crate::filters::Filter;
use crate::raster::{Img, Raster};
use vstd::prelude::*;

verus! {

/// A pipeline wrapping a single filter `F`.
pub struct Pipeline<F: Filter> {
    /// The wrapped filter.
    pub f: F,
}

impl<F: Filter> Pipeline<F> {
    /// Wraps a single filter into a pipeline.
    pub fn new(f: F) -> (p: Pipeline<F>)
        ensures
            p == (Pipeline { f }),
    {
        Pipeline { f }
    }

    /// Applies the pipeline to `input`, producing a fresh raster exactly
    /// as the wrapped filter's `spec_apply` describes.
    pub fn apply(&self, input: &Raster) -> (out: Raster)
        requires
            self.f.valid(),
            input.wf(),
            input@.channels == self.f.in_arity(),
        ensures
            out.wf(),
            out@ == self.f.spec_apply(input@),
            out@.channels == self.f.out_arity(),
            out@.width == input@.width,
            out@.height == input@.height,
    {
        self.f.apply(input)
    }

    /// Composes this pipeline with a further filter, producing a longer
    /// pipeline. Fails with `ArityMismatch` exactly when the wrapped
    /// filter's output arity differs from `g`'s input arity.
    pub fn then<G: Filter>(self, g: G) -> (r: Result<Pipeline<Compose<F, G>>, FilterError>)
        ensures
            match r {
                Ok(p) => {
                    &&& self.f.out_arity() == g.in_arity()
                    &&& p == (Pipeline { f: (Compose { a: self.f, b: g }) })
                },
                Err(e) => {
                    &&& e == FilterError::ArityMismatch
                    &&& self.f.out_arity() != g.in_arity()
                },
            },
    {
        if self.f.output_arity() == g.input_arity() {
            Ok(Pipeline { f: Compose { a: self.f, b: g } })
        } else {
            Err(FilterError::ArityMismatch)
        }
    }
}

/// Two filters composed end-to-end: the output of `a` feeds `b`.
pub struct Compose<A: Filter, B: Filter> {
    /// The first stage.
    pub a: A,
    /// The second stage.
    pub b: B,
}

impl<A: Filter, B: Filter> Filter for Compose<A, B> {
    open spec fn in_arity(&self) -> int {
        self.a.in_arity()
    }

    open spec fn out_arity(&self) -> int {
        self.b.out_arity()
    }

    open spec fn valid(&self) -> bool {
        self.a.valid() && self.b.valid() && self.a.out_arity() == self.b.in_arity()
    }

    open spec fn spec_apply(&self, input: Img) -> Img {
        self.b.spec_apply(self.a.spec_apply(input))
    }

    fn input_arity(&self) -> u8 {
        self.a.input_arity()
    }

    fn output_arity(&self) -> u8 {
        self.b.output_arity()
    }

    fn apply(&self, input: &Raster) -> Raster {
        let mid = self.a.apply(input);
        self.b.apply(&mid)
    }
}

/// Composition is associative: nesting the composition of three filters
/// either way realises the same input-to-output mapping, and either
/// nesting is valid exactly when the other is.
pub proof fn lemma_compose_associative<A: Filter, B: Filter, C: Filter>(
    a: A,
    b: B,
    c: C,
    input: Img,
)
    ensures
        (Compose { a: (Compose { a, b }), b: c }).spec_apply(input) == (Compose {
            a,
            b: (Compose { a: b, b: c }),
        }).spec_apply(input),
        (Compose { a: (Compose { a, b }), b: c }).valid() <==> (Compose {
            a,
            b: (Compose { a: b, b: c }),
        }).valid(),
{
}

} // verus!
