//! What the evaluator asks of its host: rounding arithmetic on numbers and
//! their decimal text.
//!
//! The evaluator is verified for every host whose two functions are
//! functions in the mathematical sense: the same arguments always give the
//! same result.

use vstd::prelude::*;
use crate::number::Number;
use crate::tokenizer::Operator;

verus! {

/// The host's two functions: `arith` computes `a op b` for the operators
/// `Plus`, `Minus`, `Times`, `Div` and `Mod`; `show` gives the text of a
/// number.
pub struct Host<A, S> {
    pub arith: A,
    pub show: S,
}

/// A host, mathematically: its two functions.
pub struct HostModel {
    pub arith: spec_fn(Operator, Number, Number) -> Number,
    pub show: spec_fn(Number) -> Seq<char>,
}

impl<A: Fn(Operator, Number, Number) -> Number, S: Fn(Number) -> String> Host<A, S> {
    /// The host can be called on every argument, and what it returns depends
    /// on the arguments alone.
    pub open spec fn deterministic(&self) -> bool {
        &&& forall|op: Operator, a: Number, b: Number| call_requires(self.arith, (op, a, b))
        &&& forall|op: Operator, a: Number, b: Number, r1: Number, r2: Number|
            call_ensures(self.arith, (op, a, b), r1) && call_ensures(self.arith, (op, a, b), r2)
                ==> r1 == r2
        &&& forall|n: Number| call_requires(self.show, (n,))
        &&& forall|n: Number, s1: String, s2: String|
            call_ensures(self.show, (n,), s1) && call_ensures(self.show, (n,), s2) ==> s1@
                == s2@
    }

    /// The functions that the host computes.
    pub open spec fn model(&self) -> HostModel {
        HostModel {
            arith: |op: Operator, a: Number, b: Number|
                choose|r: Number| call_ensures(self.arith, (op, a, b), r),
            show: |n: Number| (choose|s: String| call_ensures(self.show, (n,), s))@,
        }
    }

    /// Puts the two functions together.
    pub fn new(arith: A, show: S) -> (r: Host<A, S>)
        ensures
            r.arith == arith,
            r.show == show,
    {
        Host { arith, show }
    }

    /// `a op b`, as the host computes it.
    pub fn compute(&self, op: Operator, a: Number, b: Number) -> (r: Number)
        requires
            self.deterministic(),
        ensures
            r == (self.model().arith)(op, a, b),
    {
        (self.arith)(op, a, b)
    }

    /// The text of a number, as the host writes it.
    pub fn format(&self, n: Number) -> (r: String)
        requires
            self.deterministic(),
        ensures
            r@ == (self.model().show)(n),
    {
        (self.show)(n)
    }
}

} // verus!
