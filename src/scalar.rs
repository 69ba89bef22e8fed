use vstd::prelude::*;

verus! {

/// The element type that tensors hold.
///
/// Every operation is a function of its operands: each exec method returns what
/// its spec counterpart gives, so equal operands give equal results. Nothing more
/// is required of the arithmetic (it need not be associative, as with floating
/// point). An implementation outside Verus defines each `spec_` method as the
/// matching exec method.
pub trait Scalar: Sized + Copy {
    spec fn spec_zero() -> Self;

    spec fn spec_one() -> Self;

    /// Smallest operand that the clamped logarithm passes through unchanged.
    spec fn spec_epsilon() -> Self;

    spec fn spec_infinity() -> Self;

    /// The gap between one and the next representable value above it.
    spec fn spec_machine_epsilon() -> Self;

    spec fn spec_from_count(n: usize) -> Self;

    spec fn spec_plus(self, o: Self) -> Self;

    spec fn spec_minus(self, o: Self) -> Self;

    spec fn spec_times(self, o: Self) -> Self;

    spec fn spec_over(self, o: Self) -> Self;

    spec fn spec_negate(self) -> Self;

    spec fn spec_ln(self) -> Self;

    spec fn spec_sigmoid(self) -> Self;

    spec fn spec_less(self, o: Self) -> bool;

    spec fn spec_less_eq(self, o: Self) -> bool;

    fn zero() -> (r: Self)
        ensures
            r == Self::spec_zero(),
    ;

    fn one() -> (r: Self)
        ensures
            r == Self::spec_one(),
    ;

    fn epsilon() -> (r: Self)
        ensures
            r == Self::spec_epsilon(),
    ;

    fn infinity() -> (r: Self)
        ensures
            r == Self::spec_infinity(),
    ;

    fn machine_epsilon() -> (r: Self)
        ensures
            r == Self::spec_machine_epsilon(),
    ;

    fn from_count(n: usize) -> (r: Self)
        ensures
            r == Self::spec_from_count(n),
    ;

    fn plus(self, o: Self) -> (r: Self)
        ensures
            r == self.spec_plus(o),
    ;

    fn minus(self, o: Self) -> (r: Self)
        ensures
            r == self.spec_minus(o),
    ;

    fn times(self, o: Self) -> (r: Self)
        ensures
            r == self.spec_times(o),
    ;

    fn over(self, o: Self) -> (r: Self)
        ensures
            r == self.spec_over(o),
    ;

    fn negate(self) -> (r: Self)
        ensures
            r == self.spec_negate(),
    ;

    fn ln(self) -> (r: Self)
        ensures
            r == self.spec_ln(),
    ;

    fn sigmoid(self) -> (r: Self)
        ensures
            r == self.spec_sigmoid(),
    ;

    fn less(self, o: Self) -> (r: bool)
        ensures
            r == self.spec_less(o),
    ;

    fn less_eq(self, o: Self) -> (r: bool)
        ensures
            r == self.spec_less_eq(o),
    ;
}

} // verus!
