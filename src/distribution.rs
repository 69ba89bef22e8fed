use vstd::prelude::*;
use crate::scalar::Scalar;

verus! {

/// Why a distribution could not produce a value.
#[derive(Clone, Debug, PartialEq, Eq)]
pub enum StatsError {
    /// An argument lies outside the distribution's domain.
    DomainError(String),
    /// A computation failed.
    ComputationError(String),
}

/// Common interface of probability distributions.
pub trait Distribution<F: Scalar> {
    /// The mean of the distribution.
    fn mean(&self) -> F;

    /// The variance of the distribution.
    fn var(&self) -> F;

    /// The standard deviation of the distribution.
    fn std_dev(&self) -> F;

    /// `size` random samples from the distribution.
    fn rvs(&self, size: usize) -> Result<Vec<F>, StatsError>;

    /// The entropy of the distribution.
    fn entropy(&self) -> F;
}

/// Continuous probability distributions.
///
/// The density and the cumulative distribution are functions of the point: each
/// returns what its `spec_` counterpart gives (outside Verus, define the
/// counterpart as the exec method).
pub trait ContinuousDistribution<F: Scalar>: Distribution<F> {
    spec fn spec_pdf(&self, x: F) -> F;

    spec fn spec_cdf(&self, x: F) -> F;

    /// The probability density at `x`.
    fn pdf(&self, x: F) -> (r: F)
        ensures
            r == self.spec_pdf(x),
    ;

    /// The cumulative distribution at `x`.
    fn cdf(&self, x: F) -> (r: F)
        ensures
            r == self.spec_cdf(x),
    ;

    /// The survival function, `1 - cdf(x)`.
    fn sf(&self, x: F) -> (r: F)
        ensures
            r == F::spec_one().spec_minus(self.spec_cdf(x)),
    {
        F::one().minus(self.cdf(x))
    }

    /// The quantile function: the point at which the cumulative distribution is `p`.
    fn ppf(&self, p: F) -> Result<F, StatsError>;

    /// The inverse survival function, `ppf(1 - p)`.
    fn isf(&self, p: F) -> Result<F, StatsError> {
        self.ppf(F::one().minus(p))
    }

    /// The hazard function `pdf(x) / sf(x)`; infinity where the survival is at
    /// most the machine epsilon.
    fn hazard(&self, x: F) -> (r: F)
        ensures
            ({
                let s = F::spec_one().spec_minus(self.spec_cdf(x));
                r == if s.spec_less_eq(F::spec_machine_epsilon()) {
                    F::spec_infinity()
                } else {
                    self.spec_pdf(x).spec_over(s)
                }
            }),
    {
        let survival = self.sf(x);
        if survival.less_eq(F::machine_epsilon()) {
            F::infinity()
        } else {
            self.pdf(x).over(survival)
        }
    }

    /// The cumulative hazard function, `-ln(sf(x))`.
    fn cumhazard(&self, x: F) -> (r: F)
        ensures
            r == F::spec_one().spec_minus(self.spec_cdf(x)).spec_ln().spec_negate(),
    {
        self.sf(x).ln().negate()
    }
}

/// Probability distributions on the circle, for angles and other periodic data.
pub trait CircularDistribution<F: Scalar>: Distribution<F> {
    /// The probability density at the angle `x`.
    fn pdf(&self, x: F) -> F;

    /// The cumulative distribution at the angle `x`.
    fn cdf(&self, x: F) -> F;

    /// One random angle from the distribution.
    fn rvs_single(&self) -> Result<F, StatsError>;

    /// The mean direction.
    fn circular_mean(&self) -> F;

    /// The circular variance, from 0 (concentrated at a point) to 1 (uniform).
    fn circular_variance(&self) -> F;

    /// The circular standard deviation.
    fn circular_std(&self) -> F;

    /// The mean resultant length, a measure of concentration.
    fn mean_resultant_length(&self) -> F;

    /// The concentration around the mean direction.
    fn concentration(&self) -> F;
}

/// Discrete probability distributions.
///
/// The mass function and the cumulative distribution are functions of the point.
pub trait DiscreteDistribution<F: Scalar>: Distribution<F> {
    spec fn spec_pmf(&self, x: F) -> F;

    spec fn spec_cdf(&self, x: F) -> F;

    /// The probability mass at `x`.
    fn pmf(&self, x: F) -> (r: F)
        ensures
            r == self.spec_pmf(x),
    ;

    /// The cumulative distribution at `x`.
    fn cdf(&self, x: F) -> (r: F)
        ensures
            r == self.spec_cdf(x),
    ;

    /// The survival function, `1 - cdf(x)`.
    fn sf(&self, x: F) -> (r: F)
        ensures
            r == F::spec_one().spec_minus(self.spec_cdf(x)),
    {
        F::one().minus(self.cdf(x))
    }

    /// The quantile function.
    fn ppf(&self, p: F) -> Result<F, StatsError>;

    /// The inverse survival function, `ppf(1 - p)`.
    fn isf(&self, p: F) -> Result<F, StatsError> {
        self.ppf(F::one().minus(p))
    }

    /// The logarithm of the mass function.
    fn logpmf(&self, x: F) -> (r: F)
        ensures
            r == self.spec_pmf(x).spec_ln(),
    {
        self.pmf(x).ln()
    }
}

/// Multivariate probability distributions.
pub trait MultivariateDistribution<F: Scalar>: Distribution<F> {
    spec fn spec_pdf(&self, x: &[F]) -> F;

    /// The probability density at the point `x`.
    fn pdf(&self, x: &[F]) -> (r: F)
        ensures
            r == self.spec_pdf(x),
    ;

    /// The logarithm of the density.
    fn logpdf(&self, x: &[F]) -> (r: F)
        ensures
            r == self.spec_pdf(x).spec_ln(),
    {
        self.pdf(x).ln()
    }

    /// One random point from the distribution.
    fn rvs_single(&self) -> Result<Vec<F>, StatsError>;
}

} // verus!
