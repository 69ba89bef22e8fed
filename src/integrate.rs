use vstd::prelude::*;

verus! {

/// Errors of numerical integration routines, each with a description.
#[derive(Clone, Debug, PartialEq, Eq)]
pub enum IntegrateError {
    /// A computation failed.
    ComputationError(String),
    /// An algorithm did not converge.
    ConvergenceError(String),
    /// An argument had an invalid value.
    ValueError(String),
    /// The requested method is not implemented.
    NotImplementedError(String),
    /// A linear system could not be solved.
    LinearSolveError(String),
    /// Dimensions did not match.
    DimensionMismatch(String),
    /// Switching between methods failed.
    MethodSwitchingError(String),
    /// The step size fell below its minimum.
    StepSizeTooSmall(String),
}

impl IntegrateError {
    /// The description that the error carries.
    pub open spec fn detail_of(&self) -> Seq<char> {
        match self {
            IntegrateError::ComputationError(m) => m@,
            IntegrateError::ConvergenceError(m) => m@,
            IntegrateError::ValueError(m) => m@,
            IntegrateError::NotImplementedError(m) => m@,
            IntegrateError::LinearSolveError(m) => m@,
            IntegrateError::DimensionMismatch(m) => m@,
            IntegrateError::MethodSwitchingError(m) => m@,
            IntegrateError::StepSizeTooSmall(m) => m@,
        }
    }

    /// The words that introduce the error's description in its message.
    pub open spec fn label_of(&self) -> Seq<char> {
        match self {
            IntegrateError::ComputationError(_) => "Computation error: "@,
            IntegrateError::ConvergenceError(_) => "Convergence error: "@,
            IntegrateError::ValueError(_) => "Value error: "@,
            IntegrateError::NotImplementedError(_) => "Not implemented: "@,
            IntegrateError::LinearSolveError(_) => "Linear solve error: "@,
            IntegrateError::DimensionMismatch(_) => "Dimension mismatch: "@,
            IntegrateError::MethodSwitchingError(_) => "Method switching error: "@,
            IntegrateError::StepSizeTooSmall(_) => "Step size too small: "@,
        }
    }

    /// The error's message: its label followed by its description.
    pub fn message(&self) -> (r: String)
        ensures
            r@ == self.label_of() + self.detail_of(),
    {
        let (label, detail) = match self {
            IntegrateError::ComputationError(m) => ("Computation error: ", m),
            IntegrateError::ConvergenceError(m) => ("Convergence error: ", m),
            IntegrateError::ValueError(m) => ("Value error: ", m),
            IntegrateError::NotImplementedError(m) => ("Not implemented: ", m),
            IntegrateError::LinearSolveError(m) => ("Linear solve error: ", m),
            IntegrateError::DimensionMismatch(m) => ("Dimension mismatch: ", m),
            IntegrateError::MethodSwitchingError(m) => ("Method switching error: ", m),
            IntegrateError::StepSizeTooSmall(m) => ("Step size too small: ", m),
        };
        String::from_str(label).concat(detail.as_str())
    }
}

} // verus!
