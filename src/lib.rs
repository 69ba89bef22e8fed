//! A reverse-mode automatic-differentiation engine over two-dimensional tensors.
//!
//! A [`Context`] records operations as an append-only table of nodes, each
//! operand made before its consumer. [`run`] computes the values that a set of
//! targets needs, each node once, in increasing id order; [`gradients`] walks the
//! same table in decreasing id order and sums the chain rule into a
//! [`GradientMap`]. Parameters live in a [`VariableEnvironment`] that outlives the
//! contexts built against it.
//!
//! The element type is any [`Scalar`]; the library states its results exactly in
//! terms of the scalar operations.
pub mod scalar;
pub mod shape;
pub mod error;
pub mod tensor;
pub mod env;
pub mod graph;
pub mod feed;
pub mod ops;
pub mod eval;
pub mod grad;
pub mod laws;
pub mod models;
pub mod integrate;
pub mod distribution;
pub mod signal;
pub mod report;

pub use scalar::Scalar;
pub use shape::{Axis, Shape};
pub use error::{GraphError, OpKind};
pub use tensor::Matrix;
pub use env::VariableEnvironment;
pub use graph::{Context, Node, NodeId, Op};
pub use feed::Feeder;
pub use eval::{evaluate, plan, run, Evaluation};
pub use grad::{GradientMap, gradients, gradients_with_seed};
pub use models::{AttentionType, PlotOptions, RNNCellType, SchemaRegistry};
pub use integrate::IntegrateError;
pub use distribution::{
    CircularDistribution,
    ContinuousDistribution,
    DiscreteDistribution,
    Distribution,
    MultivariateDistribution,
    StatsError,
};
pub use signal::{extend_signal, parse_mode, ExtensionMode, SignalError};
pub use report::EvaluationReport;
