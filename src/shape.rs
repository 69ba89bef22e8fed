use vstd::prelude::*;
use crate::error::{GraphError, OpKind};

verus! {

/// The shape of a two-dimensional tensor; a scalar is a 1 x 1 tensor.
#[derive(Clone, Copy, Debug, PartialEq, Eq, Structural)]
pub struct Shape {
    pub rows: usize,
    pub cols: usize,
}

/// The axis along which a reduction sums.
#[derive(Clone, Copy, Debug, PartialEq, Eq, Structural)]
pub enum Axis {
    /// Sum down each column: `(r, c)` becomes `(1, c)`.
    Rows,
    /// Sum along each row: `(r, c)` becomes `(r, 1)`.
    Cols,
}

/// Two extents broadcast when they are equal or one of them is 1.
pub open spec fn dims_broadcast(a: usize, b: usize) -> bool {
    a == b || a == 1 || b == 1
}

/// The extent that two broadcasting extents give.
pub open spec fn broadcast_dim(a: usize, b: usize) -> usize {
    if a == 1 { b } else { a }
}

pub open spec fn broadcasts(a: Shape, b: Shape) -> bool {
    dims_broadcast(a.rows, b.rows) && dims_broadcast(a.cols, b.cols)
}

pub open spec fn broadcast_shape(a: Shape, b: Shape) -> Shape {
    Shape { rows: broadcast_dim(a.rows, b.rows), cols: broadcast_dim(a.cols, b.cols) }
}

/// `a` stretches to `out` along each axis where it has extent 1.
pub open spec fn stretches_to(a: Shape, out: Shape) -> bool {
    (a.rows == out.rows || a.rows == 1) && (a.cols == out.cols || a.cols == 1)
}

pub open spec fn matmul_compatible(a: Shape, b: Shape) -> bool {
    a.cols == b.rows
}

pub open spec fn matmul_shape(a: Shape, b: Shape) -> Shape {
    Shape { rows: a.rows, cols: b.cols }
}

pub open spec fn reduce_shape(a: Shape, axis: Axis) -> Shape {
    match axis {
        Axis::Rows => Shape { rows: 1, cols: a.cols },
        Axis::Cols => Shape { rows: a.rows, cols: 1 },
    }
}

/// The number of entries that a reduction along `axis` sums.
pub open spec fn reduce_len(a: Shape, axis: Axis) -> usize {
    match axis {
        Axis::Rows => a.rows,
        Axis::Cols => a.cols,
    }
}

pub open spec fn transpose_shape(a: Shape) -> Shape {
    Shape { rows: a.cols, cols: a.rows }
}

pub proof fn lemma_broadcast_stretches(a: Shape, b: Shape)
    requires
        broadcasts(a, b),
    ensures
        stretches_to(a, broadcast_shape(a, b)),
        stretches_to(b, broadcast_shape(a, b)),
{
}

impl Shape {
    pub fn new(rows: usize, cols: usize) -> (r: Shape)
        ensures
            r.rows == rows,
            r.cols == cols,
    {
        Shape { rows, cols }
    }

    /// The shape of an elementwise operation on `self` and `o`, NumPy-style.
    pub fn broadcast(self, o: Shape, op: OpKind) -> (r: Result<Shape, GraphError>)
        ensures
            broadcasts(self, o) ==> r == Ok::<Shape, GraphError>(broadcast_shape(self, o)),
            !broadcasts(self, o) ==> r == Err::<Shape, GraphError>(
                GraphError::ShapeMismatch { op, lhs: self, rhs: o },
            ),
    {
        let rows_ok = self.rows == o.rows || self.rows == 1 || o.rows == 1;
        let cols_ok = self.cols == o.cols || self.cols == 1 || o.cols == 1;
        if rows_ok && cols_ok {
            let rows = if self.rows == 1 { o.rows } else { self.rows };
            let cols = if self.cols == 1 { o.cols } else { self.cols };
            Ok(Shape { rows, cols })
        } else {
            Err(GraphError::ShapeMismatch { op, lhs: self, rhs: o })
        }
    }

    /// The shape of the matrix product `self x o`: `(m, k) x (k, n)` is `(m, n)`.
    pub fn matmul(self, o: Shape) -> (r: Result<Shape, GraphError>)
        ensures
            matmul_compatible(self, o) ==> r == Ok::<Shape, GraphError>(matmul_shape(self, o)),
            !matmul_compatible(self, o) ==> r == Err::<Shape, GraphError>(
                GraphError::ShapeMismatch { op: OpKind::MatMul, lhs: self, rhs: o },
            ),
    {
        if self.cols == o.rows {
            Ok(Shape { rows: self.rows, cols: o.cols })
        } else {
            Err(GraphError::ShapeMismatch { op: OpKind::MatMul, lhs: self, rhs: o })
        }
    }

    pub fn reduce(self, axis: Axis) -> (r: Shape)
        ensures
            r == reduce_shape(self, axis),
    {
        match axis {
            Axis::Rows => Shape { rows: 1, cols: self.cols },
            Axis::Cols => Shape { rows: self.rows, cols: 1 },
        }
    }
}

} // verus!
