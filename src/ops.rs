use vstd::prelude::*;
use crate::graph::Op;
use crate::graph;
use crate::scalar::Scalar;
use crate::shape::{Axis, Shape};
use crate::shape;
use crate::tensor::{Elem, Matrix, zip, matmul, sum_axis, transpose, reduce_to};
use crate::tensor;

verus! {

/// The value that a node of kind `op` and shape `out` computes from the values
/// `a` and `b` of its operands, of shapes `sa` and `sb`.
pub open spec fn forward_cells<T: Scalar>(
    op: Op<T>,
    out: Shape,
    a: Seq<Seq<T>>,
    sa: Shape,
    b: Seq<Seq<T>>,
    sb: Shape,
) -> Seq<Seq<T>> {
    match op {
        Op::Add => tensor::zip_cells(Elem::Plus, a, sa, b, sb, out),
        Op::Mul => tensor::zip_cells(Elem::Times, a, sa, b, sb, out),
        Op::MatMul => tensor::matmul_cells(a, b, sa.rows as nat, sa.cols as nat, sb.cols as nat),
        Op::Relu => tensor::zip_cells(Elem::Relu, a, sa, a, sa, out),
        Op::Sigmoid => tensor::zip_cells(Elem::Sigmoid, a, sa, a, sa, out),
        Op::Neg => tensor::zip_cells(Elem::Negate, a, sa, a, sa, out),
        Op::Ln => tensor::zip_cells(Elem::Ln, a, sa, a, sa, out),
        Op::Clip { min, max } => tensor::zip_cells(Elem::Clip { min, max }, a, sa, a, sa, out),
        Op::Sum { axis } => tensor::sum_cells(a, sa, axis),
        Op::Mean { axis } => tensor::zip_cells(
            Elem::Scale { d: T::spec_from_count(shape::reduce_len(sa, axis)) },
            tensor::sum_cells(a, sa, axis),
            out,
            tensor::sum_cells(a, sa, axis),
            out,
            out,
        ),
        Op::Constant { value } => value.cells(),
        Op::Variable { value, .. } => value.cells(),
        Op::Placeholder { .. } => a,
    }
}

/// Runs the forward rule of a node with operands: its value from theirs.
pub fn forward<T: Scalar>(op: &Op<T>, out: Shape, a: &Matrix<T>, b: &Matrix<T>) -> (r: Matrix<T>)
    requires
        graph::arity(*op) > 0,
        a.wf(),
        b.wf(),
        graph::op_shape_ok(*op, out, a.shape, b.shape),
    ensures
        r.wf(),
        r.shape == out,
        r.cells() == forward_cells(*op, out, a.cells(), a.shape, b.cells(), b.shape),
{
    match op {
        Op::Add => {
            proof {
                shape::lemma_broadcast_stretches(a.shape, b.shape);
            }
            zip(Elem::Plus, a, b, out)
        },
        Op::Mul => {
            proof {
                shape::lemma_broadcast_stretches(a.shape, b.shape);
            }
            zip(Elem::Times, a, b, out)
        },
        Op::MatMul => matmul(a, b),
        Op::Relu => zip(Elem::Relu, a, a, out),
        Op::Sigmoid => zip(Elem::Sigmoid, a, a, out),
        Op::Neg => zip(Elem::Negate, a, a, out),
        Op::Ln => zip(Elem::Ln, a, a, out),
        Op::Clip { min, max } => zip(Elem::Clip { min: *min, max: *max }, a, a, out),
        Op::Sum { axis } => sum_axis(a, *axis),
        Op::Mean { axis } => {
            let s = sum_axis(a, *axis);
            let n = match axis {
                Axis::Rows => a.shape.rows,
                Axis::Cols => a.shape.cols,
            };
            zip(Elem::Scale { d: T::from_count(n) }, &s, &s, out)
        },
        _ => a.duplicate(),
    }
}

/// What a node of kind `op` and shape `out` passes back to its operand in slot
/// `slot`, given the gradient `g` of its output and its operands' values `a` and
/// `b` (of shapes `sa` and `sb`). A broadcast operand gets the gradient summed
/// back to its own shape.
pub open spec fn local_grad_cells<T: Scalar>(
    op: Op<T>,
    out: Shape,
    g: Seq<Seq<T>>,
    a: Seq<Seq<T>>,
    sa: Shape,
    b: Seq<Seq<T>>,
    sb: Shape,
    slot: int,
) -> Seq<Seq<T>> {
    match op {
        Op::Add => if slot == 0 {
            tensor::reduce_to_cells(g, out, sa)
        } else {
            tensor::reduce_to_cells(g, out, sb)
        },
        Op::Mul => if slot == 0 {
            tensor::reduce_to_cells(tensor::zip_cells(Elem::Times, g, out, b, sb, out), out, sa)
        } else {
            tensor::reduce_to_cells(tensor::zip_cells(Elem::Times, g, out, a, sa, out), out, sb)
        },
        Op::MatMul => if slot == 0 {
            tensor::matmul_cells(g, tensor::transpose_cells(b, sb), out.rows as nat, out.cols as nat, sb.rows as nat)
        } else {
            tensor::matmul_cells(tensor::transpose_cells(a, sa), g, sa.cols as nat, sa.rows as nat, out.cols as nat)
        },
        Op::Relu => tensor::zip_cells(Elem::ReluGrad, g, out, a, sa, sa),
        Op::Sigmoid => tensor::zip_cells(Elem::SigmoidGrad, g, out, a, sa, sa),
        Op::Neg => tensor::zip_cells(Elem::Negate, g, out, g, out, out),
        Op::Ln => tensor::zip_cells(Elem::LnGrad, g, out, a, sa, sa),
        Op::Clip { min, max } => tensor::zip_cells(Elem::ClipGrad { min, max }, g, out, a, sa, sa),
        Op::Sum { .. } => tensor::zip_cells(Elem::Left, g, out, a, sa, sa),
        Op::Mean { axis } => tensor::zip_cells(
            Elem::Scale { d: T::spec_from_count(shape::reduce_len(sa, axis)) },
            g,
            out,
            a,
            sa,
            sa,
        ),
        _ => g,
    }
}

/// Runs the backward rule of a node with operands: the gradient that operand
/// `slot` receives, shaped like that operand.
pub fn backward<T: Scalar>(
    op: &Op<T>,
    out: Shape,
    g: &Matrix<T>,
    a: &Matrix<T>,
    b: &Matrix<T>,
    slot: usize,
) -> (r: Matrix<T>)
    requires
        graph::arity(*op) > 0,
        slot < graph::arity(*op),
        g.wf(),
        a.wf(),
        b.wf(),
        g.shape == out,
        graph::op_shape_ok(*op, out, a.shape, b.shape),
    ensures
        r.wf(),
        r.shape == (if slot == 0 { a.shape } else { b.shape }),
        r.cells() == local_grad_cells(
            *op,
            out,
            g.cells(),
            a.cells(),
            a.shape,
            b.cells(),
            b.shape,
            slot as int,
        ),
{
    match op {
        Op::Add => {
            proof {
                shape::lemma_broadcast_stretches(a.shape, b.shape);
            }
            if slot == 0 {
                reduce_to(g.duplicate(), a.shape)
            } else {
                reduce_to(g.duplicate(), b.shape)
            }
        },
        Op::Mul => {
            proof {
                shape::lemma_broadcast_stretches(a.shape, b.shape);
            }
            if slot == 0 {
                reduce_to(zip(Elem::Times, g, b, out), a.shape)
            } else {
                reduce_to(zip(Elem::Times, g, a, out), b.shape)
            }
        },
        Op::MatMul => {
            if slot == 0 {
                matmul(g, &transpose(b))
            } else {
                matmul(&transpose(a), g)
            }
        },
        Op::Relu => zip(Elem::ReluGrad, g, a, a.shape),
        Op::Sigmoid => zip(Elem::SigmoidGrad, g, a, a.shape),
        Op::Neg => zip(Elem::Negate, g, g, out),
        Op::Ln => zip(Elem::LnGrad, g, a, a.shape),
        Op::Clip { min, max } => zip(Elem::ClipGrad { min: *min, max: *max }, g, a, a.shape),
        Op::Sum { .. } => zip(Elem::Left, g, a, a.shape),
        Op::Mean { axis } => {
            let n = match axis {
                Axis::Rows => a.shape.rows,
                Axis::Cols => a.shape.cols,
            };
            zip(Elem::Scale { d: T::from_count(n) }, g, a, a.shape)
        },
        _ => g.duplicate(),
    }
}

} // verus!
