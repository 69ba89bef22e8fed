use vstd::prelude::*;
use crate::env::VariableEnvironment;
use crate::error::{GraphError, OpKind};
use crate::scalar::Scalar;
use crate::shape::{Axis, Shape};
use crate::shape;
use crate::tensor::Matrix;

verus! {

/// A handle on a node of a [`Context`]: the node's index in its table.
#[derive(Clone, Copy, Debug, PartialEq, Eq, Structural)]
pub struct NodeId(pub usize);

/// What a node computes, with the parameters of its kind.
#[derive(Clone, Debug)]
pub enum Op<T> {
    /// An input slot, given a value when the graph is evaluated.
    Placeholder { name: String },
    /// A value fixed when the node was made.
    Constant { value: Matrix<T> },
    /// A snapshot of a variable of the environment, read when the node was made.
    Variable { name: String, value: Matrix<T> },
    Add,
    Mul,
    MatMul,
    Relu,
    Sigmoid,
    Neg,
    /// The logarithm of the operand clamped from below to epsilon.
    Ln,
    /// The operand clamped to `[min, max]`.
    Clip { min: T, max: T },
    Sum { axis: Axis },
    Mean { axis: Axis },
}

pub open spec fn kind_of<T>(op: Op<T>) -> OpKind {
    match op {
        Op::Placeholder { .. } => OpKind::Placeholder,
        Op::Constant { .. } => OpKind::Constant,
        Op::Variable { .. } => OpKind::Variable,
        Op::Add => OpKind::Add,
        Op::Mul => OpKind::Mul,
        Op::MatMul => OpKind::MatMul,
        Op::Relu => OpKind::Relu,
        Op::Sigmoid => OpKind::Sigmoid,
        Op::Neg => OpKind::Neg,
        Op::Ln => OpKind::Ln,
        Op::Clip { .. } => OpKind::Clip,
        Op::Sum { .. } => OpKind::Sum,
        Op::Mean { .. } => OpKind::Mean,
    }
}

impl<T> Op<T> {
    pub fn kind(&self) -> (r: OpKind)
        ensures
            r == kind_of(*self),
    {
        match self {
            Op::Placeholder { .. } => OpKind::Placeholder,
            Op::Constant { .. } => OpKind::Constant,
            Op::Variable { .. } => OpKind::Variable,
            Op::Add => OpKind::Add,
            Op::Mul => OpKind::Mul,
            Op::MatMul => OpKind::MatMul,
            Op::Relu => OpKind::Relu,
            Op::Sigmoid => OpKind::Sigmoid,
            Op::Neg => OpKind::Neg,
            Op::Ln => OpKind::Ln,
            Op::Clip { .. } => OpKind::Clip,
            Op::Sum { .. } => OpKind::Sum,
            Op::Mean { .. } => OpKind::Mean,
        }
    }
}

/// The number of inputs that a node of this kind takes.
pub open spec fn arity<T>(op: Op<T>) -> nat {
    match op {
        Op::Placeholder { .. } | Op::Constant { .. } | Op::Variable { .. } => 0,
        Op::Add | Op::Mul | Op::MatMul => 2,
        _ => 1,
    }
}

/// One entry of the node table.
#[derive(Clone, Debug)]
pub struct Node<T> {
    pub op: Op<T>,
    /// The ids of the node's operands, in order.
    pub inputs: Vec<usize>,
    pub shape: Shape,
}

/// The shape of operand `s` of node `k`.
pub open spec fn input_shape<T>(nodes: Seq<Node<T>>, k: int, s: int) -> Shape {
    nodes[nodes[k].inputs@[s] as int].shape
}

/// A node of kind `op` may have shape `out` when its operands have shapes `sa`
/// and `sb` (operands that the kind does not take are ignored).
pub open spec fn op_shape_ok<T: Scalar>(op: Op<T>, out: Shape, sa: Shape, sb: Shape) -> bool {
    match op {
        Op::Placeholder { .. } => true,
        Op::Constant { value } => value.wf() && value.shape == out,
        Op::Variable { value, .. } => value.wf() && value.shape == out,
        Op::Add | Op::Mul => shape::broadcasts(sa, sb) && out == shape::broadcast_shape(sa, sb),
        Op::MatMul => shape::matmul_compatible(sa, sb) && out == shape::matmul_shape(sa, sb),
        Op::Sum { axis } => out == shape::reduce_shape(sa, axis),
        Op::Mean { axis } => out == shape::reduce_shape(sa, axis) && shape::reduce_len(sa, axis) > 0,
        _ => out == sa,
    }
}

/// Node `k`'s shape is the one its kind infers from its operands' shapes.
pub open spec fn shape_ok<T: Scalar>(nodes: Seq<Node<T>>, k: int) -> bool {
    op_shape_ok(nodes[k].op, nodes[k].shape, input_shape(nodes, k, 0), input_shape(nodes, k, 1))
}

/// Node `k` has as many operands as its kind takes, each made before it, and the
/// shape its kind infers.
pub open spec fn node_ok<T: Scalar>(nodes: Seq<Node<T>>, k: int) -> bool {
    &&& nodes[k].inputs@.len() == arity(nodes[k].op)
    &&& forall|s: int| 0 <= s < nodes[k].inputs@.len() ==> (#[trigger] nodes[k].inputs@[s]) < k
    &&& shape_ok(nodes, k)
}

/// The node table of one run: append-only, and acyclic because every node's
/// operands come before it.
#[derive(Debug)]
pub struct Context<T> {
    pub nodes: Vec<Node<T>>,
}

impl<T: Scalar> Context<T> {
    pub open spec fn wf(&self) -> bool {
        forall|k: int| 0 <= k < self.nodes@.len() ==> node_ok(self.nodes@, k)
    }

    pub open spec fn known(&self, a: NodeId) -> bool {
        a.0 < self.nodes@.len()
    }

    pub open spec fn shape_at(&self, a: NodeId) -> Shape {
        self.nodes@[a.0 as int].shape
    }

    /// `post` is this table with one node appended, of kind `op`, operands
    /// `inputs` and shape `shape`.
    pub open spec fn grew(&self, post: &Self, op: Op<T>, inputs: Seq<usize>, shape: Shape) -> bool {
        &&& post.nodes@.len() == self.nodes@.len() + 1
        &&& forall|k: int| 0 <= k < self.nodes@.len() ==> post.nodes@[k] == self.nodes@[k]
        &&& post.nodes@.last().op == op
        &&& post.nodes@.last().inputs@ == inputs
        &&& post.nodes@.last().shape == shape
    }

    /// Whether node `k` is well formed, checked at run time.
    fn node_is_ok(&self, k: usize) -> (r: bool)
        requires
            k < self.nodes@.len(),
        ensures
            r == node_ok(self.nodes@, k as int),
    {
        let node = &self.nodes[k];
        let want: usize = match &node.op {
            Op::Placeholder { .. } | Op::Constant { .. } | Op::Variable { .. } => 0,
            Op::Add | Op::Mul | Op::MatMul => 2,
            _ => 1,
        };
        if node.inputs.len() != want {
            return false;
        }
        let mut s: usize = 0;
        while s < node.inputs.len()
            invariant
                k < self.nodes@.len(),
                *node == self.nodes@[k as int],
                s <= node.inputs@.len(),
                forall|q: int| 0 <= q < s ==> (#[trigger] node.inputs@[q]) < k,
            decreases node.inputs@.len() - s,
        {
            if node.inputs[s] >= k {
                return false;
            }
            s = s + 1;
        }
        let ghost nodes = self.nodes@;
        match &node.op {
            Op::Placeholder { .. } => true,
            Op::Constant { value } => value.is_wf() && value.shape == node.shape,
            Op::Variable { value, .. } => value.is_wf() && value.shape == node.shape,
            Op::Add | Op::Mul | Op::MatMul => {
                let sa = self.nodes[node.inputs[0]].shape;
                let sb = self.nodes[node.inputs[1]].shape;
                assert(sa == input_shape(nodes, k as int, 0));
                assert(sb == input_shape(nodes, k as int, 1));
                let inferred = match &node.op {
                    Op::MatMul => sa.matmul(sb),
                    _ => sa.broadcast(sb, OpKind::Add),
                };
                match inferred {
                    Ok(out) => out == node.shape,
                    Err(_) => false,
                }
            },
            Op::Sum { axis } => {
                let sa = self.nodes[node.inputs[0]].shape;
                assert(sa == input_shape(nodes, k as int, 0));
                node.shape == sa.reduce(*axis)
            },
            Op::Mean { axis } => {
                let sa = self.nodes[node.inputs[0]].shape;
                assert(sa == input_shape(nodes, k as int, 0));
                let len = match axis {
                    Axis::Rows => sa.rows,
                    Axis::Cols => sa.cols,
                };
                node.shape == sa.reduce(*axis) && len > 0
            },
            _ => {
                let sa = self.nodes[node.inputs[0]].shape;
                assert(sa == input_shape(nodes, k as int, 0));
                node.shape == sa
            },
        }
    }

    /// Whether the node table is well formed, checked at run time.
    pub fn is_wf(&self) -> (r: bool)
        ensures
            r == self.wf(),
    {
        let mut k: usize = 0;
        while k < self.nodes.len()
            invariant
                k <= self.nodes@.len(),
                forall|q: int| 0 <= q < k ==> node_ok(self.nodes@, q),
            decreases self.nodes@.len() - k,
        {
            if !self.node_is_ok(k) {
                return false;
            }
            k = k + 1;
        }
        true
    }

    pub fn new() -> (r: Context<T>)
        ensures
            r.wf(),
            r.nodes@.len() == 0,
    {
        Context { nodes: Vec::new() }
    }

    pub fn len(&self) -> (r: usize)
        ensures
            r == self.nodes@.len(),
    {
        self.nodes.len()
    }

    /// The node that `a` names.
    pub fn node(&self, a: NodeId) -> (r: &Node<T>)
        requires
            self.known(a),
        ensures
            *r == self.nodes@[a.0 as int],
    {
        &self.nodes[a.0]
    }

    /// The shape of the node that `a` names.
    pub fn shape_of(&self, a: NodeId) -> (r: Result<Shape, GraphError>)
        ensures
            self.known(a) ==> r == Ok::<Shape, GraphError>(self.shape_at(a)),
            !self.known(a) ==> r == Err::<Shape, GraphError>(GraphError::UnknownNode { node: a.0 }),
    {
        if a.0 < self.nodes.len() {
            Ok(self.nodes[a.0].shape)
        } else {
            Err(GraphError::UnknownNode { node: a.0 })
        }
    }

    fn push_node(&mut self, node: Node<T>) -> (r: NodeId)
        requires
            old(self).wf(),
            node_ok(old(self).nodes@.push(node), old(self).nodes@.len() as int),
        ensures
            final(self).wf(),
            final(self).nodes@ == old(self).nodes@.push(node),
            r.0 == old(self).nodes@.len(),
    {
        let ghost pre = self.nodes@;
        let id = self.nodes.len();
        self.nodes.push(node);
        proof {
            assert forall|k: int| 0 <= k < self.nodes@.len() implies node_ok(self.nodes@, k) by {
                if k < pre.len() {
                    assert(node_ok(pre, k));
                    assert(self.nodes@[k] == pre[k]);
                    assert forall|s: int| 0 <= s < pre[k].inputs@.len() implies input_shape(
                        self.nodes@,
                        k,
                        s,
                    ) == input_shape(pre, k, s) by {
                        assert(pre[k].inputs@[s] < k);
                    }
                    if pre[k].inputs@.len() > 0 {
                        assert(input_shape(self.nodes@, k, 0) == input_shape(pre, k, 0));
                    }
                    if pre[k].inputs@.len() > 1 {
                        assert(input_shape(self.nodes@, k, 1) == input_shape(pre, k, 1));
                    }
                }
            }
        }
        NodeId(id)
    }

    /// A named input slot of the given shape.
    pub fn placeholder(&mut self, name: &str, shape: Shape) -> (r: NodeId)
        requires
            old(self).wf(),
        ensures
            final(self).wf(),
            r.0 == old(self).nodes@.len(),
            final(self).nodes@.last().op matches Op::Placeholder { name: n } && n@ == name@,
            old(self).grew(&*final(self), final(self).nodes@.last().op, seq![], shape),
    {
        let node = Node { op: Op::Placeholder { name: name.to_owned() }, inputs: Vec::new(), shape };
        self.push_node(node)
    }

    /// A node whose value is `value`.
    pub fn constant(&mut self, value: Matrix<T>) -> (r: NodeId)
        requires
            old(self).wf(),
            value.wf(),
        ensures
            final(self).wf(),
            r.0 == old(self).nodes@.len(),
            old(self).grew(&*final(self), Op::Constant { value }, seq![], value.shape),
    {
        let shape = value.shape;
        let node = Node { op: Op::Constant { value }, inputs: Vec::new(), shape };
        self.push_node(node)
    }

    /// A constant of the given shape with every entry one.
    pub fn ones(&mut self, shape: Shape) -> (r: NodeId)
        requires
            old(self).wf(),
        ensures
            final(self).wf(),
            r.0 == old(self).nodes@.len(),
            final(self).nodes@.last().op matches Op::Constant { value } && forall|i: int, j: int|
                0 <= i < shape.rows && 0 <= j < shape.cols ==> value.cells()[i][j]
                    == T::spec_one(),
            old(self).grew(&*final(self), final(self).nodes@.last().op, seq![], shape),
    {
        let value = Matrix::filled(shape, T::one());
        self.constant(value)
    }

    /// A node holding a snapshot of the environment's variable `name`.
    pub fn variable(&mut self, env: &VariableEnvironment<T>, name: &str) -> (r: Result<
        NodeId,
        GraphError,
    >)
        requires
            old(self).wf(),
            env.wf(),
        ensures
            final(self).wf(),
            !env.has(name@) ==> (r matches Err(GraphError::UnknownVariable { name: n }) && n@
                == name@) && final(self).nodes@ == old(self).nodes@,
            env.has(name@) ==> r == Ok::<NodeId, GraphError>(NodeId(old(self).nodes@.len() as usize)) && (
            final(self).nodes@.last().op matches Op::Variable { name: n, value } && n@ == name@
                && value.shape == env.value_of(name@).shape && value.cells() == env.value_of(
                name@,
            ).cells()) && old(self).grew(
                &*final(self),
                final(self).nodes@.last().op,
                seq![],
                env.value_of(name@).shape,
            ),
    {
        match env.get(name) {
            None => Err(GraphError::UnknownVariable { name: name.to_owned() }),
            Some(m) => {
                proof {
                    let i = choose|i: int|
                        0 <= i < env.entries@.len() && (#[trigger] env.entries@[i]).0@ == name@;
                    assert(env.entries@[i].1.wf());
                }
                let value = m.duplicate();
                let shape = value.shape;
                let node = Node {
                    op: Op::Variable { name: name.to_owned(), value },
                    inputs: Vec::new(),
                    shape,
                };
                Ok(self.push_node(node))
            },
        }
    }

    /// What building the two-operand node `op` on `a` and `b` did to the table
    /// `post` and returned in `r`: an unknown operand, or operand shapes that `op`
    /// cannot combine, leave the table as it was.
    pub open spec fn built_binary(
        &self,
        post: &Self,
        op: Op<T>,
        a: NodeId,
        b: NodeId,
        r: Result<NodeId, GraphError>,
    ) -> bool {
        if !self.known(a) {
            r == Err::<NodeId, GraphError>(GraphError::UnknownNode { node: a.0 }) && post.nodes@
                == self.nodes@
        } else if !self.known(b) {
            r == Err::<NodeId, GraphError>(GraphError::UnknownNode { node: b.0 }) && post.nodes@
                == self.nodes@
        } else {
            match binary_shape(op, self.shape_at(a), self.shape_at(b)) {
                Some(s) => r == Ok::<NodeId, GraphError>(NodeId(self.nodes@.len() as usize))
                    && self.grew(post, op, seq![a.0, b.0], s),
                None => r == Err::<NodeId, GraphError>(
                    GraphError::ShapeMismatch {
                        op: kind_of(op),
                        lhs: self.shape_at(a),
                        rhs: self.shape_at(b),
                    },
                ) && post.nodes@ == self.nodes@,
            }
        }
    }

    /// What building the one-operand node `op` on `a` did to the table `post`
    /// and returned in `r`.
    pub open spec fn built_unary(
        &self,
        post: &Self,
        op: Op<T>,
        a: NodeId,
        r: Result<NodeId, GraphError>,
    ) -> bool {
        if !self.known(a) {
            r == Err::<NodeId, GraphError>(GraphError::UnknownNode { node: a.0 }) && post.nodes@
                == self.nodes@
        } else {
            match unary_shape(op, self.shape_at(a)) {
                Ok(s) => r == Ok::<NodeId, GraphError>(NodeId(self.nodes@.len() as usize))
                    && self.grew(post, op, seq![a.0], s),
                Err(e) => r == Err::<NodeId, GraphError>(e) && post.nodes@ == self.nodes@,
            }
        }
    }

    fn binary(&mut self, op: Op<T>, a: NodeId, b: NodeId) -> (r: Result<NodeId, GraphError>)
        requires
            old(self).wf(),
            op is Add || op is Mul || op is MatMul,
        ensures
            final(self).wf(),
            old(self).built_binary(&*final(self), op, a, b, r),
    {
        let sa = self.shape_of(a)?;
        let sb = self.shape_of(b)?;
        let shape = match op {
            Op::MatMul => sa.matmul(sb)?,
            Op::Add => sa.broadcast(sb, OpKind::Add)?,
            _ => sa.broadcast(sb, OpKind::Mul)?,
        };
        let node = Node { op, inputs: vec![a.0, b.0], shape };
        proof {
            let post = self.nodes@.push(node);
            assert(post[a.0 as int] == self.nodes@[a.0 as int]);
            assert(post[b.0 as int] == self.nodes@[b.0 as int]);
            assert(input_shape(post, self.nodes@.len() as int, 0) == sa);
            assert(input_shape(post, self.nodes@.len() as int, 1) == sb);
        }
        Ok(self.push_node(node))
    }

    fn unary(&mut self, op: Op<T>, a: NodeId) -> (r: Result<NodeId, GraphError>)
        requires
            old(self).wf(),
            arity(op) == 1,
        ensures
            final(self).wf(),
            old(self).built_unary(&*final(self), op, a, r),
    {
        let sa = self.shape_of(a)?;
        let shape = match op {
            Op::Clip { min, max } => {
                if max.less(min) {
                    return Err(GraphError::DomainError { op: OpKind::Clip, shape: sa });
                }
                sa
            },
            Op::Sum { axis } => sa.reduce(axis),
            Op::Mean { axis } => {
                let n = match axis {
                    Axis::Rows => sa.rows,
                    Axis::Cols => sa.cols,
                };
                if n == 0 {
                    return Err(GraphError::DomainError { op: OpKind::Mean, shape: sa });
                }
                sa.reduce(axis)
            },
            _ => sa,
        };
        let node = Node { op, inputs: vec![a.0], shape };
        proof {
            let post = self.nodes@.push(node);
            assert(post[a.0 as int] == self.nodes@[a.0 as int]);
            assert(input_shape(post, self.nodes@.len() as int, 0) == sa);
            assert(node.inputs@ =~= seq![a.0]);
        }
        Ok(self.push_node(node))
    }

    /// `a + b`, elementwise with broadcasting.
    pub fn add(&mut self, a: NodeId, b: NodeId) -> (r: Result<NodeId, GraphError>)
        requires
            old(self).wf(),
        ensures
            final(self).wf(),
            old(self).built_binary(&*final(self), Op::Add, a, b, r),
    {
        self.binary(Op::Add, a, b)
    }

    /// `a * b`, elementwise with broadcasting.
    pub fn mul(&mut self, a: NodeId, b: NodeId) -> (r: Result<NodeId, GraphError>)
        requires
            old(self).wf(),
        ensures
            final(self).wf(),
            old(self).built_binary(&*final(self), Op::Mul, a, b, r),
    {
        self.binary(Op::Mul, a, b)
    }

    /// The matrix product `a x b`.
    pub fn matmul(&mut self, a: NodeId, b: NodeId) -> (r: Result<NodeId, GraphError>)
        requires
            old(self).wf(),
        ensures
            final(self).wf(),
            old(self).built_binary(&*final(self), Op::MatMul, a, b, r),
    {
        self.binary(Op::MatMul, a, b)
    }

    /// `max(a, 0)`, elementwise.
    pub fn relu(&mut self, a: NodeId) -> (r: Result<NodeId, GraphError>)
        requires
            old(self).wf(),
        ensures
            final(self).wf(),
            old(self).built_unary(&*final(self), Op::Relu, a, r),
    {
        self.unary(Op::Relu, a)
    }

    /// The logistic function of `a`, elementwise.
    pub fn sigmoid(&mut self, a: NodeId) -> (r: Result<NodeId, GraphError>)
        requires
            old(self).wf(),
        ensures
            final(self).wf(),
            old(self).built_unary(&*final(self), Op::Sigmoid, a, r),
    {
        self.unary(Op::Sigmoid, a)
    }

    /// `-a`, elementwise.
    pub fn neg(&mut self, a: NodeId) -> (r: Result<NodeId, GraphError>)
        requires
            old(self).wf(),
        ensures
            final(self).wf(),
            old(self).built_unary(&*final(self), Op::Neg, a, r),
    {
        self.unary(Op::Neg, a)
    }

    /// The natural logarithm of `a` clamped from below to epsilon, elementwise.
    pub fn ln(&mut self, a: NodeId) -> (r: Result<NodeId, GraphError>)
        requires
            old(self).wf(),
        ensures
            final(self).wf(),
            old(self).built_unary(&*final(self), Op::Ln, a, r),
    {
        self.unary(Op::Ln, a)
    }

    /// `a` clamped to `[min, max]`, elementwise.
    pub fn clip(&mut self, a: NodeId, min: T, max: T) -> (r: Result<NodeId, GraphError>)
        requires
            old(self).wf(),
        ensures
            final(self).wf(),
            old(self).built_unary(&*final(self), Op::Clip { min, max }, a, r),
    {
        self.unary(Op::Clip { min, max }, a)
    }

    /// `a` summed along `axis`.
    pub fn sum(&mut self, a: NodeId, axis: Axis) -> (r: Result<NodeId, GraphError>)
        requires
            old(self).wf(),
        ensures
            final(self).wf(),
            old(self).built_unary(&*final(self), Op::Sum { axis }, a, r),
    {
        self.unary(Op::Sum { axis }, a)
    }

    /// The mean of `a` along `axis`.
    pub fn mean(&mut self, a: NodeId, axis: Axis) -> (r: Result<NodeId, GraphError>)
        requires
            old(self).wf(),
        ensures
            final(self).wf(),
            old(self).built_unary(&*final(self), Op::Mean { axis }, a, r),
    {
        self.unary(Op::Mean { axis }, a)
    }
}

/// The shape of a two-operand node from its operands' shapes, if they combine.
pub open spec fn binary_shape<T>(op: Op<T>, sa: Shape, sb: Shape) -> Option<Shape> {
    match op {
        Op::MatMul => if shape::matmul_compatible(sa, sb) {
            Some(shape::matmul_shape(sa, sb))
        } else {
            None
        },
        _ => if shape::broadcasts(sa, sb) {
            Some(shape::broadcast_shape(sa, sb))
        } else {
            None
        },
    }
}

/// The shape of a one-operand node from its operand's shape, or the error that
/// building it raises.
pub open spec fn unary_shape<T: Scalar>(op: Op<T>, sa: Shape) -> Result<Shape, GraphError> {
    match op {
        Op::Clip { min, max } => if max.spec_less(min) {
            Err(GraphError::DomainError { op: OpKind::Clip, shape: sa })
        } else {
            Ok(sa)
        },
        Op::Sum { axis } => Ok(shape::reduce_shape(sa, axis)),
        Op::Mean { axis } => if shape::reduce_len(sa, axis) == 0 {
            Err(GraphError::DomainError { op: OpKind::Mean, shape: sa })
        } else {
            Ok(shape::reduce_shape(sa, axis))
        },
        _ => Ok(sa),
    }
}

} // verus!
