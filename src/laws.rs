//! Properties of the engine that relate several operations, proved from the
//! contracts of those operations.
use vstd::prelude::*;
use crate::error::{GraphError, OpKind};
use crate::eval;
use crate::feed::Feeder;
use crate::grad::GradientMap;
use crate::grad;
use crate::graph::{Context, NodeId, Op};
use crate::scalar::Scalar;
use crate::shape::Shape;
use crate::tensor::{Elem, Matrix};
use crate::tensor;

verus! {

/// Building a matrix product of nodes of shapes `(m, k)` and `(k2, n)` adds a
/// node of shape `(m, n)` when `k == k2`, and otherwise fails with
/// `ShapeMismatch`, leaving the table as it was.
pub proof fn law_matmul_shape<T: Scalar>(
    pre: Context<T>,
    post: Context<T>,
    a: NodeId,
    b: NodeId,
    r: Result<NodeId, GraphError>,
)
    requires
        pre.known(a),
        pre.known(b),
        pre.built_binary(&post, Op::MatMul, a, b, r),
    ensures
        pre.shape_at(a).cols == pre.shape_at(b).rows ==> r is Ok && post.nodes@.len()
            == pre.nodes@.len() + 1 && post.nodes@.last().shape == (Shape {
            rows: pre.shape_at(a).rows,
            cols: pre.shape_at(b).cols,
        }),
        pre.shape_at(a).cols != pre.shape_at(b).rows ==> r == Err::<NodeId, GraphError>(
            GraphError::ShapeMismatch {
                op: OpKind::MatMul,
                lhs: pre.shape_at(a),
                rhs: pre.shape_at(b),
            },
        ) && post.nodes@ == pre.nodes@,
{
}

/// An evaluation runs the forward rule of each node that the targets need
/// exactly once: `ran`, the record of the forward rules that [`crate::eval::evaluate`]
/// ran, names no node twice and names every needed node.
pub proof fn law_each_needed_node_runs_once<T>(
    ctx: Context<T>,
    targets: Seq<NodeId>,
    plan: Seq<NodeId>,
    ran: Seq<usize>,
    k: int,
)
    requires
        eval::is_plan(ctx.nodes@, targets, plan),
        ran == plan.map_values(|id: NodeId| id.0),
        0 <= k < ctx.nodes@.len(),
        eval::needed(ctx.nodes@, targets, k),
    ensures
        forall|a: int, b: int| 0 <= a < ran.len() && 0 <= b < ran.len() && ran[a] == ran[b] ==> a == b,
        exists|a: int| 0 <= a < ran.len() && ran[a] == k,
{
    assert forall|a: int, b: int| 0 <= a < ran.len() && 0 <= b < ran.len() && ran[a] == ran[b] implies a
        == b by {
        if a < b {
            assert(plan[a].0 < plan[b].0);
        } else if b < a {
            assert(plan[b].0 < plan[a].0);
        }
    }
    let a = choose|a: int| 0 <= a < plan.len() && plan[a].0 == k;
    assert(ran[a] == k);
}

/// An evaluation whose targets depend on a placeholder that the feeder gives no
/// value fails with `MissingFeed`, never returns values.
pub proof fn law_missing_feed_detected<T: Scalar>(
    ctx: Context<T>,
    targets: Seq<NodeId>,
    feed: Feeder<T>,
    i: int,
    r: Result<Vec<Matrix<T>>, GraphError>,
)
    requires
        eval::all_known(&ctx, targets),
        0 <= i < ctx.nodes@.len(),
        eval::needed(ctx.nodes@, targets, i),
        eval::unfed(ctx.nodes@, feed, i),
        eval::evaluated(&ctx, targets, feed, r),
    ensures
        r matches Err(GraphError::MissingFeed { .. }),
{
    assert(eval::missing(ctx.nodes@, targets, feed, i));
}

/// Two evaluations of the same targets of the same context under the same feeder
/// have the same outcome: the same values, entry for entry, or the same error.
pub proof fn law_evaluation_repeatable<T: Scalar>(
    ctx: Context<T>,
    targets: Seq<NodeId>,
    feed: Feeder<T>,
    r1: Result<Vec<Matrix<T>>, GraphError>,
    r2: Result<Vec<Matrix<T>>, GraphError>,
)
    requires
        eval::evaluated(&ctx, targets, feed, r1),
        eval::evaluated(&ctx, targets, feed, r2),
    ensures
        r1 is Ok <==> r2 is Ok,
        r1 is Ok && r2 is Ok ==> r1->Ok_0@.len() == r2->Ok_0@.len() && forall|k: int|
            0 <= k < r1->Ok_0@.len() ==> (#[trigger] r1->Ok_0@[k]).shape == r2->Ok_0@[k].shape
                && r1->Ok_0@[k].cells() == r2->Ok_0@[k].cells(),
        (r1 matches Err(GraphError::MissingFeed { node: n1, name: s1 }) ==> (r2 matches Err(
            GraphError::MissingFeed { node: n2, name: s2 },
        ) && n1 == n2 && s1@ == s2@)),
        !(r1 is Ok) && !(r1 matches Err(GraphError::MissingFeed { .. })) ==> r1 == r2,
{
    let nodes = ctx.nodes@;
    if !eval::all_known(&ctx, targets) {
        let u1 = choose|u: int|
            #[trigger] eval::first_unknown(&ctx, targets, u) && r1 == Err::<Vec<Matrix<T>>, GraphError>(
                GraphError::UnknownNode { node: targets[u].0 },
            );
        let u2 = choose|u: int|
            #[trigger] eval::first_unknown(&ctx, targets, u) && r2 == Err::<Vec<Matrix<T>>, GraphError>(
                GraphError::UnknownNode { node: targets[u].0 },
            );
        if u1 < u2 {
            assert(ctx.known(targets[u1]));
        } else if u2 < u1 {
            assert(ctx.known(targets[u2]));
        }
    } else if exists|i: int| #[trigger] eval::missing(nodes, targets, feed, i) {
        if let Err(GraphError::MissingFeed { node: n1, .. }) = r1 {
            if let Err(GraphError::MissingFeed { node: n2, .. }) = r2 {
                if (n1 as int) < (n2 as int) {
                    assert(!eval::missing(nodes, targets, feed, n1 as int));
                } else if (n2 as int) < (n1 as int) {
                    assert(!eval::missing(nodes, targets, feed, n2 as int));
                }
            }
        }
    } else if exists|i: int| #[trigger] eval::wrong_shape(nodes, targets, feed, i) {
        let i1 = choose|i: int|
            #[trigger] eval::first_wrong_shape(nodes, targets, feed, i) && r1 == Err::<
                Vec<Matrix<T>>,
                GraphError,
            >(
                GraphError::ShapeMismatch {
                    op: OpKind::Placeholder,
                    lhs: nodes[i].shape,
                    rhs: feed.value_of(i as usize).shape,
                },
            );
        let i2 = choose|i: int|
            #[trigger] eval::first_wrong_shape(nodes, targets, feed, i) && r2 == Err::<
                Vec<Matrix<T>>,
                GraphError,
            >(
                GraphError::ShapeMismatch {
                    op: OpKind::Placeholder,
                    lhs: nodes[i].shape,
                    rhs: feed.value_of(i as usize).shape,
                },
            );
        if i1 < i2 {
            assert(!eval::wrong_shape(nodes, targets, feed, i1));
        } else if i2 < i1 {
            assert(!eval::wrong_shape(nodes, targets, feed, i2));
        }
    }
}

/// Node `j`, strictly between `x` and `y`, gets no gradient from `y` when `y`'s
/// only operands are `x`: the walk from `y` down to `m` passes it nothing.
proof fn lemma_no_gradient_between<T: Scalar>(
    ctx: Context<T>,
    feed: Feeder<T>,
    seed: Seq<Seq<T>>,
    x: int,
    y: int,
    j: int,
    m: int,
)
    requires
        ctx.wf(),
        0 <= x < y < ctx.nodes@.len(),
        ctx.nodes@[y].inputs@ == seq![x as usize, x as usize],
        x < j < y,
        j < m <= y + 1,
    ensures
        grad::acc_grad(ctx.nodes@, feed, y, seed, j, m) is None,
    decreases y + 1 - j, y + 1 - m,
{
    let nodes = ctx.nodes@;
    if m <= y {
        lemma_no_gradient_between(ctx, feed, seed, x, y, j, m + 1);
        if m < y {
            lemma_no_gradient_between(ctx, feed, seed, x, y, m, m + 1);
            assert(grad::grad_of(nodes, feed, y, seed, m) is None);
        }
    }
}

/// The walk from `y` down to `m` leaves at `x` what it left at `x` on reaching `y`.
proof fn lemma_gradient_at_x<T: Scalar>(
    ctx: Context<T>,
    feed: Feeder<T>,
    seed: Seq<Seq<T>>,
    x: int,
    y: int,
    m: int,
)
    requires
        ctx.wf(),
        0 <= x < y < ctx.nodes@.len(),
        ctx.nodes@[y].inputs@ == seq![x as usize, x as usize],
        x < m <= y,
    ensures
        grad::acc_grad(ctx.nodes@, feed, y, seed, x, m) == grad::acc_grad(ctx.nodes@, feed, y, seed, x, y),
    decreases y - m,
{
    if m < y {
        lemma_gradient_at_x(ctx, feed, seed, x, y, m + 1);
        lemma_no_gradient_between(ctx, feed, seed, x, y, m, m + 1);
        assert(grad::grad_of(ctx.nodes@, feed, y, seed, m) is None);
    }
}

/// Differentiating `y = x + x` with a seed of ones gives `x` the gradient
/// `1 + 1` at every entry: the two uses of `x` are summed, not overwritten.
pub proof fn law_shared_operand_gradients_add<T: Scalar>(
    ctx: Context<T>,
    feed: Feeder<T>,
    x: NodeId,
    y: NodeId,
    seed: Seq<Seq<T>>,
    r: Result<GradientMap<T>, GraphError>,
)
    requires
        ctx.wf(),
        ctx.known(y),
        ctx.nodes@[y.0 as int].op is Add,
        ctx.nodes@[y.0 as int].inputs@ == seq![x.0, x.0],
        tensor::fits(seed, ctx.nodes@[y.0 as int].shape),
        forall|i: int, j: int|
            0 <= i < seed.len() && 0 <= j < seed[i].len() ==> seed[i][j] == T::spec_one(),
        grad::differentiated(&ctx, y, feed, ctx.nodes@[y.0 as int].shape, seed, r),
        r is Ok,
    ensures
        r matches Ok(gm) && gm.grads@[x.0 as int] matches Some(g) && g.shape
            == ctx.nodes@[x.0 as int].shape && forall|i: int, j: int|
            0 <= i < g.shape.rows && 0 <= j < g.shape.cols ==> g.cells()[i][j]
                == T::spec_one().spec_plus(T::spec_one()),
{
    let nodes = ctx.nodes@;
    let xi = x.0 as int;
    let yi = y.0 as int;
    assert(crate::graph::node_ok(nodes, yi));
    assert(nodes[yi].inputs@[0] == x.0);
    assert(xi < yi);
    let s = nodes[yi].shape;
    assert(s == nodes[xi].shape);
    lemma_gradient_at_x(ctx, feed, seed, xi, yi, xi + 1);
    assert(grad::acc_grad(nodes, feed, yi, seed, yi, yi + 1) == Some(seed));
    assert(grad::grad_of(nodes, feed, yi, seed, yi) == Some(seed));
    assert(tensor::reduce_to_cells(seed, s, s) == seed);
    let c = crate::grad::contribution(nodes, feed, yi, 0, seed);
    assert(c == seed);
    assert(crate::grad::contribution(nodes, feed, yi, 1, seed) == seed);
    assert(grad::acc_grad(nodes, feed, yi, seed, xi, yi + 1) is None);
    assert(crate::eval::has_operand(nodes, yi, 0));
    assert(crate::eval::has_operand(nodes, yi, 1));
    assert(nodes[yi].inputs@[1] == x.0);
    let after0 = crate::grad::accumulate(None, seed, nodes[xi].shape);
    assert(after0 == Some(seed));
    assert(grad::acc_grad(nodes, feed, yi, seed, xi, yi) == crate::grad::accumulate(
        after0,
        seed,
        nodes[xi].shape,
    ));
    assert(grad::acc_grad(nodes, feed, yi, seed, xi, yi) == Some(
        tensor::zip_cells(Elem::Plus, seed, s, seed, s, s),
    ));
    assert(grad::grad_of(nodes, feed, yi, seed, xi) == Some(tensor::zip_cells(Elem::Plus, seed, s, seed, s, s)));
}

} // verus!
