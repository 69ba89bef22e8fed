use vstd::prelude::*;
use crate::error::GraphError;
use crate::eval::{check_feeds, forward_values, marked_ids, mark_needed};
use crate::eval;
use crate::feed::Feeder;
use crate::graph::{Context, Node, NodeId};
use crate::graph;
use crate::ops::backward;
use crate::ops;
use crate::scalar::Scalar;
use crate::shape::Shape;
use crate::tensor::{Elem, Matrix, zip};
use crate::tensor;

verus! {

/// An accumulated gradient plus a new contribution `c` (both of shape `s`), or
/// `c` alone where nothing had been accumulated.
pub open spec fn accumulate<T: Scalar>(acc: Option<Seq<Seq<T>>>, c: Seq<Seq<T>>, s: Shape) -> Option<
    Seq<Seq<T>>,
> {
    match acc {
        None => Some(c),
        Some(x) => Some(tensor::zip_cells(Elem::Plus, x, s, c, s, s)),
    }
}

/// The value of operand `slot` of node `j`, where it has one.
pub open spec fn operand_value<T: Scalar>(nodes: Seq<Node<T>>, feed: Feeder<T>, j: int, slot: int) -> Seq<
    Seq<T>,
> {
    if eval::has_operand(nodes, j, slot) {
        eval::value(nodes, feed, nodes[j].inputs@[slot] as int)
    } else {
        Seq::empty()
    }
}

/// What node `j`, whose output has gradient `g`, passes back to its operand in `slot`.
pub open spec fn contribution<T: Scalar>(
    nodes: Seq<Node<T>>,
    feed: Feeder<T>,
    j: int,
    slot: int,
    g: Seq<Seq<T>>,
) -> Seq<Seq<T>> {
    ops::local_grad_cells(
        nodes[j].op,
        nodes[j].shape,
        g,
        operand_value(nodes, feed, j, 0),
        graph::input_shape(nodes, j, 0),
        operand_value(nodes, feed, j, 1),
        graph::input_shape(nodes, j, 1),
        slot,
    )
}

/// The gradient accumulated at node `i` once the nodes from `j` up to `loss`
/// have been walked, highest id first and each node's operands in slot order.
/// Before the walk only `loss` holds a gradient, `seed`.
pub open spec fn acc_grad<T: Scalar>(
    nodes: Seq<Node<T>>,
    feed: Feeder<T>,
    loss: int,
    seed: Seq<Seq<T>>,
    i: int,
    j: int,
) -> Option<Seq<Seq<T>>>
    decreases loss + 1 - j, 1int,
{
    if j > loss || j < 0 {
        if i == loss {
            Some(seed)
        } else {
            None
        }
    } else {
        let before = acc_grad(nodes, feed, loss, seed, i, j + 1);
        match grad_of(nodes, feed, loss, seed, j) {
            None => before,
            Some(g) => {
                let after0 = if eval::has_operand(nodes, j, 0) && nodes[j].inputs@[0] == i {
                    accumulate(before, contribution(nodes, feed, j, 0, g), nodes[i].shape)
                } else {
                    before
                };
                if eval::has_operand(nodes, j, 1) && nodes[j].inputs@[1] == i {
                    accumulate(after0, contribution(nodes, feed, j, 1, g), nodes[i].shape)
                } else {
                    after0
                }
            },
        }
    }
}

/// The gradient of `loss` (seeded with `seed`) with respect to node `i`; none
/// where `i` has no path to `loss`.
pub open spec fn grad_of<T: Scalar>(
    nodes: Seq<Node<T>>,
    feed: Feeder<T>,
    loss: int,
    seed: Seq<Seq<T>>,
    i: int,
) -> Option<Seq<Seq<T>>>
    decreases loss + 1 - i, 0int,
{
    if i > loss || i < 0 {
        None
    } else {
        acc_grad(nodes, feed, loss, seed, i, i + 1)
    }
}

/// The entries of an optional matrix.
pub open spec fn cells_opt<T>(x: Option<Matrix<T>>) -> Option<Seq<Seq<T>>> {
    match x {
        Some(m) => Some(m.cells()),
        None => None,
    }
}

/// Gradients of one loss, indexed by node id. An absent entry is a zero gradient:
/// the node has no path to the loss.
#[derive(Debug)]
pub struct GradientMap<T> {
    pub grads: Vec<Option<Matrix<T>>>,
}

impl<T> GradientMap<T> {
    /// The gradient with respect to `node`, if it has one.
    pub fn get(&self, node: NodeId) -> (r: Option<&Matrix<T>>)
        ensures
            node.0 < self.grads@.len() ==> (r is Some <==> self.grads@[node.0 as int] is Some),
            r matches Some(m) ==> node.0 < self.grads@.len() && self.grads@[node.0 as int] == Some(
                *m,
            ),
            node.0 >= self.grads@.len() ==> r is None,
    {
        if node.0 < self.grads.len() {
            self.grads[node.0].as_ref()
        } else {
            None
        }
    }
}

/// Adds `c` into the gradient slot `p` of `grads`.
fn add_into<T: Scalar>(grads: &mut Vec<Option<Matrix<T>>>, p: usize, c: Matrix<T>)
    requires
        p < old(grads)@.len(),
        c.wf(),
        old(grads)@[p as int] matches Some(m) ==> m.wf() && m.shape == c.shape,
    ensures
        final(grads)@.len() == old(grads)@.len(),
        forall|k: int| 0 <= k < old(grads)@.len() && k != p ==> final(grads)@[k] == old(grads)@[k],
        final(grads)@[p as int] matches Some(m) && m.wf() && m.shape == c.shape,
        cells_opt(final(grads)@[p as int]) == accumulate(
            cells_opt(old(grads)@[p as int]),
            c.cells(),
            c.shape,
        ),
{
    let shape = c.shape;
    let next = match &grads[p] {
        Some(x) => zip(Elem::Plus, x, &c, shape),
        None => c,
    };
    grads.set(p, Some(next));
}

/// What differentiating `loss` of `ctx` under `feed`, seeded with `seed`,
/// returns: an unknown loss; else a seed of another shape than the loss; else the
/// first placeholder that the loss needs and that has no value, or has one of
/// another shape; else the gradient of the loss with respect to every node.
pub open spec fn differentiated<T: Scalar>(
    ctx: &Context<T>,
    loss: NodeId,
    feed: Feeder<T>,
    seed_shape: Shape,
    seed: Seq<Seq<T>>,
    r: Result<GradientMap<T>, GraphError>,
) -> bool {
    let nodes = ctx.nodes@;
    let targets = seq![loss];
    if !ctx.known(loss) {
        r == Err::<GradientMap<T>, GraphError>(GraphError::UnknownNode { node: loss.0 })
    } else if seed_shape != nodes[loss.0 as int].shape {
        r == Err::<GradientMap<T>, GraphError>(
            GraphError::ShapeMismatch {
                op: graph::kind_of(nodes[loss.0 as int].op),
                lhs: nodes[loss.0 as int].shape,
                rhs: seed_shape,
            },
        )
    } else if exists|i: int| #[trigger] eval::missing(nodes, targets, feed, i) {
        r matches Err(GraphError::MissingFeed { node, name }) && eval::first_missing(
            nodes,
            targets,
            feed,
            node as int,
        ) && name@ == eval::name_of(nodes[node as int].op)
    } else if exists|i: int| #[trigger] eval::wrong_shape(nodes, targets, feed, i) {
        exists|i: int|
            #[trigger] eval::first_wrong_shape(nodes, targets, feed, i) && r == Err::<
                GradientMap<T>,
                GraphError,
            >(
                GraphError::ShapeMismatch {
                    op: crate::error::OpKind::Placeholder,
                    lhs: nodes[i].shape,
                    rhs: feed.value_of(i as usize).shape,
                },
            )
    } else {
        r matches Ok(gm) && gm.grads@.len() == nodes.len() && forall|i: int|
            0 <= i < nodes.len() ==> cells_opt(#[trigger] gm.grads@[i]) == grad_of(
                nodes,
                feed,
                loss.0 as int,
                seed,
                i,
            ) && (gm.grads@[i] matches Some(m) ==> m.wf() && m.shape == nodes[i].shape)
    }
}

/// The gradients of `loss` with respect to every node of `ctx`, the loss's own
/// gradient being `seed`: forward values for what the loss needs, then one walk
/// over the nodes in decreasing id order that passes each node's gradient to its
/// operands through the node's backward rule and sums what each node receives.
pub fn gradients_with_seed<T: Scalar>(
    ctx: &Context<T>,
    loss: NodeId,
    feed: &Feeder<T>,
    seed: Matrix<T>,
) -> (r: Result<GradientMap<T>, GraphError>)
    requires
        ctx.wf(),
        feed.wf(),
        seed.wf(),
    ensures
        differentiated(ctx, loss, *feed, seed.shape, seed.cells(), r),
{
    let ghost nodes = ctx.nodes@;
    let ghost seed_c = seed.cells();
    let n = ctx.nodes.len();
    if loss.0 >= n {
        return Err(GraphError::UnknownNode { node: loss.0 });
    }
    let l = loss.0;
    if seed.shape != ctx.nodes[l].shape {
        return Err(
            GraphError::ShapeMismatch {
                op: ctx.nodes[l].op.kind(),
                lhs: ctx.nodes[l].shape,
                rhs: seed.shape,
            },
        );
    }
    let targets = vec![loss];
    assert(targets@ =~= seq![loss]);
    let mark = mark_needed(ctx, &targets);
    check_feeds(ctx, Ghost(targets@), &mark, feed)?;
    proof {
        assert forall|i: int|
            0 <= i < mark@.len() && #[trigger] mark@[i] && ctx.nodes@[i].op is Placeholder implies feed.has(
                i as usize,
            ) && feed.value_of(i as usize).shape == ctx.nodes@[i].shape by {
            assert(!eval::missing(ctx.nodes@, targets@, *feed, i));
            assert(!eval::wrong_shape(ctx.nodes@, targets@, *feed, i));
        }
    }
    let order = marked_ids(&mark);
    let (memo, _ran) = forward_values(ctx, &mark, &order, feed);
    let mut grads: Vec<Option<Matrix<T>>> = Vec::new();
    let mut i: usize = 0;
    while i < n
        invariant
            i <= n,
            grads@.len() == i,
            forall|k: int| 0 <= k < i ==> grads@[k] is None,
        decreases n - i,
    {
        grads.push(None);
        i = i + 1;
    }
    proof {
        assert(eval::depends_on(nodes, l as int, l as int));
        assert(eval::needed(nodes, targets@, l as int));
    }
    grads.set(l, Some(seed));
    let mut j: usize = l + 1;
    while j > 0
        invariant
            ctx.wf(),
            nodes == ctx.nodes@,
            n == nodes.len(),
            l < n,
            j <= l + 1,
            mark@.len() == n,
            memo@.len() == n,
            grads@.len() == n,
            eval::operand_closed(nodes, mark@, 0),
            forall|k: int|
                0 <= k < memo@.len() && #[trigger] mark@[k] ==> (memo@[k] matches Some(m) && m.wf()
                    && m.shape == nodes[k].shape && m.cells() == eval::value(nodes, *feed, k)),
            forall|k: int|
                0 <= k < n ==> (#[trigger] grads@[k] matches Some(m) ==> m.wf() && m.shape
                    == nodes[k].shape && mark@[k]),
            forall|k: int|
                j <= k < n ==> cells_opt(#[trigger] grads@[k]) == grad_of(
                    nodes,
                    *feed,
                    l as int,
                    seed_c,
                    k,
                ),
            forall|k: int|
                0 <= k < j ==> cells_opt(#[trigger] grads@[k]) == acc_grad(
                    nodes,
                    *feed,
                    l as int,
                    seed_c,
                    k,
                    j as int,
                ),
        decreases j,
    {
        let k = j - 1;
        let ghost pre = grads@;
        assert(cells_opt(pre[k as int]) == grad_of(nodes, *feed, l as int, seed_c, k as int));
        if grads[k].is_some() {
            let g = grads[k].as_ref().unwrap().duplicate();
            assert(graph::node_ok(nodes, k as int));
            let node = &ctx.nodes[k];
            if node.inputs.len() > 0 {
                let p0 = node.inputs[0];
                assert(mark@[p0 as int]);
                let a = memo[p0].as_ref().unwrap();
                let b = if node.inputs.len() > 1 {
                    let p1 = node.inputs[1];
                    assert(mark@[p1 as int]);
                    memo[p1].as_ref().unwrap()
                } else {
                    a
                };
                let c0 = backward(&node.op, node.shape, &g, a, b, 0);
                add_into(&mut grads, p0, c0);
                if node.inputs.len() > 1 {
                    let p1 = node.inputs[1];
                    let c1 = backward(&node.op, node.shape, &g, a, b, 1);
                    add_into(&mut grads, p1, c1);
                }
            }
        }
        proof {
            // Each node below `k` now holds what it held before plus what `k`
            // passed to it, which is one more step of the walk.
            assert forall|i2: int| 0 <= i2 < k implies cells_opt(#[trigger] grads@[i2])
                == acc_grad(nodes, *feed, l as int, seed_c, i2, k as int) by {
                assert(cells_opt(pre[i2]) == acc_grad(
                    nodes,
                    *feed,
                    l as int,
                    seed_c,
                    i2,
                    k as int + 1,
                ));
            }
        }
        j = k;
    }
    Ok(GradientMap { grads })
}

/// The 1 x 1 matrix whose entry is one.
pub open spec fn unit_seed<T: Scalar>() -> Seq<Seq<T>> {
    seq![seq![T::spec_one()]]
}

/// The gradients of a scalar (1 x 1) `loss` with respect to every node of
/// `ctx`, the loss's own gradient being one. A loss of another shape is a
/// `ShapeMismatch` against 1 x 1.
pub fn gradients<T: Scalar>(ctx: &Context<T>, loss: NodeId, feed: &Feeder<T>) -> (r: Result<
    GradientMap<T>,
    GraphError,
>)
    requires
        ctx.wf(),
        feed.wf(),
    ensures
        differentiated(ctx, loss, *feed, Shape { rows: 1, cols: 1 }, unit_seed::<T>(), r),
{
    let unit = Shape { rows: 1, cols: 1 };
    let seed = Matrix::filled(unit, T::one());
    assert(seed.cells() =~~= unit_seed::<T>());
    gradients_with_seed(ctx, loss, feed, seed)
}

} // verus!
