use vstd::prelude::*;
use crate::error::{GraphError, OpKind};
use crate::feed::Feeder;
use crate::graph::{Context, Node, NodeId, Op};
use crate::graph;
use crate::ops::forward;
use crate::ops;
use crate::scalar::Scalar;
use crate::tensor::Matrix;

verus! {

/// Operand `s` of node `j`, where it exists and was made before `j`.
pub open spec fn has_operand<T>(nodes: Seq<Node<T>>, j: int, s: int) -> bool {
    0 <= j < nodes.len() && 0 <= s < nodes[j].inputs@.len() && nodes[j].inputs@[s] < j
}

/// Node `j` depends on node `i`: `i` is `j`, or something that one of `j`'s
/// operands depends on. (No kind of node takes more than two operands.)
pub open spec fn depends_on<T>(nodes: Seq<Node<T>>, j: int, i: int) -> bool
    decreases j,
{
    j == i || (has_operand(nodes, j, 0) && depends_on(nodes, nodes[j].inputs@[0] as int, i)) || (
    has_operand(nodes, j, 1) && depends_on(nodes, nodes[j].inputs@[1] as int, i))
}

/// Some requested target depends on node `i`.
pub open spec fn needed<T>(nodes: Seq<Node<T>>, targets: Seq<NodeId>, i: int) -> bool {
    exists|t: int| 0 <= t < targets.len() && depends_on(nodes, (#[trigger] targets[t]).0 as int, i)
}

pub proof fn lemma_depends_trans<T>(nodes: Seq<Node<T>>, k: int, j: int, i: int)
    requires
        depends_on(nodes, k, j),
        depends_on(nodes, j, i),
    ensures
        depends_on(nodes, k, i),
    decreases k,
{
    if k != j {
        if has_operand(nodes, k, 0) && depends_on(nodes, nodes[k].inputs@[0] as int, j) {
            lemma_depends_trans(nodes, nodes[k].inputs@[0] as int, j, i);
        } else {
            lemma_depends_trans(nodes, nodes[k].inputs@[1] as int, j, i);
        }
    }
}

/// `mark` is closed under taking operands at every node of `nodes`.
pub open spec fn operand_closed<T>(nodes: Seq<Node<T>>, mark: Seq<bool>, from: int) -> bool {
    forall|k: int, s: int|
        from <= k < nodes.len() && 0 <= s < nodes[k].inputs@.len() && #[trigger] mark[k]
            ==> mark[#[trigger] nodes[k].inputs@[s] as int]
}

proof fn lemma_closed_complete<T>(nodes: Seq<Node<T>>, mark: Seq<bool>, j: int, i: int)
    requires
        mark.len() == nodes.len(),
        operand_closed(nodes, mark, 0),
        0 <= j < nodes.len(),
        mark[j],
        depends_on(nodes, j, i),
    ensures
        mark[i],
    decreases j,
{
    if j != i {
        if has_operand(nodes, j, 0) && depends_on(nodes, nodes[j].inputs@[0] as int, i) {
            assert(mark[nodes[j].inputs@[0] as int]);
            lemma_closed_complete(nodes, mark, nodes[j].inputs@[0] as int, i);
        } else {
            assert(mark[nodes[j].inputs@[1] as int]);
            lemma_closed_complete(nodes, mark, nodes[j].inputs@[1] as int, i);
        }
    }
}

/// Every target names a node of `ctx`.
pub open spec fn all_known<T: Scalar>(ctx: &Context<T>, targets: Seq<NodeId>) -> bool {
    forall|t: int| 0 <= t < targets.len() ==> ctx.known(#[trigger] targets[t])
}

/// For each node of `ctx`, whether one of `targets` depends on it.
pub fn mark_needed<T: Scalar>(ctx: &Context<T>, targets: &Vec<NodeId>) -> (r: Vec<bool>)
    requires
        ctx.wf(),
        all_known(ctx, targets@),
    ensures
        r@.len() == ctx.nodes@.len(),
        forall|i: int| 0 <= i < r@.len() ==> r@[i] == needed(ctx.nodes@, targets@, i),
        operand_closed(ctx.nodes@, r@, 0),
{
    let n = ctx.nodes.len();
    let ghost nodes = ctx.nodes@;
    let mut mark: Vec<bool> = Vec::new();
    let mut i: usize = 0;
    while i < n
        invariant
            n == nodes.len(),
            i <= n,
            mark@.len() == i,
            forall|k: int| 0 <= k < i ==> !mark@[k],
        decreases n - i,
    {
        mark.push(false);
        i = i + 1;
    }
    let mut t: usize = 0;
    while t < targets.len()
        invariant
            nodes == ctx.nodes@,
            n == nodes.len(),
            all_known(ctx, targets@),
            t <= targets@.len(),
            mark@.len() == n,
            forall|k: int| 0 <= k < n && #[trigger] mark@[k] ==> needed(nodes, targets@, k),
            forall|u: int| 0 <= u < t ==> mark@[(#[trigger] targets@[u]).0 as int],
        decreases targets@.len() - t,
    {
        let id = targets[t].0;
        assert(ctx.known(targets@[t as int]));
        proof {
            assert(depends_on(nodes, targets@[t as int].0 as int, id as int));
        }
        mark.set(id, true);
        t = t + 1;
    }
    let mut j: usize = n;
    while j > 0
        invariant
            ctx.wf(),
            nodes == ctx.nodes@,
            n == nodes.len(),
            j <= n,
            all_known(ctx, targets@),
            mark@.len() == n,
            forall|k: int| 0 <= k < n && #[trigger] mark@[k] ==> needed(nodes, targets@, k),
            forall|u: int| 0 <= u < targets@.len() ==> mark@[(#[trigger] targets@[u]).0 as int],
            operand_closed(nodes, mark@, j as int),
        decreases j,
    {
        let k = j - 1;
        if mark[k] {
            assert(graph::node_ok(nodes, k as int));
            let node = &ctx.nodes[k];
            let mut s: usize = 0;
            while s < node.inputs.len()
                invariant
                    ctx.wf(),
                    nodes == ctx.nodes@,
                    n == nodes.len(),
                    k < n,
                    *node == nodes[k as int],
                    graph::node_ok(nodes, k as int),
                    mark@[k as int],
                    mark@.len() == n,
                    all_known(ctx, targets@),
                    s <= node.inputs@.len(),
                    forall|m: int| 0 <= m < n && #[trigger] mark@[m] ==> needed(nodes, targets@, m),
                    forall|u: int|
                        0 <= u < targets@.len() ==> mark@[(#[trigger] targets@[u]).0 as int],
                    operand_closed(nodes, mark@, k + 1),
                    forall|q: int| 0 <= q < s ==> mark@[#[trigger] node.inputs@[q] as int],
                decreases node.inputs@.len() - s,
            {
                let p = node.inputs[s];
                proof {
                    assert(p < k);
                    assert(needed(nodes, targets@, k as int));
                    let u = choose|u: int|
                        0 <= u < targets@.len() && depends_on(
                            nodes,
                            (#[trigger] targets@[u]).0 as int,
                            k as int,
                        );
                    assert(node.inputs@.len() <= 2);
                    assert(depends_on(nodes, p as int, p as int));
                    assert(depends_on(nodes, k as int, p as int));
                    lemma_depends_trans(nodes, targets@[u].0 as int, k as int, p as int);
                }
                let ghost before = mark@;
                mark.set(p, true);
                proof {
                    assert forall|k2: int, s2: int|
                        k + 1 <= k2 < nodes.len() && 0 <= s2 < nodes[k2].inputs@.len()
                            && #[trigger] mark@[k2] implies mark@[#[trigger] nodes[k2].inputs@[s2] as int] by {
                        assert(graph::node_ok(nodes, k2));
                        if k2 != p as int {
                            assert(before[k2]);
                            assert(before[nodes[k2].inputs@[s2] as int]);
                        }
                    }
                }
                s = s + 1;
            }
        }
        j = k;
    }
    proof {
        assert forall|i: int| 0 <= i < n implies mark@[i] == needed(nodes, targets@, i) by {
            if needed(nodes, targets@, i) {
                let u = choose|u: int|
                    0 <= u < targets@.len() && depends_on(
                        nodes,
                        (#[trigger] targets@[u]).0 as int,
                        i,
                    );
                assert(ctx.known(targets@[u]));
                lemma_closed_complete(nodes, mark@, targets@[u].0 as int, i);
            }
        }
    }
    mark
}

/// The value of node `i` when the placeholders are fed from `feed`: a fed value,
/// a value fixed in the node, or the node's forward rule on its operands' values.
pub open spec fn value<T: Scalar>(nodes: Seq<Node<T>>, feed: Feeder<T>, i: int) -> Seq<Seq<T>>
    decreases i,
{
    if !(0 <= i < nodes.len()) {
        Seq::empty()
    } else {
        let a = if has_operand(nodes, i, 0) {
            value(nodes, feed, nodes[i].inputs@[0] as int)
        } else {
            Seq::empty()
        };
        let b = if has_operand(nodes, i, 1) {
            value(nodes, feed, nodes[i].inputs@[1] as int)
        } else {
            Seq::empty()
        };
        match nodes[i].op {
            Op::Placeholder { .. } => feed.value_of(i as usize).cells(),
            _ => ops::forward_cells(
                nodes[i].op,
                nodes[i].shape,
                a,
                graph::input_shape(nodes, i, 0),
                b,
                graph::input_shape(nodes, i, 1),
            ),
        }
    }
}

/// The name of a placeholder or variable node.
pub open spec fn name_of<T>(op: Op<T>) -> Seq<char> {
    match op {
        Op::Placeholder { name } => name@,
        Op::Variable { name, .. } => name@,
        _ => Seq::empty(),
    }
}

/// Node `i` is a placeholder that `feed` gives no value.
pub open spec fn unfed<T>(nodes: Seq<Node<T>>, feed: Feeder<T>, i: int) -> bool {
    nodes[i].op is Placeholder && !feed.has(i as usize)
}

/// Node `i` is a placeholder that `feed` gives a value of another shape.
pub open spec fn misfed<T>(nodes: Seq<Node<T>>, feed: Feeder<T>, i: int) -> bool {
    nodes[i].op is Placeholder && feed.has(i as usize) && feed.value_of(i as usize).shape
        != nodes[i].shape
}

/// `targets` need node `i`, a placeholder that `feed` gives no value.
pub open spec fn missing<T>(nodes: Seq<Node<T>>, targets: Seq<NodeId>, feed: Feeder<T>, i: int) -> bool {
    0 <= i < nodes.len() && needed(nodes, targets, i) && unfed(nodes, feed, i)
}

/// `targets` need node `i`, a placeholder that `feed` gives a value of another shape.
pub open spec fn wrong_shape<T>(
    nodes: Seq<Node<T>>,
    targets: Seq<NodeId>,
    feed: Feeder<T>,
    i: int,
) -> bool {
    0 <= i < nodes.len() && needed(nodes, targets, i) && misfed(nodes, feed, i)
}

pub open spec fn first_missing<T>(
    nodes: Seq<Node<T>>,
    targets: Seq<NodeId>,
    feed: Feeder<T>,
    i: int,
) -> bool {
    missing(nodes, targets, feed, i) && forall|k: int|
        0 <= k < i ==> !#[trigger] missing(nodes, targets, feed, k)
}

pub open spec fn first_wrong_shape<T>(
    nodes: Seq<Node<T>>,
    targets: Seq<NodeId>,
    feed: Feeder<T>,
    i: int,
) -> bool {
    wrong_shape(nodes, targets, feed, i) && forall|k: int|
        0 <= k < i ==> !#[trigger] wrong_shape(nodes, targets, feed, k)
}

/// `u` is the first target that names no node of `ctx`.
pub open spec fn first_unknown<T: Scalar>(ctx: &Context<T>, targets: Seq<NodeId>, u: int) -> bool {
    &&& 0 <= u < targets.len()
    &&& !ctx.known(targets[u])
    &&& forall|k: int| 0 <= k < u ==> ctx.known(#[trigger] targets[k])
}

/// What evaluating `targets` of `ctx` under `feed` returns: the first unknown
/// target; else the first needed placeholder without a value; else the first
/// needed placeholder fed a value of another shape; else the value of each target,
/// in request order.
pub open spec fn evaluated<T: Scalar>(
    ctx: &Context<T>,
    targets: Seq<NodeId>,
    feed: Feeder<T>,
    r: Result<Vec<Matrix<T>>, GraphError>,
) -> bool {
    let nodes = ctx.nodes@;
    if !all_known(ctx, targets) {
        exists|u: int|
            #[trigger] first_unknown(ctx, targets, u) && r == Err::<Vec<Matrix<T>>, GraphError>(
                GraphError::UnknownNode { node: targets[u].0 },
            )
    } else if exists|i: int| #[trigger] missing(nodes, targets, feed, i) {
        r matches Err(GraphError::MissingFeed { node, name }) && first_missing(
            nodes,
            targets,
            feed,
            node as int,
        ) && name@ == name_of(nodes[node as int].op)
    } else if exists|i: int| #[trigger] wrong_shape(nodes, targets, feed, i) {
        exists|i: int|
            #[trigger] first_wrong_shape(nodes, targets, feed, i) && r == Err::<
                Vec<Matrix<T>>,
                GraphError,
            >(
                GraphError::ShapeMismatch {
                    op: OpKind::Placeholder,
                    lhs: nodes[i].shape,
                    rhs: feed.value_of(i as usize).shape,
                },
            )
    } else {
        r matches Ok(outs) && outs@.len() == targets.len() && forall|k: int|
            0 <= k < targets.len() ==> (#[trigger] outs@[k]).wf() && outs@[k].shape
                == nodes[targets[k].0 as int].shape && outs@[k].cells() == value(
                nodes,
                feed,
                targets[k].0 as int,
            )
    }
}

/// The first target that names no node of `ctx`, if any.
fn find_unknown<T: Scalar>(ctx: &Context<T>, targets: &Vec<NodeId>) -> (r: Option<usize>)
    ensures
        r is None <==> all_known(ctx, targets@),
        r matches Some(u) ==> first_unknown(ctx, targets@, u as int),
{
    let mut t: usize = 0;
    while t < targets.len()
        invariant
            t <= targets@.len(),
            forall|k: int| 0 <= k < t ==> ctx.known(#[trigger] targets@[k]),
        decreases targets@.len() - t,
    {
        if targets[t].0 >= ctx.nodes.len() {
            return Some(t);
        }
        t = t + 1;
    }
    None
}

/// Checks that every marked placeholder is fed a value of its shape: the first
/// one without a value, else the first one with a value of another shape.
pub(crate) fn check_feeds<T: Scalar>(
    ctx: &Context<T>,
    targets: Ghost<Seq<NodeId>>,
    mark: &Vec<bool>,
    feed: &Feeder<T>,
) -> (r: Result<(), GraphError>)
    requires
        feed.wf(),
        mark@.len() == ctx.nodes@.len(),
        forall|i: int| 0 <= i < mark@.len() ==> mark@[i] == needed(ctx.nodes@, targets@, i),
    ensures
        (exists|i: int| #[trigger] missing(ctx.nodes@, targets@, *feed, i)) ==> (r matches Err(
            GraphError::MissingFeed { node, name },
        ) && first_missing(ctx.nodes@, targets@, *feed, node as int) && name@ == name_of(
            ctx.nodes@[node as int].op,
        )),
        !(exists|i: int| #[trigger] missing(ctx.nodes@, targets@, *feed, i)) && (exists|i: int|
            #[trigger] wrong_shape(ctx.nodes@, targets@, *feed, i)) ==> exists|i: int|
            #[trigger] first_wrong_shape(ctx.nodes@, targets@, *feed, i) && r == Err::<
                (),
                GraphError,
            >(
                GraphError::ShapeMismatch {
                    op: OpKind::Placeholder,
                    lhs: ctx.nodes@[i].shape,
                    rhs: feed.value_of(i as usize).shape,
                },
            ),
        !(exists|i: int| #[trigger] missing(ctx.nodes@, targets@, *feed, i)) && !(exists|i: int|
            #[trigger] wrong_shape(ctx.nodes@, targets@, *feed, i)) ==> r is Ok,
{
    let ghost nodes = ctx.nodes@;
    let n = ctx.nodes.len();
    let mut i: usize = 0;
    while i < n
        invariant
            nodes == ctx.nodes@,
            n == nodes.len(),
            feed.wf(),
            mark@.len() == n,
            forall|k: int| 0 <= k < mark@.len() ==> mark@[k] == needed(nodes, targets@, k),
            i <= n,
            forall|k: int| 0 <= k < i ==> !#[trigger] missing(nodes, targets@, *feed, k),
        decreases n - i,
    {
        if mark[i] {
            if let Op::Placeholder { name } = &ctx.nodes[i].op {
                if feed.find(i).is_none() {
                    proof {
                        assert(missing(nodes, targets@, *feed, i as int));
                        assert(first_missing(nodes, targets@, *feed, i as int));
                    }
                    return Err(GraphError::MissingFeed { node: i, name: name.clone() });
                }
            }
        }
        i = i + 1;
    }
    let mut i: usize = 0;
    while i < n
        invariant
            nodes == ctx.nodes@,
            n == nodes.len(),
            feed.wf(),
            mark@.len() == n,
            forall|k: int| 0 <= k < mark@.len() ==> mark@[k] == needed(nodes, targets@, k),
            forall|k: int| 0 <= k < n ==> !#[trigger] missing(nodes, targets@, *feed, k),
            i <= n,
            forall|k: int| 0 <= k < i ==> !#[trigger] wrong_shape(nodes, targets@, *feed, k),
        decreases n - i,
    {
        if mark[i] {
            if let Op::Placeholder { .. } = &ctx.nodes[i].op {
                if let Some(at) = feed.find(i) {
                    let fed = feed.entries[at].1.shape;
                    let declared = ctx.nodes[i].shape;
                    if fed != declared {
                        proof {
                            assert(first_wrong_shape(nodes, targets@, *feed, i as int));
                        }
                        return Err(
                            GraphError::ShapeMismatch {
                                op: OpKind::Placeholder,
                                lhs: declared,
                                rhs: fed,
                            },
                        );
                    }
                }
            }
        }
        i = i + 1;
    }
    Ok(())
}

/// The ids of the marked nodes, in increasing order.
pub open spec fn lists_marked(mark: Seq<bool>, plan: Seq<usize>) -> bool {
    &&& forall|a: int, b: int| 0 <= a < b < plan.len() ==> plan[a] < plan[b]
    &&& forall|a: int| 0 <= a < plan.len() ==> plan[a] < mark.len() && mark[plan[a] as int]
    &&& forall|k: int| 0 <= k < mark.len() && mark[k] ==> exists|a: int| 0 <= a < plan.len() && plan[a] == k
}

pub(crate) fn marked_ids(mark: &Vec<bool>) -> (r: Vec<usize>)
    ensures
        lists_marked(mark@, r@),
{
    let mut plan: Vec<usize> = Vec::new();
    let mut i: usize = 0;
    while i < mark.len()
        invariant
            i <= mark@.len(),
            forall|a: int, b: int| 0 <= a < b < plan@.len() ==> plan@[a] < plan@[b],
            forall|a: int| 0 <= a < plan@.len() ==> plan@[a] < i && mark@[plan@[a] as int],
            forall|k: int|
                0 <= k < i && mark@[k] ==> exists|a: int| 0 <= a < plan@.len() && plan@[a] == k,
        decreases mark@.len() - i,
    {
        let ghost before = plan@;
        if mark[i] {
            plan.push(i);
            assert(plan@[plan@.len() - 1] == i);
        }
        proof {
            assert forall|k: int| 0 <= k < i + 1 && mark@[k] implies exists|a: int|
                0 <= a < plan@.len() && plan@[a] == k by {
                if k < i {
                    let a = choose|a: int| 0 <= a < before.len() && before[a] == k;
                    assert(plan@[a] == k);
                } else {
                    assert(plan@[plan@.len() - 1] == k);
                }
            }
        }
        i = i + 1;
    }
    plan
}

/// `p` lists the nodes that `targets` need, in increasing id order.
pub open spec fn is_plan<T>(nodes: Seq<Node<T>>, targets: Seq<NodeId>, p: Seq<NodeId>) -> bool {
    &&& forall|a: int, b: int| 0 <= a < b < p.len() ==> p[a].0 < p[b].0
    &&& forall|a: int| 0 <= a < p.len() ==> needed(nodes, targets, p[a].0 as int)
    &&& forall|k: int|
        0 <= k < nodes.len() && needed(nodes, targets, k) ==> exists|a: int|
            0 <= a < p.len() && p[a].0 == k
}

/// The nodes whose forward rule an evaluation of `targets` runs, in the order in
/// which it runs them: each node that a target depends on, once, in increasing
/// id order, so that every node comes after its operands.
pub fn plan<T: Scalar>(ctx: &Context<T>, targets: &Vec<NodeId>) -> (r: Result<Vec<NodeId>, GraphError>)
    requires
        ctx.wf(),
    ensures
        !all_known(ctx, targets@) ==> exists|u: int|
            #[trigger] first_unknown(ctx, targets@, u) && r == Err::<Vec<NodeId>, GraphError>(
                GraphError::UnknownNode { node: targets@[u].0 },
            ),
        all_known(ctx, targets@) ==> (r matches Ok(p) && is_plan(ctx.nodes@, targets@, p@)),
{
    if let Some(u) = find_unknown(ctx, targets) {
        return Err(GraphError::UnknownNode { node: targets[u].0 });
    }
    let mark = mark_needed(ctx, targets);
    let ids = marked_ids(&mark);
    let mut out: Vec<NodeId> = Vec::new();
    let mut a: usize = 0;
    while a < ids.len()
        invariant
            a <= ids@.len(),
            out@.len() == a,
            forall|b: int| 0 <= b < a ==> (#[trigger] out@[b]).0 == ids@[b],
        decreases ids@.len() - a,
    {
        out.push(NodeId(ids[a]));
        a = a + 1;
    }
    proof {
        assert forall|k: int|
            0 <= k < ctx.nodes@.len() && needed(ctx.nodes@, targets@, k) implies exists|b: int|
            0 <= b < out@.len() && out@[b].0 == k by {
            assert(mark@[k]);
            let b = choose|b: int| 0 <= b < ids@.len() && ids@[b] == k;
            assert(out@[b].0 == k);
        }
    }
    Ok(out)
}

/// A marked node below the plan's `idx`-th entry comes before it in the plan.
proof fn lemma_earlier_in_plan(mark: Seq<bool>, plan: Seq<usize>, idx: int, p: int)
    requires
        lists_marked(mark, plan),
        0 <= idx < plan.len(),
        0 <= p < mark.len(),
        mark[p],
        p < plan[idx],
    ensures
        exists|a: int| 0 <= a < idx && plan[a] == p,
{
    let a = choose|a: int| 0 <= a < plan.len() && plan[a] == p;
    if a > idx {
        assert(plan[idx] < plan[a]);
    }
}

/// The value of every node in `plan`, computed in the plan's order, each once.
pub(crate) fn forward_values<T: Scalar>(
    ctx: &Context<T>,
    mark: &Vec<bool>,
    plan: &Vec<usize>,
    feed: &Feeder<T>,
) -> (r: (Vec<Option<Matrix<T>>>, Ghost<Seq<usize>>))
    requires
        ctx.wf(),
        feed.wf(),
        mark@.len() == ctx.nodes@.len(),
        operand_closed(ctx.nodes@, mark@, 0),
        lists_marked(mark@, plan@),
        forall|i: int|
            0 <= i < mark@.len() && #[trigger] mark@[i] && ctx.nodes@[i].op is Placeholder ==> feed.has(
                i as usize,
            ) && feed.value_of(i as usize).shape == ctx.nodes@[i].shape,
    ensures
        r.0@.len() == ctx.nodes@.len(),
        forall|i: int|
            0 <= i < r.0@.len() && #[trigger] mark@[i] ==> (r.0@[i] matches Some(m) && m.wf()
                && m.shape == ctx.nodes@[i].shape && m.cells() == value(ctx.nodes@, *feed, i)),
        forall|i: int| 0 <= i < r.0@.len() && !#[trigger] mark@[i] ==> r.0@[i] is None,
        r.1@ == plan@,
{
    let ghost nodes = ctx.nodes@;
    let ghost mut ran: Seq<usize> = Seq::empty();
    let n = ctx.nodes.len();
    let mut memo: Vec<Option<Matrix<T>>> = Vec::new();
    let mut i: usize = 0;
    while i < n
        invariant
            i <= n,
            memo@.len() == i,
            forall|k: int| 0 <= k < i ==> memo@[k] is None,
        decreases n - i,
    {
        memo.push(None);
        i = i + 1;
    }
    let mut idx: usize = 0;
    while idx < plan.len()
        invariant
            ctx.wf(),
            feed.wf(),
            nodes == ctx.nodes@,
            n == nodes.len(),
            mark@.len() == n,
            operand_closed(nodes, mark@, 0),
            lists_marked(mark@, plan@),
            forall|k: int|
                0 <= k < mark@.len() && #[trigger] mark@[k] && nodes[k].op is Placeholder
                    ==> feed.has(k as usize) && feed.value_of(k as usize).shape == nodes[k].shape,
            idx <= plan@.len(),
            memo@.len() == n,
            ran == plan@.subrange(0, idx as int),
            forall|k: int| 0 <= k < n && !#[trigger] mark@[k] ==> memo@[k] is None,
            forall|a: int|
                0 <= a < idx ==> (memo@[#[trigger] plan@[a] as int] matches Some(m) && m.wf()
                    && m.shape == nodes[plan@[a] as int].shape && m.cells() == value(
                    nodes,
                    *feed,
                    plan@[a] as int,
                )),
        decreases plan@.len() - idx,
    {
        let i = plan[idx];
        assert(mark@[i as int]);
        assert(graph::node_ok(nodes, i as int));
        let node = &ctx.nodes[i];
        let m = match &node.op {
            Op::Placeholder { .. } => {
                let at = feed.find(i).unwrap();
                feed.entries[at].1.duplicate()
            },
            Op::Constant { value } => value.duplicate(),
            Op::Variable { value, .. } => value.duplicate(),
            _ => {
                let p0 = node.inputs[0];
                proof {
                    assert(mark@[p0 as int]);
                    lemma_earlier_in_plan(mark@, plan@, idx as int, p0 as int);
                }
                let a = memo[p0].as_ref().unwrap();
                if node.inputs.len() > 1 {
                    let p1 = node.inputs[1];
                    proof {
                        assert(mark@[p1 as int]);
                        lemma_earlier_in_plan(mark@, plan@, idx as int, p1 as int);
                    }
                    let b = memo[p1].as_ref().unwrap();
                    forward(&node.op, node.shape, a, b)
                } else {
                    forward(&node.op, node.shape, a, a)
                }
            },
        };
        let ghost before = memo@;
        memo.set(i, Some(m));
        proof {
            ran = ran.push(i);
            assert(ran =~= plan@.subrange(0, idx + 1));
            assert forall|a: int| 0 <= a < idx + 1 implies (memo@[#[trigger] plan@[a] as int] matches Some(
                m,
            ) && m.wf() && m.shape == nodes[plan@[a] as int].shape && m.cells() == value(
                nodes,
                *feed,
                plan@[a] as int,
            )) by {
                if a < idx {
                    assert(plan@[a] < plan@[idx as int]);
                    assert(memo@[plan@[a] as int] == before[plan@[a] as int]);
                }
            }
        }
        idx = idx + 1;
    }
    proof {
        assert forall|k: int| 0 <= k < memo@.len() && #[trigger] mark@[k] implies (memo@[k] matches Some(
            m,
        ) && m.wf() && m.shape == nodes[k].shape && m.cells() == value(nodes, *feed, k)) by {
            let a = choose|a: int| 0 <= a < plan@.len() && plan@[a] == k;
            assert(memo@[plan@[a] as int] is Some);
        }
        assert(ran =~= plan@);
    }
    (memo, Ghost(ran))
}

/// Nothing stops an evaluation of `targets` under `feed`: every target is a
/// node, and every placeholder they need is fed a value of its shape.
pub open spec fn clean<T: Scalar>(ctx: &Context<T>, targets: Seq<NodeId>, feed: Feeder<T>) -> bool {
    &&& all_known(ctx, targets)
    &&& !exists|i: int| #[trigger] missing(ctx.nodes@, targets, feed, i)
    &&& !exists|i: int| #[trigger] wrong_shape(ctx.nodes@, targets, feed, i)
}

/// The record of one evaluation: its plan, the value of each node it computed,
/// and, as a ghost record, the nodes whose forward rule ran, in the order they ran.
pub struct Evaluation<T> {
    pub plan: Vec<NodeId>,
    pub memo: Vec<Option<Matrix<T>>>,
    pub ran: Ghost<Seq<usize>>,
}

/// Evaluates what `targets` of `ctx` need under `feed`, each needed node once:
/// the forward rules run for exactly the nodes of the plan, in its order, and the
/// memo holds the value of exactly those nodes. The errors are those of [`run`].
pub fn evaluate<T: Scalar>(ctx: &Context<T>, targets: &Vec<NodeId>, feed: &Feeder<T>) -> (r: Result<
    Evaluation<T>,
    GraphError,
>)
    requires
        ctx.wf(),
        feed.wf(),
    ensures
        r matches Err(e) ==> !clean(ctx, targets@, *feed) && evaluated(
            ctx,
            targets@,
            *feed,
            Err(e),
        ),
        r matches Ok(ev) ==> clean(ctx, targets@, *feed) && is_plan(ctx.nodes@, targets@, ev.plan@)
            && ev.ran@ == ev.plan@.map_values(|id: NodeId| id.0) && ev.memo@.len()
            == ctx.nodes@.len() && (forall|i: int|
            0 <= i < ev.memo@.len() ==> ((#[trigger] ev.memo@[i]) is Some <==> needed(
                ctx.nodes@,
                targets@,
                i,
            ))) && (forall|i: int|
            0 <= i < ev.memo@.len() ==> (#[trigger] ev.memo@[i] matches Some(m) ==> m.wf()
                && m.shape == ctx.nodes@[i].shape && m.cells() == value(ctx.nodes@, *feed, i))),
{
    if let Some(u) = find_unknown(ctx, targets) {
        return Err(GraphError::UnknownNode { node: targets[u].0 });
    }
    let mark = mark_needed(ctx, targets);
    check_feeds(ctx, Ghost(targets@), &mark, feed)?;
    proof {
        assert forall|i: int|
            0 <= i < mark@.len() && #[trigger] mark@[i] && ctx.nodes@[i].op is Placeholder implies feed.has(
                i as usize,
            ) && feed.value_of(i as usize).shape == ctx.nodes@[i].shape by {
            assert(!missing(ctx.nodes@, targets@, *feed, i));
            assert(!wrong_shape(ctx.nodes@, targets@, *feed, i));
        }
    }
    let order = marked_ids(&mark);
    let (memo, ran) = forward_values(ctx, &mark, &order, feed);
    let mut plan: Vec<NodeId> = Vec::new();
    let mut a: usize = 0;
    while a < order.len()
        invariant
            a <= order@.len(),
            plan@.len() == a,
            forall|b: int| 0 <= b < a ==> (#[trigger] plan@[b]).0 == order@[b],
        decreases order@.len() - a,
    {
        plan.push(NodeId(order[a]));
        a = a + 1;
    }
    proof {
        assert(plan@.map_values(|id: NodeId| id.0) =~= order@);
        assert forall|a2: int, b2: int| 0 <= a2 < b2 < plan@.len() implies plan@[a2].0 < plan@[b2].0 by {
            assert(plan@[a2].0 == order@[a2]);
            assert(plan@[b2].0 == order@[b2]);
        }
        assert forall|a2: int| 0 <= a2 < plan@.len() implies needed(
            ctx.nodes@,
            targets@,
            plan@[a2].0 as int,
        ) by {
            assert(plan@[a2].0 == order@[a2]);
            assert(mark@[order@[a2] as int]);
        }
        assert forall|i: int| 0 <= i < memo@.len() implies ((#[trigger] memo@[i]) is Some <==> needed(
            ctx.nodes@,
            targets@,
            i,
        )) by {
            if mark@[i] {
                assert(memo@[i] is Some);
            } else {
                assert(memo@[i] is None);
            }
        }
        assert forall|k: int|
            0 <= k < ctx.nodes@.len() && needed(ctx.nodes@, targets@, k) implies exists|b: int|
            0 <= b < plan@.len() && plan@[b].0 == k by {
            assert(mark@[k]);
            let b = choose|b: int| 0 <= b < order@.len() && order@[b] == k;
            assert(plan@[b].0 == k);
        }
    }
    Ok(Evaluation { plan, memo, ran })
}

/// Evaluates the given targets of `ctx` under `feed`: one value per target, in
/// request order, read from [`evaluate`]'s memo, so that only nodes that the
/// targets depend on are computed, each once. Nothing is returned unless every
/// target was computed.
pub fn run<T: Scalar>(ctx: &Context<T>, targets: &Vec<NodeId>, feed: &Feeder<T>) -> (r: Result<
    Vec<Matrix<T>>,
    GraphError,
>)
    requires
        ctx.wf(),
        feed.wf(),
    ensures
        evaluated(ctx, targets@, *feed, r),
{
    let ev = match evaluate(ctx, targets, feed) {
        Ok(ev) => ev,
        Err(e) => {
            return Err(e);
        },
    };
    let memo = ev.memo;
    let mut outs: Vec<Matrix<T>> = Vec::new();
    let mut t: usize = 0;
    while t < targets.len()
        invariant
            ctx.wf(),
            all_known(ctx, targets@),
            clean(ctx, targets@, *feed),
            memo@.len() == ctx.nodes@.len(),
            forall|i: int|
                0 <= i < memo@.len() ==> ((#[trigger] memo@[i]) is Some <==> needed(
                    ctx.nodes@,
                    targets@,
                    i,
                )),
            forall|i: int|
                0 <= i < memo@.len() ==> (#[trigger] memo@[i] matches Some(m) ==> m.wf() && m.shape
                    == ctx.nodes@[i].shape && m.cells() == value(ctx.nodes@, *feed, i)),
            t <= targets@.len(),
            outs@.len() == t,
            forall|k: int|
                0 <= k < t ==> (#[trigger] outs@[k]).wf() && outs@[k].shape
                    == ctx.nodes@[targets@[k].0 as int].shape && outs@[k].cells() == value(
                    ctx.nodes@,
                    *feed,
                    targets@[k].0 as int,
                ),
        decreases targets@.len() - t,
    {
        let id = targets[t].0;
        proof {
            assert(ctx.known(targets@[t as int]));
            assert(depends_on(ctx.nodes@, id as int, id as int));
            assert(needed(ctx.nodes@, targets@, id as int));
            assert(memo@[id as int] is Some);
        }
        let m = memo[id].as_ref().unwrap().duplicate();
        outs.push(m);
        t = t + 1;
    }
    Ok(outs)
}

} // verus!
