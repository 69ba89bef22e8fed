use autograd::{
    evaluate, gradients, gradients_with_seed, plan, run, AttentionType, Axis, Context, ContinuousDistribution,
    DiscreteDistribution, Distribution, Feeder, GradientMap, GraphError, IntegrateError, Matrix,
    MultivariateDistribution, NodeId, OpKind, PlotOptions, RNNCellType, Scalar, Shape, StatsError,
    VariableEnvironment,
};

#[derive(Clone, Copy, Debug, PartialEq)]
struct R(f64);

impl Scalar for R {
    fn spec_zero() -> R {
        R::zero()
    }
    fn spec_one() -> R {
        R::one()
    }
    fn spec_epsilon() -> R {
        R::epsilon()
    }
    fn spec_infinity() -> R {
        R::infinity()
    }
    fn spec_machine_epsilon() -> R {
        R::machine_epsilon()
    }
    fn spec_from_count(n: usize) -> R {
        R::from_count(n)
    }
    fn spec_plus(self, o: R) -> R {
        self.plus(o)
    }
    fn spec_minus(self, o: R) -> R {
        self.minus(o)
    }
    fn spec_times(self, o: R) -> R {
        self.times(o)
    }
    fn spec_over(self, o: R) -> R {
        self.over(o)
    }
    fn spec_negate(self) -> R {
        self.negate()
    }
    fn spec_ln(self) -> R {
        Scalar::ln(self)
    }
    fn spec_sigmoid(self) -> R {
        self.sigmoid()
    }
    fn spec_less(self, o: R) -> bool {
        self.less(o)
    }
    fn spec_less_eq(self, o: R) -> bool {
        self.less_eq(o)
    }
    fn zero() -> R {
        R(0.0)
    }
    fn one() -> R {
        R(1.0)
    }
    fn epsilon() -> R {
        R(1e-7)
    }
    fn infinity() -> R {
        R(f64::INFINITY)
    }
    fn machine_epsilon() -> R {
        R(f64::EPSILON)
    }
    fn from_count(n: usize) -> R {
        R(n as f64)
    }
    fn plus(self, o: R) -> R {
        R(self.0 + o.0)
    }
    fn minus(self, o: R) -> R {
        R(self.0 - o.0)
    }
    fn times(self, o: R) -> R {
        R(self.0 * o.0)
    }
    fn over(self, o: R) -> R {
        R(self.0 / o.0)
    }
    fn negate(self) -> R {
        R(-self.0)
    }
    fn ln(self) -> R {
        R(self.0.ln())
    }
    fn sigmoid(self) -> R {
        R(1.0 / (1.0 + (-self.0).exp()))
    }
    fn less(self, o: R) -> bool {
        self.0 < o.0
    }
    fn less_eq(self, o: R) -> bool {
        self.0 <= o.0
    }
}

fn mat(rows: &[&[f64]]) -> Matrix<R> {
    let r = rows.len();
    let c = if r == 0 { 0 } else { rows[0].len() };
    let data: Vec<Vec<R>> = rows.iter().map(|row| row.iter().map(|v| R(*v)).collect()).collect();
    Matrix::new(Shape::new(r, c), data).expect("rectangular rows")
}

fn values(m: &Matrix<R>) -> Vec<Vec<f64>> {
    m.rows().iter().map(|row| row.iter().map(|v| v.0).collect()).collect()
}

fn ok(r: Result<NodeId, GraphError>) -> NodeId {
    r.expect("node builds")
}

fn scalar_of(m: &Matrix<R>) -> f64 {
    assert_eq!(m.shape(), Shape::new(1, 1));
    m.get(0, 0).0
}

// ---------------------------------------------------------------- shapes

#[test]
fn matmul_shape_is_outer_dimensions() {
    for (m, k, n) in [(1, 1, 1), (2, 3, 4), (4, 2, 3), (5, 1, 7), (3, 0, 2)] {
        let r = Shape::new(m, k).matmul(Shape::new(k, n));
        assert_eq!(r, Ok(Shape::new(m, n)));
    }
}

#[test]
fn matmul_inner_mismatch_is_shape_mismatch() {
    let r = Shape::new(2, 3).matmul(Shape::new(4, 2));
    assert_eq!(
        r,
        Err(GraphError::ShapeMismatch {
            op: OpKind::MatMul,
            lhs: Shape::new(2, 3),
            rhs: Shape::new(4, 2)
        })
    );
    // a row vector never broadcasts into a product
    let r = Shape::new(2, 3).matmul(Shape::new(1, 3));
    assert!(matches!(r, Err(GraphError::ShapeMismatch { .. })));
}

#[test]
fn context_matmul_checks_shapes_at_construction() {
    let mut ctx: Context<R> = Context::new();
    let a = ctx.placeholder("a", Shape::new(4, 2));
    let b = ctx.placeholder("b", Shape::new(2, 3));
    let c = ctx.placeholder("c", Shape::new(3, 3));
    let ab = ok(ctx.matmul(a, b));
    assert_eq!(ctx.shape_of(ab), Ok(Shape::new(4, 3)));
    let before = ctx.len();
    let bad = ctx.matmul(a, c);
    assert_eq!(
        bad,
        Err(GraphError::ShapeMismatch { op: OpKind::MatMul, lhs: Shape::new(4, 2), rhs: Shape::new(3, 3) })
    );
    assert_eq!(ctx.len(), before);
}

#[test]
fn broadcasting_shapes() {
    assert_eq!(Shape::new(4, 3).broadcast(Shape::new(1, 3), OpKind::Add), Ok(Shape::new(4, 3)));
    assert_eq!(Shape::new(4, 1).broadcast(Shape::new(1, 3), OpKind::Mul), Ok(Shape::new(4, 3)));
    assert_eq!(Shape::new(1, 1).broadcast(Shape::new(2, 5), OpKind::Add), Ok(Shape::new(2, 5)));
    assert_eq!(
        Shape::new(2, 3).broadcast(Shape::new(3, 2), OpKind::Add),
        Err(GraphError::ShapeMismatch { op: OpKind::Add, lhs: Shape::new(2, 3), rhs: Shape::new(3, 2) })
    );
}

#[test]
fn reductions_have_reduced_shapes() {
    assert_eq!(Shape::new(4, 3).reduce(Axis::Rows), Shape::new(1, 3));
    assert_eq!(Shape::new(4, 3).reduce(Axis::Cols), Shape::new(4, 1));
}

// ---------------------------------------------------------------- construction errors

#[test]
fn unknown_node_is_reported() {
    let mut ctx: Context<R> = Context::new();
    let a = ctx.placeholder("a", Shape::new(1, 1));
    assert_eq!(ctx.add(a, NodeId(7)), Err(GraphError::UnknownNode { node: 7 }));
    assert_eq!(ctx.relu(NodeId(3)), Err(GraphError::UnknownNode { node: 3 }));
    assert_eq!(ctx.len(), 1);
}

#[test]
fn mean_over_empty_axis_is_domain_error() {
    let mut ctx: Context<R> = Context::new();
    let a = ctx.placeholder("a", Shape::new(0, 3));
    assert_eq!(
        ctx.mean(a, Axis::Rows),
        Err(GraphError::DomainError { op: OpKind::Mean, shape: Shape::new(0, 3) })
    );
    let m = ok(ctx.mean(a, Axis::Cols));
    assert_eq!(ctx.shape_of(m), Ok(Shape::new(0, 1)));
}

#[test]
fn clip_with_inverted_bounds_is_domain_error() {
    let mut ctx: Context<R> = Context::new();
    let a = ctx.placeholder("a", Shape::new(2, 2));
    assert_eq!(
        ctx.clip(a, R(1.0), R(0.0)),
        Err(GraphError::DomainError { op: OpKind::Clip, shape: Shape::new(2, 2) })
    );
}

#[test]
fn unknown_variable_is_reported() {
    let env: VariableEnvironment<R> = VariableEnvironment::new();
    let mut ctx: Context<R> = Context::new();
    assert_eq!(ctx.variable(&env, "w"), Err(GraphError::UnknownVariable { name: "w".to_string() }));
    assert_eq!(ctx.len(), 0);
}

#[test]
fn matrix_rejects_ragged_rows() {
    let r = Matrix::new(Shape::new(2, 2), vec![vec![R(1.0), R(2.0)], vec![R(3.0)]]);
    assert!(r.is_none());
    let r = Matrix::new(Shape::new(3, 2), vec![vec![R(1.0), R(2.0)], vec![R(3.0), R(4.0)]]);
    assert!(r.is_none());
}

// ---------------------------------------------------------------- forward values

#[test]
fn forward_values_of_each_kind() {
    let mut ctx: Context<R> = Context::new();
    let x = ctx.placeholder("x", Shape::new(2, 2));
    let row = ctx.constant(mat(&[&[10.0, 20.0]]));
    let sum = ok(ctx.add(x, row));
    let prod = ok(ctx.mul(x, x));
    let mm = ok(ctx.matmul(x, x));
    let relu = ok(ctx.relu(x));
    let neg = ok(ctx.neg(x));
    let clip = ok(ctx.clip(x, R(-1.0), R(2.0)));
    let sr = ok(ctx.sum(x, Axis::Rows));
    let sc = ok(ctx.sum(x, Axis::Cols));
    let mr = ok(ctx.mean(x, Axis::Rows));
    let feed = Feeder::new().push(x, mat(&[&[1.0, -2.0], &[3.0, 4.0]]));
    let out = run(&ctx, &vec![sum, prod, mm, relu, neg, clip, sr, sc, mr], &feed).unwrap();
    assert_eq!(values(&out[0]), vec![vec![11.0, 18.0], vec![13.0, 24.0]]);
    assert_eq!(values(&out[1]), vec![vec![1.0, 4.0], vec![9.0, 16.0]]);
    assert_eq!(values(&out[2]), vec![vec![-5.0, -10.0], vec![15.0, 10.0]]);
    assert_eq!(values(&out[3]), vec![vec![1.0, 0.0], vec![3.0, 4.0]]);
    assert_eq!(values(&out[4]), vec![vec![-1.0, 2.0], vec![-3.0, -4.0]]);
    assert_eq!(values(&out[5]), vec![vec![1.0, -1.0], vec![2.0, 2.0]]);
    assert_eq!(values(&out[6]), vec![vec![4.0, 2.0]]);
    assert_eq!(values(&out[7]), vec![vec![-1.0], vec![7.0]]);
    assert_eq!(values(&out[8]), vec![vec![2.0, 1.0]]);
}

#[test]
fn sigmoid_and_clamped_ln() {
    let mut ctx: Context<R> = Context::new();
    let x = ctx.placeholder("x", Shape::new(1, 3));
    let s = ok(ctx.sigmoid(x));
    let l = ok(ctx.ln(x));
    let feed = Feeder::new().push(x, mat(&[&[0.0, 1.0, -5.0]]));
    let out = run(&ctx, &vec![s, l], &feed).unwrap();
    let sv = values(&out[0]);
    assert_eq!(sv[0][0], 0.5);
    assert!((sv[0][1] - 0.7310585786300049).abs() < 1e-12);
    let lv = values(&out[1]);
    // zero and negative operands are clamped to epsilon before the logarithm
    assert_eq!(lv[0][0], (1e-7f64).ln());
    assert_eq!(lv[0][1], 0.0);
    assert_eq!(lv[0][2], (1e-7f64).ln());
}

#[test]
fn results_come_in_request_order() {
    let mut ctx: Context<R> = Context::new();
    let a = ctx.constant(mat(&[&[1.0]]));
    let b = ctx.constant(mat(&[&[2.0]]));
    let out = run(&ctx, &vec![b, a, b], &Feeder::new()).unwrap();
    assert_eq!(out.len(), 3);
    assert_eq!(scalar_of(&out[0]), 2.0);
    assert_eq!(scalar_of(&out[1]), 1.0);
    assert_eq!(scalar_of(&out[2]), 2.0);
}

#[test]
fn missing_feed_is_reported() {
    let mut ctx: Context<R> = Context::new();
    let x = ctx.placeholder("x", Shape::new(1, 2));
    let y = ctx.placeholder("y", Shape::new(1, 2));
    let s = ok(ctx.add(x, y));
    let t = ok(ctx.relu(s));
    let feed = Feeder::new().push(x, mat(&[&[1.0, 2.0]]));
    let r = run(&ctx, &vec![t], &feed);
    assert_eq!(r.unwrap_err(), GraphError::MissingFeed { node: y.0, name: "y".to_string() });
}

#[test]
fn unneeded_placeholder_may_stay_unfed() {
    let mut ctx: Context<R> = Context::new();
    let x = ctx.placeholder("x", Shape::new(1, 1));
    let _unused = ctx.placeholder("unused", Shape::new(1, 1));
    let y = ok(ctx.neg(x));
    let feed = Feeder::new().push(x, mat(&[&[3.0]]));
    let out = run(&ctx, &vec![y], &feed).unwrap();
    assert_eq!(scalar_of(&out[0]), -3.0);
}

#[test]
fn wrongly_shaped_feed_is_shape_mismatch() {
    let mut ctx: Context<R> = Context::new();
    let x = ctx.placeholder("x", Shape::new(2, 2));
    let y = ok(ctx.neg(x));
    let feed = Feeder::new().push(x, mat(&[&[1.0, 2.0]]));
    assert_eq!(
        run(&ctx, &vec![y], &feed).unwrap_err(),
        GraphError::ShapeMismatch { op: OpKind::Placeholder, lhs: Shape::new(2, 2), rhs: Shape::new(1, 2) }
    );
}

#[test]
fn unknown_target_is_reported() {
    let ctx: Context<R> = Context::new();
    assert_eq!(run(&ctx, &vec![NodeId(0)], &Feeder::new()).unwrap_err(), GraphError::UnknownNode { node: 0 });
}

#[test]
fn later_push_replaces_a_feed() {
    let mut ctx: Context<R> = Context::new();
    let x = ctx.placeholder("x", Shape::new(1, 1));
    let feed = Feeder::new().push(x, mat(&[&[1.0]])).push(x, mat(&[&[5.0]]));
    assert_eq!(scalar_of(&run(&ctx, &vec![x], &feed).unwrap()[0]), 5.0);
}

#[test]
fn evaluation_is_repeatable() {
    let mut ctx: Context<R> = Context::new();
    let x = ctx.placeholder("x", Shape::new(2, 3));
    let w = ctx.constant(mat(&[&[0.3], &[-1.7], &[2.2]]));
    let h = ok(ctx.matmul(x, w));
    let s = ok(ctx.sigmoid(h));
    let l = ok(ctx.ln(s));
    let m = ok(ctx.mean(l, Axis::Rows));
    let feed = Feeder::new().push(x, mat(&[&[0.1, 0.2, 0.3], &[-0.4, 0.5, -0.6]]));
    let a = run(&ctx, &vec![m, s], &feed).unwrap();
    let b = run(&ctx, &vec![m, s], &feed).unwrap();
    assert_eq!(a.len(), b.len());
    for (p, q) in a.iter().zip(b.iter()) {
        let pv = values(p);
        let qv = values(q);
        for (rp, rq) in pv.iter().zip(qv.iter()) {
            for (vp, vq) in rp.iter().zip(rq.iter()) {
                assert_eq!(vp.to_bits(), vq.to_bits());
            }
        }
    }
}

// ---------------------------------------------------------------- planning

#[test]
fn shared_node_is_planned_once() {
    let mut ctx: Context<R> = Context::new();
    let x = ctx.placeholder("x", Shape::new(2, 2));
    let _unused = ctx.placeholder("z", Shape::new(2, 2));
    let s = ok(ctx.sigmoid(x));
    let y1 = ok(ctx.add(s, s));
    let y2 = ok(ctx.mul(s, s));
    let p = plan(&ctx, &vec![y1, y2]).unwrap();
    assert_eq!(p, vec![x, s, y1, y2]);
    assert_eq!(p.iter().filter(|n| **n == s).count(), 1);
}

#[test]
fn plan_of_unknown_target_fails() {
    let ctx: Context<R> = Context::new();
    assert_eq!(plan(&ctx, &vec![NodeId(2)]), Err(GraphError::UnknownNode { node: 2 }));
}

// ---------------------------------------------------------------- variables

#[test]
fn variable_nodes_hold_a_snapshot() {
    let mut env: VariableEnvironment<R> = VariableEnvironment::new();
    env.set("w", mat(&[&[1.0, 2.0]]));
    let mut ctx: Context<R> = Context::new();
    let w = ctx.variable(&env, "w").unwrap();
    env.set("w", mat(&[&[5.0, 6.0]]));
    let out = run(&ctx, &vec![w], &Feeder::new()).unwrap();
    assert_eq!(values(&out[0]), vec![vec![1.0, 2.0]]);
    let mut ctx2: Context<R> = Context::new();
    let w2 = ctx2.variable(&env, "w").unwrap();
    let out2 = run(&ctx2, &vec![w2], &Feeder::new()).unwrap();
    assert_eq!(values(&out2[0]), vec![vec![5.0, 6.0]]);
}

#[test]
fn gradient_step_updates_a_variable() {
    let mut env: VariableEnvironment<R> = VariableEnvironment::new();
    env.set("w", mat(&[&[1.0, 2.0], &[3.0, 4.0]]));
    env.set("b", mat(&[&[7.0]]));
    env.apply_gradient("w", &mat(&[&[0.5, -1.0], &[0.0, 2.0]]), R(0.5)).unwrap();
    assert_eq!(values(env.get("w").unwrap()), vec![vec![0.75, 2.5], vec![3.0, 3.0]]);
    assert_eq!(values(env.get("b").unwrap()), vec![vec![7.0]]);
    assert_eq!(
        env.apply_gradient("w", &mat(&[&[1.0]]), R(0.5)),
        Err(GraphError::ShapeMismatch { op: OpKind::Variable, lhs: Shape::new(2, 2), rhs: Shape::new(1, 1) })
    );
    assert_eq!(
        env.apply_gradient("v", &mat(&[&[1.0]]), R(0.5)),
        Err(GraphError::UnknownVariable { name: "v".to_string() })
    );
    assert_eq!(values(env.get("w").unwrap()), vec![vec![0.75, 2.5], vec![3.0, 3.0]]);
}

#[test]
fn environment_get_and_set() {
    let mut env: VariableEnvironment<R> = VariableEnvironment::new();
    assert!(env.get("a").is_none());
    env.set("a", mat(&[&[1.0]]));
    env.set("b", mat(&[&[2.0]]));
    env.set("a", mat(&[&[3.0]]));
    assert_eq!(scalar_of(env.get("a").unwrap()), 3.0);
    assert_eq!(scalar_of(env.get("b").unwrap()), 2.0);
    assert_eq!(env.entries.len(), 2);
}

// ---------------------------------------------------------------- gradients

fn grad_values(g: &GradientMap<R>, n: NodeId) -> Vec<Vec<f64>> {
    values(g.get(n).expect("node has a gradient"))
}

#[test]
fn shared_operand_gradient_is_two() {
    let mut ctx: Context<R> = Context::new();
    let x = ctx.placeholder("x", Shape::new(2, 3));
    let y = ok(ctx.add(x, x));
    let feed = Feeder::new().push(x, mat(&[&[1.0, -2.0, 0.5], &[3.0, 0.0, 9.0]]));
    let seed = Matrix::filled(Shape::new(2, 3), R(1.0));
    let g = gradients_with_seed(&ctx, y, &feed, seed).unwrap();
    assert_eq!(grad_values(&g, x), vec![vec![2.0; 3]; 2]);
}

#[test]
fn square_gradient_sums_both_uses() {
    let mut ctx: Context<R> = Context::new();
    let x = ctx.placeholder("x", Shape::new(1, 1));
    let y = ok(ctx.mul(x, x));
    let feed = Feeder::new().push(x, mat(&[&[3.0]]));
    let g = gradients(&ctx, y, &feed).unwrap();
    assert_eq!(grad_values(&g, x), vec![vec![6.0]]);
}

#[test]
fn broadcast_gradient_is_summed_back() {
    let mut ctx: Context<R> = Context::new();
    let x = ctx.placeholder("x", Shape::new(3, 2));
    let b = ctx.placeholder("b", Shape::new(1, 2));
    let s = ok(ctx.add(x, b));
    let t = ok(ctx.sum(s, Axis::Rows));
    let u = ok(ctx.sum(t, Axis::Cols));
    let feed = Feeder::new().push(x, mat(&[&[1.0, 2.0], &[3.0, 4.0], &[5.0, 6.0]])).push(b, mat(&[&[0.5, 0.5]]));
    let g = gradients(&ctx, u, &feed).unwrap();
    assert_eq!(grad_values(&g, b), vec![vec![3.0, 3.0]]);
    assert_eq!(grad_values(&g, x), vec![vec![1.0, 1.0]; 3]);
}

#[test]
fn unreachable_nodes_have_no_gradient() {
    let mut ctx: Context<R> = Context::new();
    let x = ctx.placeholder("x", Shape::new(1, 1));
    let other = ctx.constant(mat(&[&[4.0]]));
    let y = ok(ctx.neg(x));
    let later = ok(ctx.add(y, other));
    let feed = Feeder::new().push(x, mat(&[&[2.0]]));
    let g = gradients(&ctx, y, &feed).unwrap();
    assert_eq!(grad_values(&g, x), vec![vec![-1.0]]);
    assert!(g.get(other).is_none());
    assert!(g.get(later).is_none());
    assert!(g.get(NodeId(99)).is_none());
}

#[test]
fn non_scalar_loss_needs_a_seed() {
    let mut ctx: Context<R> = Context::new();
    let x = ctx.placeholder("x", Shape::new(2, 2));
    let y = ok(ctx.relu(x));
    let feed = Feeder::new().push(x, mat(&[&[1.0, 2.0], &[3.0, 4.0]]));
    assert_eq!(
        gradients(&ctx, y, &feed).unwrap_err(),
        GraphError::ShapeMismatch { op: OpKind::Relu, lhs: Shape::new(2, 2), rhs: Shape::new(1, 1) }
    );
    let bad_seed = Matrix::filled(Shape::new(1, 2), R(1.0));
    assert_eq!(
        gradients_with_seed(&ctx, y, &feed, bad_seed).unwrap_err(),
        GraphError::ShapeMismatch { op: OpKind::Relu, lhs: Shape::new(2, 2), rhs: Shape::new(1, 2) }
    );
}

#[test]
fn gradient_reports_missing_feed() {
    let mut ctx: Context<R> = Context::new();
    let x = ctx.placeholder("x", Shape::new(1, 1));
    let y = ok(ctx.neg(x));
    assert_eq!(
        gradients(&ctx, y, &Feeder::new()).unwrap_err(),
        GraphError::MissingFeed { node: x.0, name: "x".to_string() }
    );
    assert_eq!(gradients(&ctx, NodeId(5), &Feeder::new()).unwrap_err(), GraphError::UnknownNode { node: 5 });
}

// A scalar loss `sum(sum(op(x, y) * w))` of one operation, its analytic gradient
// with respect to `x` (and `y`), and central differences.
fn check_op(
    build: &dyn Fn(&mut Context<R>, NodeId, NodeId) -> NodeId,
    x0: &[&[f64]],
    y0: &[&[f64]],
    w0: &[&[f64]],
) {
    let mut ctx: Context<R> = Context::new();
    let xs = Shape::new(x0.len(), x0[0].len());
    let ys = Shape::new(y0.len(), y0[0].len());
    let x = ctx.placeholder("x", xs);
    let y = ctx.placeholder("y", ys);
    let z = build(&mut ctx, x, y);
    let w = ctx.constant(mat(w0));
    let p = ok(ctx.mul(z, w));
    let s = ok(ctx.sum(p, Axis::Rows));
    let loss = ok(ctx.sum(s, Axis::Cols));
    let loss_at = |xv: &Vec<Vec<f64>>, yv: &Vec<Vec<f64>>| -> f64 {
        let xr: Vec<&[f64]> = xv.iter().map(|r| r.as_slice()).collect();
        let yr: Vec<&[f64]> = yv.iter().map(|r| r.as_slice()).collect();
        let feed = Feeder::new().push(x, mat(&xr)).push(y, mat(&yr));
        scalar_of(&run(&ctx, &vec![loss], &feed).unwrap()[0])
    };
    let xv: Vec<Vec<f64>> = x0.iter().map(|r| r.to_vec()).collect();
    let yv: Vec<Vec<f64>> = y0.iter().map(|r| r.to_vec()).collect();
    let feed = Feeder::new().push(x, mat(x0)).push(y, mat(y0));
    let g = gradients(&ctx, loss, &feed).unwrap();
    let h = 1e-6;
    for (which, base) in [(x, &xv), (y, &yv)] {
        let analytic = match g.get(which) {
            Some(m) => values(m),
            None => base.iter().map(|r| vec![0.0; r.len()]).collect(),
        };
        for i in 0..base.len() {
            for j in 0..base[i].len() {
                let mut up = base.clone();
                up[i][j] += h;
                let mut down = base.clone();
                down[i][j] -= h;
                let (fu, fd) = if which == x {
                    (loss_at(&up, &yv), loss_at(&down, &yv))
                } else {
                    (loss_at(&xv, &up), loss_at(&xv, &down))
                };
                let numeric = (fu - fd) / (2.0 * h);
                let a = analytic[i][j];
                let tol = 1e-4 * (1.0 + a.abs().max(numeric.abs()));
                assert!((a - numeric).abs() <= tol, "entry ({}, {}): analytic {} numeric {}", i, j, a, numeric);
            }
        }
    }
}

const X23: &[&[f64]] = &[&[0.3, -0.7, 1.2], &[0.5, 0.9, -1.4]];
const W23: &[&[f64]] = &[&[0.2, -0.5, 0.7], &[1.1, 0.4, -0.3]];

#[test]
fn finite_difference_add_with_broadcast() {
    check_op(&|c, x, y| c.add(x, y).unwrap(), X23, &[&[0.1, 0.2, 0.3]], W23);
}

#[test]
fn finite_difference_mul_with_broadcast() {
    check_op(&|c, x, y| c.mul(x, y).unwrap(), X23, &[&[0.6], &[-0.8]], W23);
}

#[test]
fn finite_difference_matmul() {
    check_op(
        &|c, x, y| c.matmul(x, y).unwrap(),
        X23,
        &[&[0.5, -0.2], &[0.3, 0.8], &[-0.6, 0.4]],
        &[&[0.9, -0.4], &[0.25, 0.6]],
    );
}

#[test]
fn finite_difference_relu() {
    check_op(&|c, x, _| c.relu(x).unwrap(), X23, &[&[0.0]], W23);
}

#[test]
fn finite_difference_sigmoid() {
    check_op(&|c, x, _| c.sigmoid(x).unwrap(), X23, &[&[0.0]], W23);
}

#[test]
fn finite_difference_neg() {
    check_op(&|c, x, _| c.neg(x).unwrap(), X23, &[&[0.0]], W23);
}

#[test]
fn finite_difference_ln() {
    check_op(&|c, x, _| c.ln(x).unwrap(), &[&[0.3, 0.7, 1.2], &[0.5, 0.9, 1.4]], &[&[0.0]], W23);
}

#[test]
fn finite_difference_clip() {
    check_op(&|c, x, _| c.clip(x, R(-1.0), R(1.0)).unwrap(), X23, &[&[0.0]], W23);
}

#[test]
fn finite_difference_sum_and_mean() {
    check_op(&|c, x, _| c.sum(x, Axis::Rows).unwrap(), X23, &[&[0.0]], &[&[0.3, -0.6, 0.9]]);
    check_op(&|c, x, _| c.sum(x, Axis::Cols).unwrap(), X23, &[&[0.0]], &[&[0.3], &[-0.6]]);
    check_op(&|c, x, _| c.mean(x, Axis::Rows).unwrap(), X23, &[&[0.0]], &[&[0.3, -0.6, 0.9]]);
    check_op(&|c, x, _| c.mean(x, Axis::Cols).unwrap(), X23, &[&[0.0]], &[&[0.3], &[-0.6]]);
}

// ---------------------------------------------------------------- end to end

fn sub(ctx: &mut Context<R>, a: NodeId, b: NodeId) -> NodeId {
    let nb = ok(ctx.neg(b));
    ok(ctx.add(a, nb))
}

fn mean_all(ctx: &mut Context<R>, a: NodeId) -> NodeId {
    let m = ok(ctx.mean(a, Axis::Rows));
    ok(ctx.mean(m, Axis::Cols))
}

#[test]
fn xor_network_learns() {
    let x_data = mat(&[&[0.0, 0.0], &[0.0, 1.0], &[1.0, 0.0], &[1.0, 1.0]]);
    let y_data = mat(&[&[0.0], &[1.0], &[1.0], &[0.0]]);
    let mut env: VariableEnvironment<R> = VariableEnvironment::new();
    env.set("w1", mat(&[&[0.5, -0.4, 0.3], &[-0.6, 0.7, 0.2]]));
    env.set("b1", mat(&[&[0.1, 0.1, 0.1]]));
    env.set("w2", mat(&[&[0.6], &[0.5], &[-0.3]]));
    env.set("b2", mat(&[&[0.0]]));
    let names = ["w1", "b1", "w2", "b2"];
    let lr = 0.5;
    let mut last_loss = f64::INFINITY;
    let mut last_pred = Vec::new();
    for _ in 0..1000 {
        let mut ctx: Context<R> = Context::new();
        let x = ctx.placeholder("x", Shape::new(4, 2));
        let y = ctx.placeholder("y", Shape::new(4, 1));
        let vars: Vec<NodeId> = names.iter().map(|n| ctx.variable(&env, n).unwrap()).collect();
        let xw = ok(ctx.matmul(x, vars[0]));
        let pre = ok(ctx.add(xw, vars[1]));
        let h = ok(ctx.relu(pre));
        let hw = ok(ctx.matmul(h, vars[2]));
        let logits = ok(ctx.add(hw, vars[3]));
        let pred = ok(ctx.sigmoid(logits));
        let clipped = ok(ctx.clip(pred, R(1e-7), R(1.0 - 1e-7)));
        let ones = ctx.ones(Shape::new(4, 1));
        let log_p = ok(ctx.ln(clipped));
        let pos = ok(ctx.mul(y, log_p));
        let one_minus_y = sub(&mut ctx, ones, y);
        let one_minus_p = sub(&mut ctx, ones, clipped);
        let log_q = ok(ctx.ln(one_minus_p));
        let neg_part = ok(ctx.mul(one_minus_y, log_q));
        let total = ok(ctx.add(pos, neg_part));
        let avg = mean_all(&mut ctx, total);
        let loss = ok(ctx.neg(avg));
        let feed = Feeder::new().push(x, x_data.clone()).push(y, y_data.clone());
        let out = run(&ctx, &vec![loss, pred], &feed).unwrap();
        last_loss = scalar_of(&out[0]);
        last_pred = values(&out[1]);
        let g = gradients(&ctx, loss, &feed).unwrap();
        for (name, v) in names.iter().zip(vars.iter()) {
            env.apply_gradient(name, g.get(*v).unwrap(), R(lr)).unwrap();
        }
    }
    assert!(last_loss < 0.1, "final loss {}", last_loss);
    let target = [0.0, 1.0, 1.0, 0.0];
    for i in 0..4 {
        let p = last_pred[i][0];
        assert!((p - target[i]).abs() < (p - (1.0 - target[i])).abs(), "prediction {} for row {}", p, i);
    }
}

// ---------------------------------------------------------------- other items

#[test]
fn error_messages() {
    assert_eq!(
        IntegrateError::ConvergenceError("after 50 steps".to_string()).message(),
        "Convergence error: after 50 steps"
    );
    assert_eq!(IntegrateError::StepSizeTooSmall("h".to_string()).message(), "Step size too small: h");
    assert_eq!(GraphError::UnknownNode { node: 1 }.message(), "unknown node");
}

#[test]
fn plot_options_default() {
    let o = PlotOptions::default();
    assert_eq!((o.width, o.height, o.max_x_ticks, o.max_y_ticks), (80, 20, 10, 5));
    assert_eq!((o.line_char, o.point_char, o.background_char), ('\u{2500}', '\u{25CF}', ' '));
    assert!(o.show_grid && o.show_legend);
}

#[test]
fn model_enums() {
    assert_ne!(RNNCellType::LSTM, RNNCellType::GRU);
    assert_eq!(RNNCellType::SimpleRNN, RNNCellType::SimpleRNN);
    assert_ne!(AttentionType::Additive, AttentionType::General);
    assert_eq!(AttentionType::Multiplicative, AttentionType::Multiplicative);
}

struct Exponential {
    rate: f64,
}

impl Distribution<R> for Exponential {
    fn mean(&self) -> R {
        R(1.0 / self.rate)
    }
    fn var(&self) -> R {
        R(1.0 / (self.rate * self.rate))
    }
    fn std_dev(&self) -> R {
        R(1.0 / self.rate)
    }
    fn rvs(&self, size: usize) -> Result<Vec<R>, StatsError> {
        Ok(vec![R(1.0 / self.rate); size])
    }
    fn entropy(&self) -> R {
        R(1.0 - self.rate.ln())
    }
}

impl ContinuousDistribution<R> for Exponential {
    fn spec_pdf(&self, x: R) -> R {
        self.pdf(x)
    }
    fn spec_cdf(&self, x: R) -> R {
        self.cdf(x)
    }
    fn pdf(&self, x: R) -> R {
        R(if x.0 < 0.0 { 0.0 } else { self.rate * (-self.rate * x.0).exp() })
    }
    fn cdf(&self, x: R) -> R {
        R(if x.0 < 0.0 { 0.0 } else { 1.0 - (-self.rate * x.0).exp() })
    }
    fn ppf(&self, p: R) -> Result<R, StatsError> {
        if p.0 < 0.0 || p.0 >= 1.0 {
            Err(StatsError::DomainError("p".to_string()))
        } else {
            Ok(R(-(1.0 - p.0).ln() / self.rate))
        }
    }
}

#[test]
fn continuous_distribution_defaults() {
    let d = Exponential { rate: 2.0 };
    assert!((d.sf(R(1.0)).0 - (-2.0f64).exp()).abs() < 1e-12);
    // the exponential distribution has a constant hazard equal to its rate
    assert!((d.hazard(R(0.7)).0 - 2.0).abs() < 1e-9);
    assert!((d.cumhazard(R(1.5)).0 - 3.0).abs() < 1e-9);
    assert!((d.isf(R(0.25)).unwrap().0 - d.ppf(R(0.75)).unwrap().0).abs() < 1e-12);
    assert_eq!(d.hazard(R(1e6)).0, f64::INFINITY);
    assert!(d.isf(R(0.0)).is_err());
}

struct Bernoulli {
    p: f64,
}

impl Distribution<R> for Bernoulli {
    fn mean(&self) -> R {
        R(self.p)
    }
    fn var(&self) -> R {
        R(self.p * (1.0 - self.p))
    }
    fn std_dev(&self) -> R {
        R((self.p * (1.0 - self.p)).sqrt())
    }
    fn rvs(&self, size: usize) -> Result<Vec<R>, StatsError> {
        Ok(vec![R(0.0); size])
    }
    fn entropy(&self) -> R {
        R(-(self.p * self.p.ln() + (1.0 - self.p) * (1.0 - self.p).ln()))
    }
}

impl DiscreteDistribution<R> for Bernoulli {
    fn spec_pmf(&self, x: R) -> R {
        self.pmf(x)
    }
    fn spec_cdf(&self, x: R) -> R {
        self.cdf(x)
    }
    fn pmf(&self, x: R) -> R {
        R(if x.0 == 1.0 { self.p } else if x.0 == 0.0 { 1.0 - self.p } else { 0.0 })
    }
    fn cdf(&self, x: R) -> R {
        R(if x.0 < 0.0 { 0.0 } else if x.0 < 1.0 { 1.0 - self.p } else { 1.0 })
    }
    fn ppf(&self, q: R) -> Result<R, StatsError> {
        Ok(R(if q.0 <= 1.0 - self.p { 0.0 } else { 1.0 }))
    }
}

#[test]
fn discrete_distribution_defaults() {
    let d = Bernoulli { p: 0.25 };
    assert_eq!(d.sf(R(0.0)).0, 0.25);
    assert_eq!(d.logpmf(R(1.0)).0, (0.25f64).ln());
    assert_eq!(d.isf(R(0.5)).unwrap().0, 0.0);
    assert_eq!(d.isf(R(0.1)).unwrap().0, 1.0);
}

struct StdNormal2;

impl Distribution<R> for StdNormal2 {
    fn mean(&self) -> R {
        R(0.0)
    }
    fn var(&self) -> R {
        R(1.0)
    }
    fn std_dev(&self) -> R {
        R(1.0)
    }
    fn rvs(&self, size: usize) -> Result<Vec<R>, StatsError> {
        Ok(vec![R(0.0); size])
    }
    fn entropy(&self) -> R {
        R(1.0 + (2.0 * std::f64::consts::PI).ln())
    }
}

impl MultivariateDistribution<R> for StdNormal2 {
    fn spec_pdf(&self, x: &[R]) -> R {
        self.pdf(x)
    }
    fn pdf(&self, x: &[R]) -> R {
        let q: f64 = x.iter().map(|v| v.0 * v.0).sum();
        R((-0.5 * q).exp() / (2.0 * std::f64::consts::PI))
    }
    fn rvs_single(&self) -> Result<Vec<R>, StatsError> {
        Ok(vec![R(0.0), R(0.0)])
    }
}

#[test]
fn multivariate_logpdf() {
    let d = StdNormal2;
    let x = [R(1.0), R(-1.0)];
    let expected = -1.0 - (2.0 * std::f64::consts::PI).ln();
    assert!((d.logpdf(&x).0 - expected).abs() < 1e-12);
}

#[test]
fn evaluate_memoizes_exactly_the_plan() {
    let mut ctx: Context<R> = Context::new();
    let x = ctx.placeholder("x", Shape::new(1, 2));
    let unused = ctx.constant(mat(&[&[1.0, 1.0]]));
    let s = ok(ctx.sigmoid(x));
    let y1 = ok(ctx.add(s, s));
    let y2 = ok(ctx.mul(s, s));
    let feed = Feeder::new().push(x, mat(&[&[0.0, 0.0]]));
    let ev = evaluate(&ctx, &vec![y1, y2], &feed).unwrap();
    assert_eq!(ev.plan, vec![x, s, y1, y2]);
    assert!(ev.memo[unused.0].is_none());
    for n in [x, s, y1, y2] {
        assert!(ev.memo[n.0].is_some());
    }
    assert_eq!(values(ev.memo[y2.0].as_ref().unwrap()), vec![vec![0.25, 0.25]]);
}

#[test]
fn run_time_well_formedness_checks() {
    let mut ctx: Context<R> = Context::new();
    let x = ctx.placeholder("x", Shape::new(2, 2));
    let _y = ok(ctx.relu(x));
    assert!(ctx.is_wf());
    ctx.nodes[1].shape = Shape::new(3, 3);
    assert!(!ctx.is_wf());
    ctx.nodes[1].shape = Shape::new(2, 2);
    ctx.nodes[1].inputs = vec![1];
    assert!(!ctx.is_wf());

    let f = Feeder::new().push(x, mat(&[&[1.0, 2.0], &[3.0, 4.0]]));
    assert!(f.is_wf());
    let mut g = Feeder::new().push(x, mat(&[&[1.0]]));
    g.entries.push((x.0, mat(&[&[2.0]])));
    assert!(!g.is_wf());

    let mut env: VariableEnvironment<R> = VariableEnvironment::new();
    env.set("w", mat(&[&[1.0]]));
    assert!(env.is_wf());
    env.entries.push(("w".to_string(), mat(&[&[2.0]])));
    assert!(!env.is_wf());
}

#[test]
fn hazard_uses_machine_epsilon() {
    let d = Exponential { rate: 1.0 };
    // survival exp(-17) is about 4e-8: below the logarithm's clamp, above machine epsilon
    assert!((d.hazard(R(17.0)).0 - 1.0).abs() < 1e-6);
}
