use vstd::prelude::*;
use crate::scalar::Scalar;
use crate::shape::{Axis, Shape};
use crate::shape;

verus! {

/// A dense two-dimensional tensor, stored as rows. Build one with [`Matrix::new`]
/// or [`Matrix::filled`]; the library only hands out well-formed matrices.
#[derive(Clone, Debug)]
pub struct Matrix<T> {
    pub shape: Shape,
    pub data: Vec<Vec<T>>,
}

/// `c` holds `s.rows` rows of `s.cols` entries each.
pub open spec fn fits<T>(c: Seq<Seq<T>>, s: Shape) -> bool {
    &&& c.len() == s.rows
    &&& forall|i: int| 0 <= i < c.len() ==> (#[trigger] c[i]).len() == s.cols
}

/// The entry of `c` (of shape `s`) that position `(i, j)` of a larger shape reads
/// under broadcasting: an axis of extent 1 is read at index 0.
pub open spec fn stretched_at<T>(c: Seq<Seq<T>>, s: Shape, i: int, j: int) -> T {
    c[if s.rows == 1 { 0 } else { i }][if s.cols == 1 { 0 } else { j }]
}

/// An elementwise function of two operands.
#[derive(Clone, Copy, Debug)]
pub enum Elem<T> {
    Plus,
    Times,
    Relu,
    Sigmoid,
    Negate,
    /// The logarithm of the operand clamped from below to epsilon.
    Ln,
    Clip { min: T, max: T },
    /// The operand divided by `d`.
    Scale { d: T },
    /// The first operand where the second is positive, else zero.
    ReluGrad,
    /// The first operand times `s * (1 - s)`, with `s` the sigmoid of the second.
    SigmoidGrad,
    /// The first operand over the second, or zero where the second is clamped.
    LnGrad,
    /// The first operand where the second lies within the bounds, else zero.
    ClipGrad { min: T, max: T },
    /// The first operand.
    Left,
    /// The first operand less `rate` times the second: a gradient-descent step.
    Step { rate: T },
}

pub open spec fn elem_spec<T: Scalar>(f: Elem<T>, x: T, y: T) -> T {
    match f {
        Elem::Plus => x.spec_plus(y),
        Elem::Times => x.spec_times(y),
        Elem::Relu => if T::spec_zero().spec_less(x) { x } else { T::spec_zero() },
        Elem::Sigmoid => x.spec_sigmoid(),
        Elem::Negate => x.spec_negate(),
        Elem::Ln => if x.spec_less(T::spec_epsilon()) {
            T::spec_epsilon().spec_ln()
        } else {
            x.spec_ln()
        },
        Elem::Clip { min, max } => if x.spec_less(min) {
            min
        } else if max.spec_less(x) {
            max
        } else {
            x
        },
        Elem::Scale { d } => x.spec_over(d),
        Elem::ReluGrad => if T::spec_zero().spec_less(y) { x } else { T::spec_zero() },
        Elem::SigmoidGrad => x.spec_times(
            y.spec_sigmoid().spec_times(T::spec_one().spec_minus(y.spec_sigmoid())),
        ),
        Elem::LnGrad => if y.spec_less(T::spec_epsilon()) {
            T::spec_zero()
        } else {
            x.spec_over(y)
        },
        Elem::ClipGrad { min, max } => if y.spec_less(min) || max.spec_less(y) {
            T::spec_zero()
        } else {
            x
        },
        Elem::Left => x,
        Elem::Step { rate } => x.spec_minus(rate.spec_times(y)),
    }
}

pub fn elem<T: Scalar>(f: Elem<T>, x: T, y: T) -> (r: T)
    ensures
        r == elem_spec(f, x, y),
{
    match f {
        Elem::Plus => x.plus(y),
        Elem::Times => x.times(y),
        Elem::Relu => if T::zero().less(x) { x } else { T::zero() },
        Elem::Sigmoid => x.sigmoid(),
        Elem::Negate => x.negate(),
        Elem::Ln => {
            let eps = T::epsilon();
            if x.less(eps) { eps.ln() } else { x.ln() }
        },
        Elem::Clip { min, max } => if x.less(min) {
            min
        } else if max.less(x) {
            max
        } else {
            x
        },
        Elem::Scale { d } => x.over(d),
        Elem::ReluGrad => if T::zero().less(y) { x } else { T::zero() },
        Elem::SigmoidGrad => {
            let s = y.sigmoid();
            x.times(s.times(T::one().minus(s)))
        },
        Elem::LnGrad => if y.less(T::epsilon()) { T::zero() } else { x.over(y) },
        Elem::ClipGrad { min, max } => if y.less(min) || max.less(y) { T::zero() } else { x },
        Elem::Left => x,
        Elem::Step { rate } => x.minus(rate.times(y)),
    }
}

/// `f` applied at each position of `out`, both operands broadcast to it.
pub open spec fn zip_cells<T: Scalar>(
    f: Elem<T>,
    a: Seq<Seq<T>>,
    sa: Shape,
    b: Seq<Seq<T>>,
    sb: Shape,
    out: Shape,
) -> Seq<Seq<T>> {
    Seq::new(
        out.rows as nat,
        |i: int|
            Seq::new(
                out.cols as nat,
                |j: int| elem_spec(f, stretched_at(a, sa, i, j), stretched_at(b, sb, i, j)),
            ),
    )
}

/// `sum_{t < k} a[i][t] * b[t][j]`, accumulated from the left starting at zero.
pub open spec fn dot<T: Scalar>(a: Seq<Seq<T>>, b: Seq<Seq<T>>, i: int, j: int, k: nat) -> T
    decreases k,
{
    if k == 0 {
        T::spec_zero()
    } else {
        dot(a, b, i, j, (k - 1) as nat).spec_plus(a[i][k - 1].spec_times(b[k - 1][j]))
    }
}

pub open spec fn matmul_cells<T: Scalar>(a: Seq<Seq<T>>, b: Seq<Seq<T>>, m: nat, k: nat, n: nat) -> Seq<
    Seq<T>,
> {
    Seq::new(m, |i: int| Seq::new(n, |j: int| dot(a, b, i, j, k)))
}

pub open spec fn transpose_cells<T>(a: Seq<Seq<T>>, s: Shape) -> Seq<Seq<T>> {
    Seq::new(s.cols as nat, |i: int| Seq::new(s.rows as nat, |j: int| a[j][i]))
}

/// `a[0][j] + ... + a[k-1][j]`, accumulated from the left starting at zero.
pub open spec fn col_sum<T: Scalar>(a: Seq<Seq<T>>, j: int, k: nat) -> T
    decreases k,
{
    if k == 0 {
        T::spec_zero()
    } else {
        col_sum(a, j, (k - 1) as nat).spec_plus(a[k - 1][j])
    }
}

/// `a[i][0] + ... + a[i][k-1]`, accumulated from the left starting at zero.
pub open spec fn row_sum<T: Scalar>(a: Seq<Seq<T>>, i: int, k: nat) -> T
    decreases k,
{
    if k == 0 {
        T::spec_zero()
    } else {
        row_sum(a, i, (k - 1) as nat).spec_plus(a[i][k - 1])
    }
}

pub open spec fn sum_cells<T: Scalar>(a: Seq<Seq<T>>, s: Shape, axis: Axis) -> Seq<Seq<T>> {
    match axis {
        Axis::Rows => seq![Seq::new(s.cols as nat, |j: int| col_sum(a, j, s.rows as nat))],
        Axis::Cols => Seq::new(s.rows as nat, |i: int| seq![row_sum(a, i, s.cols as nat)]),
    }
}

/// The shape after summing `s` down its rows where `target` has one row and `s` has not.
pub open spec fn reduce_rows_shape(s: Shape, target: Shape) -> Shape {
    if target.rows == 1 && s.rows != 1 { shape::reduce_shape(s, Axis::Rows) } else { s }
}

/// A gradient `g` of shape `s` summed back to the shape `target` that was
/// broadcast to `s`: summed along each axis where `target` has extent 1 and `s`
/// has not.
pub open spec fn reduce_to_cells<T: Scalar>(g: Seq<Seq<T>>, s: Shape, target: Shape) -> Seq<Seq<T>> {
    let g1 = if target.rows == 1 && s.rows != 1 { sum_cells(g, s, Axis::Rows) } else { g };
    let s1 = reduce_rows_shape(s, target);
    if target.cols == 1 && s1.cols != 1 { sum_cells(g1, s1, Axis::Cols) } else { g1 }
}

impl<T> Matrix<T> {
    pub open spec fn cells(&self) -> Seq<Seq<T>> {
        self.data@.map_values(|r: Vec<T>| r@)
    }

    pub open spec fn wf(&self) -> bool {
        fits(self.cells(), self.shape)
    }

    /// A matrix of the given shape from its rows, if they fit it.
    pub fn new(shape: Shape, data: Vec<Vec<T>>) -> (r: Option<Matrix<T>>)
        ensures
            r is Some <==> fits(data@.map_values(|v: Vec<T>| v@), shape),
            r matches Some(m) ==> m.shape == shape && m.cells() == data@.map_values(
                |v: Vec<T>| v@,
            ),
    {
        let m = Matrix { shape, data };
        if m.is_wf() {
            Some(m)
        } else {
            None
        }
    }

    pub fn is_wf(&self) -> (r: bool)
        ensures
            r == self.wf(),
    {
        if self.data.len() != self.shape.rows {
            return false;
        }
        let mut i: usize = 0;
        while i < self.data.len()
            invariant
                0 <= i <= self.data@.len(),
                self.data@.len() == self.shape.rows,
                forall|k: int| 0 <= k < i ==> (#[trigger] self.cells()[k]).len() == self.shape.cols,
            decreases self.data@.len() - i,
        {
            if self.data[i].len() != self.shape.cols {
                assert(self.cells()[i as int].len() != self.shape.cols);
                return false;
            }
            i = i + 1;
        }
        true
    }

    pub fn shape(&self) -> (r: Shape)
        ensures
            r == self.shape,
    {
        self.shape
    }

    /// The rows of the matrix.
    pub fn rows(&self) -> (r: &Vec<Vec<T>>)
        ensures
            r@.map_values(|v: Vec<T>| v@) == self.cells(),
    {
        &self.data
    }
}

impl<T: Copy> Matrix<T> {
    /// The entry at row `i`, column `j`.
    pub fn get(&self, i: usize, j: usize) -> (r: T)
        requires
            self.wf(),
            i < self.shape.rows,
            j < self.shape.cols,
        ensures
            r == self.cells()[i as int][j as int],
    {
        assert(self.cells()[i as int] == self.data@[i as int]@);
        self.data[i][j]
    }

    /// A matrix of the given shape with every entry `v`.
    pub fn filled(shape: Shape, v: T) -> (r: Matrix<T>)
        ensures
            r.wf(),
            r.shape == shape,
            forall|i: int, j: int|
                0 <= i < shape.rows && 0 <= j < shape.cols ==> r.cells()[i][j] == v,
    {
        let mut data: Vec<Vec<T>> = Vec::new();
        let mut i: usize = 0;
        while i < shape.rows
            invariant
                i <= shape.rows,
                data@.len() == i,
                forall|k: int| 0 <= k < i ==> (#[trigger] data@[k]@).len() == shape.cols,
                forall|k: int, j: int| 0 <= k < i && 0 <= j < shape.cols ==> data@[k]@[j] == v,
            decreases shape.rows - i,
        {
            let mut row: Vec<T> = Vec::new();
            let mut j: usize = 0;
            while j < shape.cols
                invariant
                    j <= shape.cols,
                    row@.len() == j,
                    forall|t: int| 0 <= t < j ==> row@[t] == v,
                decreases shape.cols - j,
            {
                row.push(v);
                j = j + 1;
            }
            data.push(row);
            i = i + 1;
        }
        Matrix { shape, data }
    }

    /// A copy of the matrix, entry by entry.
    pub fn duplicate(&self) -> (r: Matrix<T>)
        requires
            self.wf(),
        ensures
            r.wf(),
            r.shape == self.shape,
            r.cells() == self.cells(),
    {
        let mut data: Vec<Vec<T>> = Vec::new();
        let mut i: usize = 0;
        while i < self.shape.rows
            invariant
                self.wf(),
                i <= self.shape.rows,
                data@.len() == i,
                forall|k: int| 0 <= k < i ==> (#[trigger] data@[k]@) == self.cells()[k],
            decreases self.shape.rows - i,
        {
            let mut row: Vec<T> = Vec::new();
            let mut j: usize = 0;
            while j < self.shape.cols
                invariant
                    self.wf(),
                    i < self.shape.rows,
                    j <= self.shape.cols,
                    row@.len() == j,
                    forall|t: int| 0 <= t < j ==> row@[t] == self.cells()[i as int][t],
                decreases self.shape.cols - j,
            {
                assert(self.cells()[i as int] == self.data@[i as int]@);
                row.push(self.data[i][j]);
                j = j + 1;
            }
            assert(row@ =~= self.cells()[i as int]);
            data.push(row);
            i = i + 1;
        }
        let r = Matrix { shape: self.shape, data };
        assert(r.cells() =~= self.cells());
        r
    }
}

/// `f` at each position of `out`, with `a` and `b` broadcast to it.
pub fn zip<T: Scalar>(f: Elem<T>, a: &Matrix<T>, b: &Matrix<T>, out: Shape) -> (r: Matrix<T>)
    requires
        a.wf(),
        b.wf(),
        shape::stretches_to(a.shape, out),
        shape::stretches_to(b.shape, out),
    ensures
        r.wf(),
        r.shape == out,
        r.cells() == zip_cells(f, a.cells(), a.shape, b.cells(), b.shape, out),
{
    let ghost want = zip_cells(f, a.cells(), a.shape, b.cells(), b.shape, out);
    let mut data: Vec<Vec<T>> = Vec::new();
    let mut i: usize = 0;
    while i < out.rows
        invariant
            a.wf(),
            b.wf(),
            shape::stretches_to(a.shape, out),
            shape::stretches_to(b.shape, out),
            want == zip_cells(f, a.cells(), a.shape, b.cells(), b.shape, out),
            i <= out.rows,
            data@.len() == i,
            forall|k: int| 0 <= k < i ==> (#[trigger] data@[k]@) == want[k],
        decreases out.rows - i,
    {
        let ai: usize = if a.shape.rows == 1 { 0 } else { i };
        let bi: usize = if b.shape.rows == 1 { 0 } else { i };
        proof {
            assert(a.cells()[ai as int] == a.data@[ai as int]@);
            assert(b.cells()[bi as int] == b.data@[bi as int]@);
        }
        let mut row: Vec<T> = Vec::new();
        let mut j: usize = 0;
        while j < out.cols
            invariant
                a.wf(),
                b.wf(),
                shape::stretches_to(a.shape, out),
                shape::stretches_to(b.shape, out),
                want == zip_cells(f, a.cells(), a.shape, b.cells(), b.shape, out),
                i < out.rows,
                ai == (if a.shape.rows == 1 { 0 } else { i }),
                bi == (if b.shape.rows == 1 { 0 } else { i }),
                a.cells()[ai as int] == a.data@[ai as int]@,
                b.cells()[bi as int] == b.data@[bi as int]@,
                j <= out.cols,
                row@.len() == j,
                forall|t: int| 0 <= t < j ==> row@[t] == want[i as int][t],
            decreases out.cols - j,
        {
            let aj: usize = if a.shape.cols == 1 { 0 } else { j };
            let bj: usize = if b.shape.cols == 1 { 0 } else { j };
            let x = a.data[ai][aj];
            let y = b.data[bi][bj];
            row.push(elem(f, x, y));
            j = j + 1;
        }
        assert(row@ =~= want[i as int]);
        data.push(row);
        i = i + 1;
    }
    let r = Matrix { shape: out, data };
    assert(r.cells() =~= want);
    r
}

/// The matrix product `a x b`.
pub fn matmul<T: Scalar>(a: &Matrix<T>, b: &Matrix<T>) -> (r: Matrix<T>)
    requires
        a.wf(),
        b.wf(),
        a.shape.cols == b.shape.rows,
    ensures
        r.wf(),
        r.shape == (Shape { rows: a.shape.rows, cols: b.shape.cols }),
        r.cells() == matmul_cells(
            a.cells(),
            b.cells(),
            a.shape.rows as nat,
            a.shape.cols as nat,
            b.shape.cols as nat,
        ),
{
    let ghost want = matmul_cells(
        a.cells(),
        b.cells(),
        a.shape.rows as nat,
        a.shape.cols as nat,
        b.shape.cols as nat,
    );
    let mut data: Vec<Vec<T>> = Vec::new();
    let mut i: usize = 0;
    while i < a.shape.rows
        invariant
            a.wf(),
            b.wf(),
            a.shape.cols == b.shape.rows,
            want == matmul_cells(
                a.cells(),
                b.cells(),
                a.shape.rows as nat,
                a.shape.cols as nat,
                b.shape.cols as nat,
            ),
            i <= a.shape.rows,
            data@.len() == i,
            forall|k: int| 0 <= k < i ==> (#[trigger] data@[k]@) == want[k],
        decreases a.shape.rows - i,
    {
        assert(a.cells()[i as int] == a.data@[i as int]@);
        let mut row: Vec<T> = Vec::new();
        let mut j: usize = 0;
        while j < b.shape.cols
            invariant
                a.wf(),
                b.wf(),
                a.shape.cols == b.shape.rows,
                want == matmul_cells(
                    a.cells(),
                    b.cells(),
                    a.shape.rows as nat,
                    a.shape.cols as nat,
                    b.shape.cols as nat,
                ),
                i < a.shape.rows,
                a.cells()[i as int] == a.data@[i as int]@,
                j <= b.shape.cols,
                row@.len() == j,
                forall|t: int| 0 <= t < j ==> row@[t] == want[i as int][t],
            decreases b.shape.cols - j,
        {
            let mut acc = T::zero();
            let mut k: usize = 0;
            while k < a.shape.cols
                invariant
                    a.wf(),
                    b.wf(),
                    a.shape.cols == b.shape.rows,
                    i < a.shape.rows,
                    j < b.shape.cols,
                    a.cells()[i as int] == a.data@[i as int]@,
                    k <= a.shape.cols,
                    acc == dot(a.cells(), b.cells(), i as int, j as int, k as nat),
                decreases a.shape.cols - k,
            {
                assert(b.cells()[k as int] == b.data@[k as int]@);
                let x = a.data[i][k];
                let y = b.data[k][j];
                acc = acc.plus(x.times(y));
                k = k + 1;
            }
            row.push(acc);
            j = j + 1;
        }
        assert(row@ =~= want[i as int]);
        data.push(row);
        i = i + 1;
    }
    let r = Matrix { shape: Shape { rows: a.shape.rows, cols: b.shape.cols }, data };
    assert(r.cells() =~= want);
    r
}

/// The transpose of `a`.
pub fn transpose<T: Copy>(a: &Matrix<T>) -> (r: Matrix<T>)
    requires
        a.wf(),
    ensures
        r.wf(),
        r.shape == shape::transpose_shape(a.shape),
        r.cells() == transpose_cells(a.cells(), a.shape),
{
    let ghost want = transpose_cells(a.cells(), a.shape);
    let mut data: Vec<Vec<T>> = Vec::new();
    let mut i: usize = 0;
    while i < a.shape.cols
        invariant
            a.wf(),
            want == transpose_cells(a.cells(), a.shape),
            i <= a.shape.cols,
            data@.len() == i,
            forall|k: int| 0 <= k < i ==> (#[trigger] data@[k]@) == want[k],
        decreases a.shape.cols - i,
    {
        let mut row: Vec<T> = Vec::new();
        let mut j: usize = 0;
        while j < a.shape.rows
            invariant
                a.wf(),
                want == transpose_cells(a.cells(), a.shape),
                i < a.shape.cols,
                j <= a.shape.rows,
                row@.len() == j,
                forall|t: int| 0 <= t < j ==> row@[t] == want[i as int][t],
            decreases a.shape.rows - j,
        {
            assert(a.cells()[j as int] == a.data@[j as int]@);
            row.push(a.data[j][i]);
            j = j + 1;
        }
        assert(row@ =~= want[i as int]);
        data.push(row);
        i = i + 1;
    }
    let r = Matrix { shape: Shape { rows: a.shape.cols, cols: a.shape.rows }, data };
    assert(r.cells() =~= want);
    r
}

/// `a` summed along `axis`.
pub fn sum_axis<T: Scalar>(a: &Matrix<T>, axis: Axis) -> (r: Matrix<T>)
    requires
        a.wf(),
    ensures
        r.wf(),
        r.shape == shape::reduce_shape(a.shape, axis),
        r.cells() == sum_cells(a.cells(), a.shape, axis),
{
    let ghost want = sum_cells(a.cells(), a.shape, axis);
    match axis {
        Axis::Rows => {
            let mut row: Vec<T> = Vec::new();
            let mut j: usize = 0;
            while j < a.shape.cols
                invariant
                    a.wf(),
                    axis == Axis::Rows,
                    want == sum_cells(a.cells(), a.shape, axis),
                    j <= a.shape.cols,
                    row@.len() == j,
                    forall|t: int| 0 <= t < j ==> row@[t] == want[0][t],
                decreases a.shape.cols - j,
            {
                let mut acc = T::zero();
                let mut k: usize = 0;
                while k < a.shape.rows
                    invariant
                        a.wf(),
                        j < a.shape.cols,
                        k <= a.shape.rows,
                        acc == col_sum(a.cells(), j as int, k as nat),
                    decreases a.shape.rows - k,
                {
                    assert(a.cells()[k as int] == a.data@[k as int]@);
                    acc = acc.plus(a.data[k][j]);
                    k = k + 1;
                }
                row.push(acc);
                j = j + 1;
            }
            assert(row@ =~= want[0]);
            let mut data: Vec<Vec<T>> = Vec::new();
            data.push(row);
            let r = Matrix { shape: Shape { rows: 1, cols: a.shape.cols }, data };
            assert(r.cells() =~= want);
            r
        },
        Axis::Cols => {
            let mut data: Vec<Vec<T>> = Vec::new();
            let mut i: usize = 0;
            while i < a.shape.rows
                invariant
                    a.wf(),
                    axis == Axis::Cols,
                    want == sum_cells(a.cells(), a.shape, axis),
                    i <= a.shape.rows,
                    data@.len() == i,
                    forall|k: int| 0 <= k < i ==> (#[trigger] data@[k]@) == want[k],
                decreases a.shape.rows - i,
            {
                assert(a.cells()[i as int] == a.data@[i as int]@);
                let mut acc = T::zero();
                let mut k: usize = 0;
                while k < a.shape.cols
                    invariant
                        a.wf(),
                        i < a.shape.rows,
                        a.cells()[i as int] == a.data@[i as int]@,
                        k <= a.shape.cols,
                        acc == row_sum(a.cells(), i as int, k as nat),
                    decreases a.shape.cols - k,
                {
                    acc = acc.plus(a.data[i][k]);
                    k = k + 1;
                }
                let mut row: Vec<T> = Vec::new();
                row.push(acc);
                assert(row@ =~= want[i as int]);
                data.push(row);
                i = i + 1;
            }
            let r = Matrix { shape: Shape { rows: a.shape.rows, cols: 1 }, data };
            assert(r.cells() =~= want);
            r
        },
    }
}

/// The gradient `g` summed back to `target`, a shape that broadcasts to `g`'s.
pub fn reduce_to<T: Scalar>(g: Matrix<T>, target: Shape) -> (r: Matrix<T>)
    requires
        g.wf(),
        shape::stretches_to(target, g.shape),
    ensures
        r.wf(),
        r.shape == target,
        r.cells() == reduce_to_cells(g.cells(), g.shape, target),
{
    let g1 = if target.rows == 1 && g.shape.rows != 1 {
        sum_axis(&g, Axis::Rows)
    } else {
        g
    };
    if target.cols == 1 && g1.shape.cols != 1 {
        sum_axis(&g1, Axis::Cols)
    } else {
        g1
    }
}

} // verus!
