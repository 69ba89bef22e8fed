use vstd::prelude::*;
use crate::error::{GraphError, OpKind};
use crate::scalar::Scalar;
use crate::tensor::{Elem, Matrix, zip};
use crate::tensor;

verus! {

/// Named parameter matrices that outlive the contexts built against them.
///
/// Names are unique. A context reads a snapshot of a variable when it creates
/// the variable's node; later changes here are seen only by later nodes.
#[derive(Debug)]
pub struct VariableEnvironment<T> {
    pub entries: Vec<(String, Matrix<T>)>,
}

impl<T> VariableEnvironment<T> {
    pub open spec fn wf(&self) -> bool {
        &&& forall|i: int, j: int|
            0 <= i < j < self.entries@.len() ==> (#[trigger] self.entries@[i]).0@
                != (#[trigger] self.entries@[j]).0@
        &&& forall|i: int| 0 <= i < self.entries@.len() ==> (#[trigger] self.entries@[i]).1.wf()
    }

    /// The environment holds a variable named `name`.
    pub open spec fn has(&self, name: Seq<char>) -> bool {
        exists|i: int| 0 <= i < self.entries@.len() && (#[trigger] self.entries@[i]).0@ == name
    }

    /// The value of the variable named `name`, where there is one.
    pub open spec fn value_of(&self, name: Seq<char>) -> Matrix<T> {
        self.entries@[choose|i: int|
            0 <= i < self.entries@.len() && (#[trigger] self.entries@[i]).0@ == name].1
    }

    pub fn new() -> (r: VariableEnvironment<T>)
        ensures
            r.wf(),
            forall|n: Seq<char>| !r.has(n),
    {
        VariableEnvironment { entries: Vec::new() }
    }

    fn find(&self, name: &String) -> (r: Option<usize>)
        requires
            self.wf(),
        ensures
            r is None <==> !self.has(name@),
            r matches Some(i) ==> i < self.entries@.len() && self.entries@[i as int].0@ == name@,
    {
        let mut i: usize = 0;
        while i < self.entries.len()
            invariant
                i <= self.entries@.len(),
                forall|k: int| 0 <= k < i ==> (#[trigger] self.entries@[k]).0@ != name@,
            decreases self.entries@.len() - i,
        {
            if self.entries[i].0 == *name {
                return Some(i);
            }
            i = i + 1;
        }
        None
    }

    /// The current value of the variable named `name`.
    pub fn get(&self, name: &str) -> (r: Option<&Matrix<T>>)
        requires
            self.wf(),
        ensures
            r is Some <==> self.has(name@),
            r matches Some(m) ==> *m == self.value_of(name@),
    {
        let key = name.to_owned();
        match self.find(&key) {
            Some(i) => {
                proof {
                    let c = choose|k: int|
                        0 <= k < self.entries@.len() && (#[trigger] self.entries@[k]).0@ == name@;
                    assert(c == i as int);
                }
                Some(&self.entries[i].1)
            },
            None => None,
        }
    }

    /// Sets the variable named `name` to `value`, creating it if absent.
    pub fn set(&mut self, name: &str, value: Matrix<T>)
        requires
            old(self).wf(),
            value.wf(),
        ensures
            final(self).wf(),
            final(self).has(name@),
            final(self).value_of(name@) == value,
            forall|n: Seq<char>|
                n != name@ ==> (final(self).has(n) == old(self).has(n) && (old(self).has(n)
                    ==> final(self).value_of(n) == old(self).value_of(n))),
    {
        let ghost pre = *self;
        let key = name.to_owned();
        let ghost at: int;
        match self.find(&key) {
            Some(i) => {
                self.entries.set(i, (key, value));
                proof {
                    at = i as int;
                }
            },
            None => {
                self.entries.push((key, value));
                proof {
                    at = pre.entries@.len() as int;
                }
            },
        }
        proof {
            lemma_written_at(pre, *self, at, name@);
        }
    }
}

/// `post` is `pre` with the entry at `at` written (or appended, where `at` is
/// `pre`'s length) under the name `name`, which `pre` holds at `at` or not at all:
/// `post` holds `name` with the written value and every other name as before.
proof fn lemma_written_at<T>(
    pre: VariableEnvironment<T>,
    post: VariableEnvironment<T>,
    at: int,
    name: Seq<char>,
)
    requires
        0 <= at <= pre.entries@.len(),
        at == pre.entries@.len() ==> !pre.has(name) && post.entries@.len() == pre.entries@.len() + 1,
        at < pre.entries@.len() ==> pre.entries@[at].0@ == name && post.entries@.len()
            == pre.entries@.len(),
        post.entries@[at].0@ == name,
        forall|k: int| 0 <= k < pre.entries@.len() && k != at ==> post.entries@[k] == pre.entries@[k],
        pre.wf(),
        post.entries@[at].1.wf(),
    ensures
        post.wf(),
        post.has(name),
        post.value_of(name) == post.entries@[at].1,
        forall|n: Seq<char>|
            n != name ==> (post.has(n) == pre.has(n) && (pre.has(n) ==> post.value_of(n)
                == pre.value_of(n))),
{
    assert forall|i: int, j: int|
        0 <= i < j < post.entries@.len() implies (#[trigger] post.entries@[i]).0@
        != (#[trigger] post.entries@[j]).0@ by {
        if i != at && j != at {
            assert(pre.entries@[i].0@ != pre.entries@[j].0@);
        } else if i == at {
            assert(post.entries@[j] == pre.entries@[j]);
        } else {
            assert(post.entries@[i] == pre.entries@[i]);
        }
    }
    let c = choose|k: int| 0 <= k < post.entries@.len() && (#[trigger] post.entries@[k]).0@ == name;
    assert(c == at);
    assert forall|n: Seq<char>| n != name implies (post.has(n) == pre.has(n) && (pre.has(n)
        ==> post.value_of(n) == pre.value_of(n))) by {
        if pre.has(n) {
            let k = choose|k: int| 0 <= k < pre.entries@.len() && (#[trigger] pre.entries@[k]).0@ == n;
            assert(post.entries@[k].0@ == n);
            let c2 = choose|k: int| 0 <= k < post.entries@.len() && (#[trigger] post.entries@[k]).0@ == n;
            assert(c2 == k);
        }
        if post.has(n) {
            let k = choose|k: int| 0 <= k < post.entries@.len() && (#[trigger] post.entries@[k]).0@ == n;
            assert(k != at);
            assert(pre.entries@[k].0@ == n);
        }
    }
}

impl<T> VariableEnvironment<T> {
    /// Whether the environment is well formed, checked at run time.
    pub fn is_wf(&self) -> (r: bool)
        ensures
            r == self.wf(),
    {
        let n = self.entries.len();
        let mut i: usize = 0;
        while i < n
            invariant
                n == self.entries@.len(),
                i <= n,
                forall|a: int, b: int|
                    0 <= a < b < n && a < i ==> (#[trigger] self.entries@[a]).0@
                        != (#[trigger] self.entries@[b]).0@,
                forall|a: int| 0 <= a < i ==> (#[trigger] self.entries@[a]).1.wf(),
            decreases n - i,
        {
            if !self.entries[i].1.is_wf() {
                return false;
            }
            let mut j: usize = i + 1;
            while j < n
                invariant
                    n == self.entries@.len(),
                    i < n,
                    i + 1 <= j <= n,
                    forall|b: int|
                        i < b < j ==> self.entries@[i as int].0@ != (#[trigger] self.entries@[b]).0@,
                decreases n - j,
            {
                if self.entries[i].0 == self.entries[j].0 {
                    return false;
                }
                j = j + 1;
            }
            i = i + 1;
        }
        true
    }
}

impl<T: Scalar> VariableEnvironment<T> {
    /// One gradient-descent step on the variable `name`: each entry becomes
    /// `value - rate * gradient`. Fails, changing nothing, when there is no such
    /// variable or the gradient has another shape.
    pub fn apply_gradient(&mut self, name: &str, gradient: &Matrix<T>, rate: T) -> (r: Result<
        (),
        GraphError,
    >)
        requires
            old(self).wf(),
            gradient.wf(),
        ensures
            final(self).wf(),
            !old(self).has(name@) ==> (r matches Err(GraphError::UnknownVariable { name: n }) && n@
                == name@) && final(self).entries@ == old(self).entries@,
            old(self).has(name@) && old(self).value_of(name@).shape != gradient.shape ==> r
                == Err::<(), GraphError>(
                GraphError::ShapeMismatch {
                    op: OpKind::Variable,
                    lhs: old(self).value_of(name@).shape,
                    rhs: gradient.shape,
                },
            ) && final(self).entries@ == old(self).entries@,
            old(self).has(name@) && old(self).value_of(name@).shape == gradient.shape ==> r is Ok
                && final(self).has(name@) && final(self).value_of(name@).shape == gradient.shape
                && final(self).value_of(name@).cells() == tensor::zip_cells(
                Elem::Step { rate },
                old(self).value_of(name@).cells(),
                gradient.shape,
                gradient.cells(),
                gradient.shape,
                gradient.shape,
            ) && forall|n: Seq<char>|
                n != name@ ==> (final(self).has(n) == old(self).has(n) && (old(self).has(n)
                    ==> final(self).value_of(n) == old(self).value_of(n))),
    {
        let key = name.to_owned();
        match self.find(&key) {
            None => Err(GraphError::UnknownVariable { name: key }),
            Some(i) => {
                proof {
                    let c = choose|k: int|
                        0 <= k < self.entries@.len() && (#[trigger] self.entries@[k]).0@ == name@;
                    assert(c == i as int);
                }
                let current = &self.entries[i].1;
                if current.shape != gradient.shape {
                    return Err(
                        GraphError::ShapeMismatch {
                            op: OpKind::Variable,
                            lhs: current.shape,
                            rhs: gradient.shape,
                        },
                    );
                }
                let next = zip(Elem::Step { rate }, current, gradient, gradient.shape);
                self.set(name, next);
                Ok(())
            },
        }
    }
}

} // verus!
