use vstd::prelude::*;
use crate::graph::NodeId;
use crate::tensor::Matrix;

verus! {

/// The values given to placeholders for one evaluation, keyed by node id.
#[derive(Debug)]
pub struct Feeder<T> {
    pub entries: Vec<(usize, Matrix<T>)>,
}

impl<T> Feeder<T> {
    /// Ids are unique and every value is well formed.
    pub open spec fn wf(&self) -> bool {
        &&& forall|i: int, j: int|
            0 <= i < j < self.entries@.len() ==> (#[trigger] self.entries@[i]).0
                != (#[trigger] self.entries@[j]).0
        &&& forall|i: int| 0 <= i < self.entries@.len() ==> (#[trigger] self.entries@[i]).1.wf()
    }

    pub open spec fn has(&self, id: usize) -> bool {
        exists|i: int| 0 <= i < self.entries@.len() && (#[trigger] self.entries@[i]).0 == id
    }

    pub open spec fn value_of(&self, id: usize) -> Matrix<T> {
        self.entries@[choose|i: int|
            0 <= i < self.entries@.len() && (#[trigger] self.entries@[i]).0 == id].1
    }

    pub fn new() -> (r: Feeder<T>)
        ensures
            r.wf(),
            forall|id: usize| !r.has(id),
    {
        Feeder { entries: Vec::new() }
    }

    /// The position of `id`'s entry.
    pub fn find(&self, id: usize) -> (r: Option<usize>)
        requires
            self.wf(),
        ensures
            r is None <==> !self.has(id),
            r matches Some(i) ==> i < self.entries@.len() && self.entries@[i as int].0 == id
                && self.value_of(id) == self.entries@[i as int].1,
    {
        let mut i: usize = 0;
        while i < self.entries.len()
            invariant
                self.wf(),
                i <= self.entries@.len(),
                forall|k: int| 0 <= k < i ==> (#[trigger] self.entries@[k]).0 != id,
            decreases self.entries@.len() - i,
        {
            if self.entries[i].0 == id {
                proof {
                    let c = choose|k: int|
                        0 <= k < self.entries@.len() && (#[trigger] self.entries@[k]).0 == id;
                    assert(c == i as int);
                }
                return Some(i);
            }
            i = i + 1;
        }
        None
    }

    /// The feeder with `value` given to `node`, replacing what it was given before.
    pub fn push(self, node: NodeId, value: Matrix<T>) -> (r: Feeder<T>)
        requires
            self.wf(),
            value.wf(),
        ensures
            r.wf(),
            r.has(node.0),
            r.value_of(node.0) == value,
            forall|id: usize|
                id != node.0 ==> (r.has(id) == self.has(id) && (self.has(id) ==> r.value_of(id)
                    == self.value_of(id))),
    {
        let ghost pre = self;
        let mut f = self;
        let id = node.0;
        let ghost at: int;
        match f.find(id) {
            Some(i) => {
                f.entries.set(i, (id, value));
                proof {
                    at = i as int;
                }
            },
            None => {
                f.entries.push((id, value));
                proof {
                    at = f.entries@.len() - 1;
                }
            },
        }
        proof {
            assert(f.entries@[at].0 == id);
            let j = choose|k: int| 0 <= k < f.entries@.len() && (#[trigger] f.entries@[k]).0 == id;
            assert(f.entries@[j].1 == value);
            assert forall|n: usize| n != id implies (f.has(n) == pre.has(n) && (pre.has(n)
                ==> f.value_of(n) == pre.value_of(n))) by {
                if pre.has(n) {
                    let k = choose|k: int|
                        0 <= k < pre.entries@.len() && (#[trigger] pre.entries@[k]).0 == n;
                    assert(f.entries@[k].0 == n);
                    let c2 = choose|k: int|
                        0 <= k < f.entries@.len() && (#[trigger] f.entries@[k]).0 == n;
                    assert(c2 == k);
                }
                if f.has(n) {
                    let k = choose|k: int|
                        0 <= k < f.entries@.len() && (#[trigger] f.entries@[k]).0 == n;
                    assert(k < pre.entries@.len());
                    assert(pre.entries@[k].0 == n);
                }
            }
        }
        f
    }
}

impl<T> Feeder<T> {
    /// Whether the feeder is well formed, checked at run time.
    pub fn is_wf(&self) -> (r: bool)
        ensures
            r == self.wf(),
    {
        let n = self.entries.len();
        let mut i: usize = 0;
        while i < n
            invariant
                n == self.entries@.len(),
                i <= n,
                forall|a: int, b: int|
                    0 <= a < b < n && a < i ==> (#[trigger] self.entries@[a]).0
                        != (#[trigger] self.entries@[b]).0,
                forall|a: int| 0 <= a < i ==> (#[trigger] self.entries@[a]).1.wf(),
            decreases n - i,
        {
            if !self.entries[i].1.is_wf() {
                return false;
            }
            let mut j: usize = i + 1;
            while j < n
                invariant
                    n == self.entries@.len(),
                    i < n,
                    i + 1 <= j <= n,
                    forall|b: int| i < b < j ==> self.entries@[i as int].0 != (#[trigger] self.entries@[b]).0,
                decreases n - j,
            {
                if self.entries[i].0 == self.entries[j].0 {
                    return false;
                }
                j = j + 1;
            }
            i = i + 1;
        }
        true
    }
}

} // verus!
