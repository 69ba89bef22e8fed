use vstd::prelude::*;

verus! {

/// Whether `names` holds `n`.
pub open spec fn lists(names: Seq<String>, n: Seq<char>) -> bool {
    exists|i: int| 0 <= i < names.len() && (#[trigger] names[i])@ == n
}

/// Evaluation results of several models on several datasets, one value per
/// (model, dataset, metric), with the names of each seen in order of arrival.
#[derive(Clone, Debug)]
pub struct EvaluationReport<V> {
    pub model_names: Vec<String>,
    pub dataset_names: Vec<String>,
    pub metric_names: Vec<String>,
    /// `((model, dataset, metric), value)`, each key once.
    pub results: Vec<((String, String, String), V)>,
}

/// The key of a result as character sequences.
pub open spec fn key_of(k: (String, String, String)) -> (Seq<char>, Seq<char>, Seq<char>) {
    (k.0@, k.1@, k.2@)
}

/// No name occurs twice.
pub open spec fn distinct_names(names: Seq<String>) -> bool {
    forall|i: int, j: int| 0 <= i < j < names.len() ==> (#[trigger] names[i])@ != (#[trigger] names[j])@
}

/// One of the first `upto` metrics is named `k`.
pub open spec fn written<V>(metrics: Seq<(String, V)>, upto: int, k: Seq<char>) -> bool {
    exists|p: int| 0 <= p < upto && (#[trigger] metrics[p]).0@ == k
}

/// `post` is `pre`, with `n` appended where `pre` lacked it.
pub open spec fn noted(pre: Seq<String>, post: Seq<String>, n: Seq<char>) -> bool {
    if lists(pre, n) {
        post == pre
    } else {
        post.len() == pre.len() + 1 && post.subrange(0, pre.len() as int) == pre && post.last()@ == n
    }
}

fn note_name(names: &mut Vec<String>, n: &str)
    requires
        distinct_names(old(names)@),
    ensures
        noted(old(names)@, final(names)@, n@),
        distinct_names(final(names)@),
        lists(final(names)@, n@),
{
    let key = n.to_owned();
    let mut i: usize = 0;
    while i < names.len()
        invariant
            names@ == old(names)@,
            distinct_names(names@),
            i <= names@.len(),
            key@ == n@,
            forall|q: int| 0 <= q < i ==> (#[trigger] names@[q])@ != n@,
        decreases names@.len() - i,
    {
        if names[i] == key {
            assert(names@[i as int]@ == n@);
            return;
        }
        i = i + 1;
    }
    names.push(key);
    proof {
        assert(names@[names@.len() - 1]@ == n@);
        assert(names@.subrange(0, names@.len() - 1) =~= old(names)@);
    }
}

impl<V: Copy> EvaluationReport<V> {
    pub open spec fn wf(&self) -> bool {
        &&& distinct_names(self.model_names@)
        &&& distinct_names(self.dataset_names@)
        &&& distinct_names(self.metric_names@)
        &&& forall|i: int, j: int|
            0 <= i < j < self.results@.len() ==> key_of((#[trigger] self.results@[i]).0) != key_of(
                (#[trigger] self.results@[j]).0,
            )
    }

    /// The report holds a result for this model, dataset and metric.
    pub open spec fn has(&self, m: Seq<char>, d: Seq<char>, k: Seq<char>) -> bool {
        exists|i: int| 0 <= i < self.results@.len() && key_of((#[trigger] self.results@[i]).0) == (m, d, k)
    }

    /// The result for this model, dataset and metric, where there is one.
    pub open spec fn result_of(&self, m: Seq<char>, d: Seq<char>, k: Seq<char>) -> V {
        self.results@[choose|i: int|
            0 <= i < self.results@.len() && key_of((#[trigger] self.results@[i]).0) == (m, d, k)].1
    }

    pub fn new() -> (r: EvaluationReport<V>)
        ensures
            r.wf(),
            r.model_names@.len() == 0 && r.dataset_names@.len() == 0 && r.metric_names@.len() == 0,
            forall|m: Seq<char>, d: Seq<char>, k: Seq<char>| !r.has(m, d, k),
    {
        EvaluationReport {
            model_names: Vec::new(),
            dataset_names: Vec::new(),
            metric_names: Vec::new(),
            results: Vec::new(),
        }
    }

    fn find(&self, m: &String, d: &String, k: &String) -> (r: Option<usize>)
        requires
            self.wf(),
        ensures
            r is None <==> !self.has(m@, d@, k@),
            r matches Some(i) ==> i < self.results@.len() && key_of(self.results@[i as int].0) == (
                m@,
                d@,
                k@,
            ) && self.result_of(m@, d@, k@) == self.results@[i as int].1,
    {
        let mut i: usize = 0;
        while i < self.results.len()
            invariant
                self.wf(),
                i <= self.results@.len(),
                forall|q: int|
                    0 <= q < i ==> key_of((#[trigger] self.results@[q]).0) != (m@, d@, k@),
            decreases self.results@.len() - i,
        {
            let e = &self.results[i].0;
            if e.0 == *m && e.1 == *d && e.2 == *k {
                proof {
                    let c = choose|q: int|
                        0 <= q < self.results@.len() && key_of((#[trigger] self.results@[q]).0) == (
                            m@,
                            d@,
                            k@,
                        );
                    assert(c == i as int);
                }
                return Some(i);
            }
            i = i + 1;
        }
        None
    }

    /// The result for a model on a dataset under a metric, if recorded.
    pub fn get_result(&self, model_name: &str, dataset_name: &str, metric_name: &str) -> (r: Option<V>)
        requires
            self.wf(),
        ensures
            r == (if self.has(model_name@, dataset_name@, metric_name@) {
                Some(self.result_of(model_name@, dataset_name@, metric_name@))
            } else {
                None
            }),
    {
        let m = model_name.to_owned();
        let d = dataset_name.to_owned();
        let k = metric_name.to_owned();
        match self.find(&m, &d, &k) {
            Some(i) => Some(self.results[i].1),
            None => None,
        }
    }

    /// Records `value` for a model on a dataset under a metric, replacing what was
    /// recorded for that key.
    fn put(&mut self, model_name: &str, dataset_name: &str, metric_name: &String, value: V)
        requires
            old(self).wf(),
        ensures
            final(self).wf(),
            final(self).model_names == old(self).model_names,
            final(self).dataset_names == old(self).dataset_names,
            final(self).metric_names == old(self).metric_names,
            final(self).has(model_name@, dataset_name@, metric_name@),
            final(self).result_of(model_name@, dataset_name@, metric_name@) == value,
            forall|m: Seq<char>, d: Seq<char>, k: Seq<char>|
                (m, d, k) != (model_name@, dataset_name@, metric_name@) ==> (final(self).has(m, d, k)
                    == old(self).has(m, d, k) && (old(self).has(m, d, k) ==> final(self).result_of(
                    m,
                    d,
                    k,
                ) == old(self).result_of(m, d, k))),
    {
        let ghost pre = *self;
        let m = model_name.to_owned();
        let d = dataset_name.to_owned();
        let k = metric_name.clone();
        let ghost at: int;
        match self.find(&m, &d, &k) {
            Some(i) => {
                self.results.set(i, ((m, d, k), value));
                proof {
                    at = i as int;
                }
            },
            None => {
                self.results.push(((m, d, k), value));
                proof {
                    at = pre.results@.len() as int;
                }
            },
        }
        proof {
            let key = (model_name@, dataset_name@, metric_name@);
            assert(key_of(self.results@[at].0) == key);
            assert forall|i: int, j: int|
                0 <= i < j < self.results@.len() implies key_of((#[trigger] self.results@[i]).0)
                != key_of((#[trigger] self.results@[j]).0) by {
                if i != at && j != at {
                    assert(key_of(pre.results@[i].0) != key_of(pre.results@[j].0));
                } else if i == at {
                    assert(self.results@[j] == pre.results@[j]);
                } else {
                    assert(self.results@[i] == pre.results@[i]);
                }
            }
            let c = choose|q: int|
                0 <= q < self.results@.len() && key_of((#[trigger] self.results@[q]).0) == key;
            assert(c == at);
            assert forall|m2: Seq<char>, d2: Seq<char>, k2: Seq<char>|
                (m2, d2, k2) != key implies (self.has(m2, d2, k2) == pre.has(m2, d2, k2) && (pre.has(
                m2,
                d2,
                k2,
            ) ==> self.result_of(m2, d2, k2) == pre.result_of(m2, d2, k2))) by {
                if pre.has(m2, d2, k2) {
                    let q = choose|q: int|
                        0 <= q < pre.results@.len() && key_of((#[trigger] pre.results@[q]).0) == (
                            m2,
                            d2,
                            k2,
                        );
                    assert(self.results@[q] == pre.results@[q]);
                    let c2 = choose|q: int|
                        0 <= q < self.results@.len() && key_of((#[trigger] self.results@[q]).0) == (
                            m2,
                            d2,
                            k2,
                        );
                    assert(c2 == q);
                }
                if self.has(m2, d2, k2) {
                    let q = choose|q: int|
                        0 <= q < self.results@.len() && key_of((#[trigger] self.results@[q]).0) == (
                            m2,
                            d2,
                            k2,
                        );
                    assert(q != at);
                    assert(pre.results@[q] == self.results@[q]);
                }
            }
        }
    }

    /// Records the results of a model on a dataset, one per metric: each metric's
    /// value replaces what was recorded for that key, the other results stay, and
    /// the model, the dataset and each metric join the name lists if new.
    pub fn add_results(&mut self, model_name: &str, dataset_name: &str, metrics: Vec<(String, V)>)
        requires
            old(self).wf(),
            distinct_names(metrics@.map_values(|e: (String, V)| e.0)),
        ensures
            final(self).wf(),
            noted(old(self).model_names@, final(self).model_names@, model_name@),
            noted(old(self).dataset_names@, final(self).dataset_names@, dataset_name@),
            final(self).metric_names@.subrange(0, old(self).metric_names@.len() as int)
                == old(self).metric_names@,
            forall|i: int|
                0 <= i < final(self).metric_names@.len() ==> lists(
                    old(self).metric_names@,
                    (#[trigger] final(self).metric_names@[i])@,
                ) || exists|q: int|
                    0 <= q < metrics@.len() && (#[trigger] metrics@[q]).0@ == final(self).metric_names@[i]@,
            forall|q: int|
                0 <= q < metrics@.len() ==> lists(final(self).metric_names@, (#[trigger] metrics@[q]).0@)
                    && final(self).has(model_name@, dataset_name@, metrics@[q].0@) && final(self).result_of(model_name@, dataset_name@, metrics@[q].0@) == metrics@[q].1,
            forall|m: Seq<char>, d: Seq<char>, k: Seq<char>|
                #![trigger final(self).has(m, d, k)]
                #![trigger old(self).has(m, d, k)]
                !(m == model_name@ && d == dataset_name@ && written(metrics@, metrics@.len() as int, k))
                    ==> (final(self).has(m, d, k) == old(self).has(m, d, k) && (old(self).has(m, d, k)
                    ==> final(self).result_of(m, d, k) == old(self).result_of(m, d, k))),
    {
        note_name(&mut self.model_names, model_name);
        note_name(&mut self.dataset_names, dataset_name);
        let ghost mid = *self;
        let mut q: usize = 0;
        while q < metrics.len()
            invariant
                self.wf(),
                distinct_names(metrics@.map_values(|e: (String, V)| e.0)),
                self.model_names == mid.model_names,
                self.dataset_names == mid.dataset_names,
                q <= metrics@.len(),
                self.metric_names@.subrange(0, old(self).metric_names@.len() as int)
                    == old(self).metric_names@,
                old(self).metric_names@.len() <= self.metric_names@.len(),
                forall|i: int|
                    0 <= i < self.metric_names@.len() ==> lists(
                        old(self).metric_names@,
                        (#[trigger] self.metric_names@[i])@,
                    ) || exists|p: int|
                        0 <= p < metrics@.len() && (#[trigger] metrics@[p]).0@
                            == self.metric_names@[i]@,
                forall|p: int|
                    0 <= p < q ==> lists(self.metric_names@, (#[trigger] metrics@[p]).0@)
                        && self.has(model_name@, dataset_name@, metrics@[p].0@) && self.result_of(
                        model_name@,
                        dataset_name@,
                        metrics@[p].0@,
                    ) == metrics@[p].1,
                forall|m: Seq<char>, d: Seq<char>, k: Seq<char>|
                    #![trigger self.has(m, d, k)]
                    #![trigger mid.has(m, d, k)]
                    !(m == model_name@ && d == dataset_name@ && written(metrics@, q as int, k)) ==> (
                    self.has(m, d, k) == mid.has(m, d, k) && (mid.has(m, d, k) ==> self.result_of(
                        m,
                        d,
                        k,
                    ) == mid.result_of(m, d, k))),
                mid.results == old(self).results,
            decreases metrics@.len() - q,
        {
            let ghost pre = *self;
            let name = &metrics[q].0;
            note_name(&mut self.metric_names, name.as_str());
            let ghost s1 = *self;
            assert(s1.results == pre.results);
            self.put(model_name, dataset_name, name, metrics[q].1);
            proof {
                assert forall|p: int| 0 <= p < q implies metrics@[p].0@ != metrics@[q as int].0@ by {
                    let names = metrics@.map_values(|e: (String, V)| e.0);
                    assert(names[p] == metrics@[p].0);
                    assert(names[q as int] == metrics@[q as int].0);
                }
                assert forall|i: int| 0 <= i < self.metric_names@.len() implies lists(
                    old(self).metric_names@,
                    (#[trigger] self.metric_names@[i])@,
                ) || exists|p: int|
                    0 <= p < metrics@.len() && (#[trigger] metrics@[p]).0@ == self.metric_names@[i]@ by {
                    if i < pre.metric_names@.len() {
                        assert(self.metric_names@[i] == pre.metric_names@[i]);
                    } else {
                        assert(self.metric_names@[i]@ == metrics@[q as int].0@);
                    }
                }
                assert(self.metric_names@.subrange(0, old(self).metric_names@.len() as int)
                    =~= old(self).metric_names@) by {
                    assert forall|i: int| 0 <= i < old(self).metric_names@.len() implies self.metric_names@[i]
                        == pre.metric_names@[i] by {
                        assert(pre.metric_names@.subrange(0, old(self).metric_names@.len() as int)[i]
                            == old(self).metric_names@[i]);
                    }
                }
                assert forall|p: int| 0 <= p < q + 1 implies self.has(
                    model_name@,
                    dataset_name@,
                    (#[trigger] metrics@[p]).0@,
                ) && self.result_of(model_name@, dataset_name@, metrics@[p].0@) == metrics@[p].1 by {
                    if p < q {
                        assert(s1.has(model_name@, dataset_name@, metrics@[p].0@));
                        assert(s1.result_of(model_name@, dataset_name@, metrics@[p].0@) == metrics@[p].1);
                        assert(metrics@[p].0@ != metrics@[q as int].0@);
                        assert((model_name@, dataset_name@, metrics@[p].0@) != (
                            model_name@,
                            dataset_name@,
                            metrics@[q as int].0@,
                        ));
                    }
                }
                assert forall|m: Seq<char>, d: Seq<char>, k: Seq<char>|
                    !(m == model_name@ && d == dataset_name@ && written(metrics@, q + 1, k)) implies (
                    self.has(m, d, k) == mid.has(m, d, k) && (mid.has(m, d, k) ==> self.result_of(
                        m,
                        d,
                        k,
                    ) == mid.result_of(m, d, k))) by {
                    if m == model_name@ && d == dataset_name@ && k == metrics@[q as int].0@ {
                        assert(metrics@[q as int].0@ == k);
                        assert(written(metrics@, q + 1, k));
                    }
                    assert((m, d, k) != (model_name@, dataset_name@, metrics@[q as int].0@));
                    if m == model_name@ && d == dataset_name@ && written(metrics@, q as int, k) {
                        let p = choose|p: int| 0 <= p < q && (#[trigger] metrics@[p]).0@ == k;
                        assert(written(metrics@, q + 1, k));
                    }
                    assert(s1.has(m, d, k) == pre.has(m, d, k));
                    assert(s1.result_of(m, d, k) == pre.result_of(m, d, k));
                }
                assert forall|p: int| 0 <= p < q + 1 implies lists(
                    self.metric_names@,
                    (#[trigger] metrics@[p]).0@,
                ) by {
                    if p < q {
                        let w = choose|w: int|
                            0 <= w < pre.metric_names@.len() && (#[trigger] pre.metric_names@[w])@
                                == metrics@[p].0@;
                        assert(self.metric_names@[w] == pre.metric_names@[w]);
                    }
                }
            }
            q = q + 1;
        }
        proof {
            assert forall|m: Seq<char>, d: Seq<char>, k: Seq<char>|
                !(m == model_name@ && d == dataset_name@ && written(metrics@, metrics@.len() as int, k))
                    implies (self.has(m, d, k) == old(self).has(m, d, k) && (old(self).has(m, d, k)
                ==> self.result_of(m, d, k) == old(self).result_of(m, d, k))) by {
                assert(mid.results@ == old(self).results@);
                assert(self.has(m, d, k) == mid.has(m, d, k));
            }
        }
    }
}

} // verus!
