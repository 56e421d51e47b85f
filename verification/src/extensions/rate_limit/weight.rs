//! The weight of each RPC method in rate limiting: how many cells a call takes.
use vstd::prelude::*;
use crate::config::keys::{compare_keys, KeyOrder};
use crate::config::rpc::RpcMethod;

verus! {

/// The weight that the last entry for `method` in `entries` gives it, if any.
pub open spec fn weight_of(entries: Seq<(String, u32)>, method: Seq<char>) -> Option<u32>
    decreases entries.len(),
{
    if entries.len() == 0 {
        None
    } else if entries.last().0@ == method {
        Some(entries.last().1)
    } else {
        weight_of(entries.drop_last(), method)
    }
}

/// The weights given to methods by a list of definitions: the last definition of a
/// method counts.
pub open spec fn weights_from(methods: Seq<RpcMethod>) -> Map<Seq<char>, u32>
    decreases methods.len(),
{
    if methods.len() == 0 {
        Map::empty()
    } else {
        weights_from(methods.drop_last()).insert(methods.last().method@, methods.last().rate_limit_weight)
    }
}

/// The weight of `method` under `weights`: its own, or 1 if it has none.
pub open spec fn weight_in(weights: Map<Seq<char>, u32>, method: Seq<char>) -> u32 {
    if weights.contains_key(method) {
        weights[method]
    } else {
        1
    }
}

/// The weight of each method that has one; a method without one weighs 1.
#[derive(Clone, Debug, Default)]
pub struct MethodWeights(pub(crate) Vec<(String, u32)>);

impl MethodWeights {
    /// The weights, by method name.
    pub closed spec fn view(&self) -> Map<Seq<char>, u32> {
        Map::new(|k: Seq<char>| weight_of(self.0@, k) is Some, |k: Seq<char>| weight_of(self.0@, k).unwrap())
    }

    /// No method has a weight of its own.
    pub fn new() -> (w: Self)
        ensures
            w.view() == Map::<Seq<char>, u32>::empty(),
    {
        let w = MethodWeights(Vec::new());
        assert(w.view() =~= Map::<Seq<char>, u32>::empty());
        w
    }

    /// Gives `method` the weight `weight`, in place of any it had.
    pub fn add(&mut self, method: &str, weight: u32)
        ensures
            final(self).view() == old(self).view().insert(method@, weight),
    {
        let ghost before = self.0@;
        self.0.push((method.to_owned(), weight));
        proof {
            assert(self.0@.drop_last() =~= before);
            assert forall|k: Seq<char>| weight_of(self.0@, k) == if k == method@ { Some(weight) } else { weight_of(before, k) } by {}
        }
        assert(self.view() =~= old(self).view().insert(method@, weight));
    }

    /// The weight of `method`: its own, or 1 if it has none.
    pub fn get(&self, method: &str) -> (w: u32)
        ensures
            w == weight_in(self.view(), method@),
    {
        let mut i = self.0.len();
        assert(self.0@.take(i as int) =~= self.0@);
        while i > 0
            invariant
                i <= self.0.len(),
                weight_of(self.0@, method@) == weight_of(self.0@.take(i as int), method@),
            decreases i,
        {
            let entry = &self.0[i - 1];
            assert(self.0@.take(i as int).last() == self.0@[i - 1]);
            assert(self.0@.take(i as int).drop_last() =~= self.0@.take(i - 1));
            if compare_keys(entry.0.as_str(), method) == KeyOrder::Equal {
                return entry.1;
            }
            i = i - 1;
        }
        1
    }

    /// The weights that the definitions `methods` give (see `weights_from`).
    pub fn from_config(methods: &[RpcMethod]) -> (w: Self)
        ensures
            w.view() == weights_from(methods@),
            forall|i: int| 0 <= i < methods@.len()
                && (forall|j: int| i < j < methods@.len() ==> methods@[j].method@ != #[trigger] methods@[i].method@)
                ==> w.view().contains_key(methods@[i].method@) && w.view()[methods@[i].method@] == methods@[i].rate_limit_weight,
    {
        let mut weights = MethodWeights::new();
        let mut i: usize = 0;
        assert(methods@.take(0) =~= Seq::<RpcMethod>::empty());
        while i < methods.len()
            invariant
                i <= methods.len(),
                weights.view() == weights_from(methods@.take(i as int)),
            decreases methods.len() - i,
        {
            assert(methods@.take(i + 1).drop_last() =~= methods@.take(i as int));
            assert(methods@.take(i + 1).last() == methods@[i as int]);
            weights.add(methods[i].method.as_str(), methods[i].rate_limit_weight);
            i = i + 1;
        }
        assert(methods@.take(i as int) =~= methods@);
        proof {
            assert forall|i: int| 0 <= i < methods@.len()
                && (forall|j: int| i < j < methods@.len() ==> methods@[j].method@ != #[trigger] methods@[i].method@)
                implies weights.view().contains_key(methods@[i].method@)
                    && weights.view()[methods@[i].method@] == methods@[i].rate_limit_weight by {
                let k = methods@[i].method@;
                lemma_weights_from_last_definition(methods@, k);
                assert(methods@[i].method@ == k);
                let i2 = choose|i2: int| 0 <= i2 < methods@.len() && #[trigger] methods@[i2].method@ == k
                    && weights_from(methods@)[k] == methods@[i2].rate_limit_weight
                    && forall|j: int| i2 < j < methods@.len() ==> #[trigger] methods@[j].method@ != k;
                if i2 < i {
                    assert(methods@[i].method@ != k);
                } else if i2 > i {
                    assert(methods@[i2].method@ != methods@[i].method@);
                }
            }
        }
        weights
    }
}

/// The weights from a list of definitions give every defined method, and only those,
/// the weight of its last definition, whatever that weight is (0 included: such a
/// method is free).
pub proof fn lemma_weights_from_last_definition(methods: Seq<RpcMethod>, k: Seq<char>)
    ensures
        weights_from(methods).contains_key(k) <==> exists|i: int| 0 <= i < methods.len() && #[trigger] methods[i].method@ == k,
        weights_from(methods).contains_key(k) ==> exists|i: int| 0 <= i < methods.len()
            && #[trigger] methods[i].method@ == k
            && weights_from(methods)[k] == methods[i].rate_limit_weight
            && forall|j: int| i < j < methods.len() ==> #[trigger] methods[j].method@ != k,
    decreases methods.len(),
{
    if methods.len() > 0 {
        let p = methods.drop_last();
        let n = methods.len() - 1;
        lemma_weights_from_last_definition(p, k);
        assert forall|i: int| 0 <= i < p.len() implies #[trigger] p[i] == methods[i] by {}
        if methods.last().method@ == k {
            assert(methods[n].method@ == k);
        } else {
            if weights_from(p).contains_key(k) {
                let i = choose|i: int| 0 <= i < p.len() && #[trigger] p[i].method@ == k
                    && weights_from(p)[k] == p[i].rate_limit_weight
                    && forall|j: int| i < j < p.len() ==> #[trigger] p[j].method@ != k;
                assert(methods[i] == p[i]);
                assert forall|j: int| i < j < methods.len() implies #[trigger] methods[j].method@ != k by {
                    if j < n {
                        assert(methods[j] == p[j]);
                    }
                }
            }
            if exists|i: int| 0 <= i < methods.len() && #[trigger] methods[i].method@ == k {
                let i = choose|i: int| 0 <= i < methods.len() && #[trigger] methods[i].method@ == k;
                assert(i < n);
                assert(p[i].method@ == k);
            }
        }
    }
}

/// A weight given by `add` is what `get` answers for that method, and every other
/// method keeps the weight it had.
pub proof fn lemma_add_then_get(before: Map<Seq<char>, u32>, method: Seq<char>, weight: u32, other: Seq<char>)
    ensures
        weight_in(before.insert(method, weight), method) == weight,
        other != method ==> weight_in(before.insert(method, weight), other) == weight_in(before, other),
{
}

} // verus!
