//! The inference stage of a trained classifier: which facts it classifies.
//!
//! The stage reads feature payloads from one context key, runs the model on
//! each, and writes one prediction per classified payload under another key.
//! What the model computes is floating point and stays with the model; which
//! payloads get classified is decided here.

use std::sync::Arc;

use vstd::prelude::*;

use crate::provenance::CRUCIBLE_PROVENANCE;
use crate::text::concat3;
use crate::context::{fact_matches, has_kind, ContextView, FactKey, FactSummary, PayloadKind};

verus! {

/// The positions, in order, of the facts under `key` that carry a features
/// payload with at least one value.
pub open spec fn classifiable_indices(facts: Seq<FactSummary>, key: FactKey) -> Seq<usize>
    decreases facts.len(),
{
    if facts.len() == 0 {
        seq![]
    } else {
        let rest = classifiable_indices(facts.drop_last(), key);
        let last = facts.last();
        if fact_matches(last, key, PayloadKind::ClassificationFeatures) && last.width > 0 {
            rest.push((facts.len() - 1) as usize)
        } else {
            rest
        }
    }
}

/// Every position `classifiable_indices` lists is a position of `facts`.
pub proof fn lemma_classifiable_in_range(facts: Seq<FactSummary>, key: FactKey)
    ensures
        forall|i: int|
            0 <= i < classifiable_indices(facts, key).len() ==> #[trigger] classifiable_indices(
                facts,
                key,
            )[i] < facts.len(),
    decreases facts.len(),
{
    if facts.len() > 0 {
        let rest = classifiable_indices(facts.drop_last(), key);
        let all = classifiable_indices(facts, key);
        lemma_classifiable_in_range(facts.drop_last(), key);
        assert forall|i: int| 0 <= i < all.len() implies #[trigger] all[i] < facts.len() by {
            if i < rest.len() {
                assert(all[i] == rest[i]);
            }
        }
    }
}

/// The stage classifies exactly the facts under `key` that carry a features
/// payload with at least one value: every position it lists holds such a
/// fact, every such fact is listed, and the positions rise strictly (context
/// order, each fact once).
pub proof fn lemma_classifiable_selects_input_features(facts: Seq<FactSummary>, key: FactKey)
    requires
        facts.len() <= usize::MAX,
    ensures
        forall|k: int|
            0 <= k < classifiable_indices(facts, key).len() ==> (#[trigger] classifiable_indices(
                facts,
                key,
            )[k]) < facts.len(),
        forall|k: int|
            0 <= k < classifiable_indices(facts, key).len() ==> facts[(#[trigger] classifiable_indices(
                facts,
                key,
            )[k]) as int].key == key && facts[classifiable_indices(facts, key)[k] as int].kind
                == PayloadKind::ClassificationFeatures && facts[classifiable_indices(
                facts,
                key,
            )[k] as int].width > 0,
        forall|i: int|
            0 <= i < facts.len() && (#[trigger] facts[i]).key == key && facts[i].kind
                == PayloadKind::ClassificationFeatures && facts[i].width > 0
                ==> classifiable_indices(facts, key).contains(i as usize),
        forall|k: int, m: int|
            0 <= k < m < classifiable_indices(facts, key).len() ==> classifiable_indices(
                facts,
                key,
            )[k] < classifiable_indices(facts, key)[m],
    decreases facts.len(),
{
    if facts.len() > 0 {
        let prev = facts.drop_last();
        let rest = classifiable_indices(prev, key);
        let all = classifiable_indices(facts, key);
        let last = (facts.len() - 1) as int;
        lemma_classifiable_selects_input_features(prev, key);
        let f = facts.last();
        let takes_last = fact_matches(f, key, PayloadKind::ClassificationFeatures) && f.width > 0;
        if takes_last {
            assert(all == rest.push(last as usize));
        } else {
            assert(all == rest);
        }
        assert(facts[last] == f);
        assert forall|k: int| 0 <= k < all.len() implies (#[trigger] all[k]) < facts.len()
            && facts[all[k] as int].key == key && facts[all[k] as int].kind
            == PayloadKind::ClassificationFeatures && facts[all[k] as int].width > 0 by {
            if k < rest.len() {
                assert(all[k] == rest[k]);
                assert(rest[k] < prev.len());
                assert(prev[rest[k] as int].key == key);
                assert(facts[rest[k] as int] == prev[rest[k] as int]);
            } else {
                assert(all[k] == last as usize);
            }
        }
        assert forall|i: int|
            0 <= i < facts.len() && (#[trigger] facts[i]).key == key && facts[i].kind
                == PayloadKind::ClassificationFeatures && facts[i].width > 0 implies all.contains(
            i as usize,
        ) by {
            if i < last {
                assert(prev[i] == facts[i]);
                assert(rest.contains(i as usize));
                let k = choose|k: int| 0 <= k < rest.len() && rest[k] == i as usize;
                assert(all[k] == rest[k]);
            } else {
                assert(all[all.len() - 1] == i as usize);
            }
        }
        assert forall|k: int, m: int| 0 <= k < m < all.len() implies all[k] < all[m] by {
            assert(all[k] == rest[k]);
            assert(rest[k] < prev.len());
            if m < rest.len() {
                assert(all[m] == rest[m]);
            } else {
                assert(all[m] == last as usize);
            }
        }
    }
}

/// The entries of `targets` whose outcome at the same position of `ok` is
/// `true`, in order.
pub open spec fn kept(targets: Seq<usize>, ok: Seq<bool>) -> Seq<usize>
    decreases targets.len(),
{
    if targets.len() == 0 {
        seq![]
    } else {
        let rest = kept(targets.drop_last(), ok.drop_last());
        if ok.last() {
            rest.push(targets.last())
        } else {
            rest
        }
    }
}

/// A prediction the inference stage proposes: for the fact at position
/// `fact` of the context, under `key`, with id `id`.
#[derive(Debug, Clone, PartialEq, Eq)]
pub struct PlannedPrediction {
    pub fact: usize,
    pub key: FactKey,
    pub id: String,
}

/// Generic inference stage for a trained classifier of type `M`.
pub struct ClassifierSuggestor<M> {
    suggestor_name: &'static str,
    model: Arc<M>,
    input_key: FactKey,
    output_key: FactKey,
}

impl<M> ClassifierSuggestor<M> {
    /// The key the stage reads features from.
    pub closed spec fn spec_input_key(&self) -> FactKey {
        self.input_key
    }

    /// The key the stage writes predictions under.
    pub closed spec fn spec_output_key(&self) -> FactKey {
        self.output_key
    }

    /// The stage's name.
    pub closed spec fn spec_name(&self) -> Seq<char> {
        self.suggestor_name@
    }

    /// The model the stage runs.
    pub closed spec fn spec_model(&self) -> M {
        *self.model
    }

    /// A stage named `suggestor_name` that runs `model` on the features under
    /// `input_key` and writes predictions under `output_key`.
    pub fn new(
        suggestor_name: &'static str,
        model: Arc<M>,
        input_key: FactKey,
        output_key: FactKey,
    ) -> (r: Self)
        ensures
            r.spec_name() == suggestor_name@,
            r.spec_model() == *model,
            r.spec_input_key() == input_key,
            r.spec_output_key() == output_key,
    {
        Self { suggestor_name, model, input_key, output_key }
    }

    pub fn name(&self) -> (r: &'static str)
        ensures
            r@ == self.spec_name(),
    {
        self.suggestor_name
    }

    /// The provenance of the predictions the stage emits.
    pub fn provenance(&self) -> (r: &'static str)
        ensures
            r@ == "crucible"@,
    {
        CRUCIBLE_PROVENANCE.as_str()
    }

    /// The stage depends on its input key alone.
    pub fn dependencies(&self) -> (r: Vec<FactKey>)
        ensures
            r@ == seq![self.spec_input_key()],
    {
        vec![self.input_key]
    }

    pub fn input_key(&self) -> (r: FactKey)
        ensures
            r == self.spec_input_key(),
    {
        self.input_key
    }

    pub fn output_key(&self) -> (r: FactKey)
        ensures
            r == self.spec_output_key(),
    {
        self.output_key
    }

    /// The model the stage runs.
    pub fn model(&self) -> (r: &M)
        ensures
            *r == self.spec_model(),
    {
        &*self.model
    }

    /// The stage has work where a features payload sits under its input key.
    pub fn accepts(&self, ctx: &ContextView) -> (r: bool)
        ensures
            r == has_kind(ctx.facts@, self.spec_input_key(), PayloadKind::ClassificationFeatures),
    {
        let n = ctx.facts.len();
        let mut i: usize = 0;
        while i < n
            invariant
                n == ctx.facts@.len(),
                0 <= i <= n,
                forall|j: int|
                    0 <= j < i ==> !fact_matches(
                        #[trigger] ctx.facts@[j],
                        self.input_key,
                        PayloadKind::ClassificationFeatures,
                    ),
            decreases n - i,
        {
            let f = ctx.facts[i];
            if f.key == self.input_key && f.kind == PayloadKind::ClassificationFeatures {
                return true;
            }
            i = i + 1;
        }
        false
    }

    /// The id of the prediction the stage proposes for the fact whose id is
    /// `fact_id`: the stage's name, a dash, and the fact id.
    pub fn prediction_id(&self, fact_id: &str) -> (r: String)
        ensures
            r@ == self.spec_name() + "-"@ + fact_id@,
    {
        concat3(self.suggestor_name, "-", fact_id)
    }

    /// The predictions the stage proposes once the model has run on the facts
    /// it classifies: `succeeded[k]` tells whether the model call on the
    /// `k`-th of them (in the order of `classifiable`) succeeded, and
    /// `fact_ids[i]` is the id of the context's fact `i`. One prediction per
    /// classified fact whose call succeeded, in order, under the output key,
    /// with id `name-factid`.
    pub fn planned_predictions(
        &self,
        ctx: &ContextView,
        fact_ids: &Vec<String>,
        succeeded: &Vec<bool>,
    ) -> (r: Vec<PlannedPrediction>)
        requires
            fact_ids@.len() == ctx.facts@.len(),
            succeeded@.len() == classifiable_indices(ctx.facts@, self.spec_input_key()).len(),
        ensures
            ({
                let emitted = kept(classifiable_indices(ctx.facts@, self.spec_input_key()), succeeded@);
                &&& r@.len() == emitted.len()
                &&& forall|k: int|
                    0 <= k < r@.len() ==> {
                        &&& (#[trigger] r@[k]).fact == emitted[k]
                        &&& r@[k].key == self.spec_output_key()
                        &&& r@[k].id@ == self.spec_name() + "-"@ + fact_ids@[emitted[k] as int]@
                    }
            }),
    {
        let targets = self.classifiable(ctx);
        proof {
            lemma_classifiable_in_range(ctx.facts@, self.input_key);
        }
        let n = targets.len();
        let mut out: Vec<PlannedPrediction> = Vec::new();
        let mut k: usize = 0;
        while k < n
            invariant
                n == targets@.len(),
                n == succeeded@.len(),
                0 <= k <= n,
                fact_ids@.len() == ctx.facts@.len(),
                forall|i: int| 0 <= i < n ==> #[trigger] targets@[i] < ctx.facts@.len(),
                out@.len() == kept(targets@.take(k as int), succeeded@.take(k as int)).len(),
                forall|j: int|
                    0 <= j < out@.len() ==> {
                        &&& (#[trigger] out@[j]).fact == kept(
                            targets@.take(k as int),
                            succeeded@.take(k as int),
                        )[j]
                        &&& out@[j].key == self.output_key
                        &&& out@[j].id@ == self.suggestor_name@ + "-"@ + fact_ids@[out@[j].fact as int]@
                    },
            decreases n - k,
        {
            proof {
                assert(targets@.take(k + 1).drop_last() =~= targets@.take(k as int));
                assert(succeeded@.take(k + 1).drop_last() =~= succeeded@.take(k as int));
                assert(targets@.take(k + 1).last() == targets@[k as int]);
                assert(succeeded@.take(k + 1).last() == succeeded@[k as int]);
            }
            if succeeded[k] {
                let f = targets[k];
                let id = self.prediction_id(fact_ids[f].as_str());
                out.push(PlannedPrediction { fact: f, key: self.output_key, id });
            }
            k = k + 1;
        }
        proof {
            assert(targets@.take(n as int) =~= targets@);
            assert(succeeded@.take(n as int) =~= succeeded@);
        }
        out
    }

    /// The facts the stage classifies, in context order: the features
    /// payloads under its input key that hold at least one value (empty
    /// feature vectors are skipped).
    pub fn classifiable(&self, ctx: &ContextView) -> (r: Vec<usize>)
        ensures
            r@ == classifiable_indices(ctx.facts@, self.spec_input_key()),
            forall|k: int| 0 <= k < r@.len() ==> (#[trigger] r@[k]) < ctx.facts@.len(),
            forall|k: int|
                0 <= k < r@.len() ==> ctx.facts@[(#[trigger] r@[k]) as int].key == self.spec_input_key()
                    && ctx.facts@[r@[k] as int].kind == PayloadKind::ClassificationFeatures
                    && ctx.facts@[r@[k] as int].width > 0,
    {
        let n = ctx.facts.len();
        proof {
            lemma_classifiable_selects_input_features(ctx.facts@, self.input_key);
        }
        let mut out: Vec<usize> = Vec::new();
        let mut i: usize = 0;
        while i < n
            invariant
                n == ctx.facts@.len(),
                0 <= i <= n,
                out@ == classifiable_indices(ctx.facts@.take(i as int), self.input_key),
            decreases n - i,
        {
            proof {
                assert(ctx.facts@.take(i + 1).drop_last() =~= ctx.facts@.take(i as int));
                assert(ctx.facts@.take(i + 1).last() == ctx.facts@[i as int]);
            }
            let f = ctx.facts[i];
            if f.key == self.input_key && f.kind == PayloadKind::ClassificationFeatures && f.width
                > 0 {
                out.push(i);
            }
            i = i + 1;
        }
        proof {
            assert(ctx.facts@.take(n as int) =~= ctx.facts@);
        }
        out
    }
}

/// Predictions for facts with different ids get different ids.
pub proof fn lemma_prediction_ids_distinct(name: Seq<char>, a: Seq<char>, b: Seq<char>)
    requires
        a != b,
    ensures
        name + "-"@ + a != name + "-"@ + b,
{
    let p = name + "-"@;
    if p + a == p + b {
        assert((p + a).subrange(p.len() as int, (p + a).len() as int) =~= a);
        assert((p + b).subrange(p.len() as int, (p + b).len() as int) =~= b);
    }
}

} // verus!
