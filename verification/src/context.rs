//! A plain-value picture of the shared context that the pipeline stages read.
//!
//! Each fact in the engine's context sits under a key and carries a typed
//! payload. The stages only ever look at three things of a fact: its key,
//! which payload family it carries, and the training iteration the payload
//! belongs to. [`ContextView`] holds exactly that, fact by fact, in the order
//! in which the context lists them, so that every "which fact does this stage
//! read" question is answered here and proved.

use vstd::prelude::*;

verus! {

/// The keys of the shared context namespace.
#[derive(Debug, Clone, Copy, PartialEq, Eq, Structural)]
pub enum FactKey {
    Seeds,
    Hypotheses,
    Strategies,
    Constraints,
    Signals,
    Competitors,
    Evaluations,
    Proposals,
    Diagnostic,
    Votes,
    Disagreements,
    ConsensusOutcomes,
}

/// The payload families the pipeline stages tell apart.
#[derive(Debug, Clone, Copy, PartialEq, Eq, Structural)]
pub enum PayloadKind {
    TrainingPlan,
    DatasetSplit,
    BaselineModel,
    ModelMetadata,
    EvaluationReport,
    InferenceSample,
    DataQualityReport,
    FeatureSpec,
    HyperparameterSearchPlan,
    HyperparameterSearchResult,
    ModelRegistryRecord,
    MonitoringReport,
    DeploymentDecision,
    ClassificationFeatures,
    /// Any payload no stage of this crate reads (diagnostics, text, ...).
    Other,
}

/// What a stage can see of one context fact.
#[derive(Debug, Clone, Copy, PartialEq, Eq, Structural)]
pub struct FactSummary {
    pub key: FactKey,
    pub kind: PayloadKind,
    /// The training iteration the payload belongs to (0 where it has none).
    pub iteration: usize,
    /// The number of values the payload carries (the feature count of a
    /// features payload; 0 for the others).
    pub width: usize,
}

/// The facts of a context, in the order the context lists them.
#[derive(Debug)]
pub struct ContextView {
    pub facts: Vec<FactSummary>,
}

/// `f` sits under `key` and carries a payload of family `kind`.
pub open spec fn fact_matches(f: FactSummary, key: FactKey, kind: PayloadKind) -> bool {
    f.key == key && f.kind == kind
}

/// Some fact sits under `key`.
pub open spec fn has_key(facts: Seq<FactSummary>, key: FactKey) -> bool {
    exists|i: int| 0 <= i < facts.len() && #[trigger] facts[i].key == key
}

/// Some fact under `key` carries a payload of family `kind`.
pub open spec fn has_kind(facts: Seq<FactSummary>, key: FactKey, kind: PayloadKind) -> bool {
    exists|i: int| 0 <= i < facts.len() && fact_matches(#[trigger] facts[i], key, kind)
}

/// Some fact under `key` of family `kind` belongs to iteration `n`.
pub open spec fn has_iteration(
    facts: Seq<FactSummary>,
    key: FactKey,
    kind: PayloadKind,
    n: int,
) -> bool {
    exists|i: int|
        0 <= i < facts.len() && fact_matches(#[trigger] facts[i], key, kind) && facts[i].iteration
            == n
}

/// `n` is the highest iteration among the facts under `key` of family `kind`.
pub open spec fn is_max_iteration(
    facts: Seq<FactSummary>,
    key: FactKey,
    kind: PayloadKind,
    n: int,
) -> bool {
    &&& has_iteration(facts, key, kind, n)
    &&& forall|j: int|
        0 <= j < facts.len() && fact_matches(#[trigger] facts[j], key, kind) ==> facts[j].iteration
            <= n
}

/// The highest iteration among the facts under `key` of family `kind`
/// (meaningful where such a fact exists).
pub open spec fn latest_iteration(facts: Seq<FactSummary>, key: FactKey, kind: PayloadKind) -> int {
    choose|n: int| is_max_iteration(facts, key, kind, n)
}

/// Fact `i` is the one a "latest" read picks among the facts under `key` of
/// family `kind` whose iteration is below `bound`: it has the highest such
/// iteration, and no fact before it has that iteration.
pub open spec fn is_latest_below(
    facts: Seq<FactSummary>,
    key: FactKey,
    kind: PayloadKind,
    bound: int,
    i: int,
) -> bool {
    &&& 0 <= i < facts.len()
    &&& fact_matches(facts[i], key, kind)
    &&& facts[i].iteration < bound
    &&& forall|j: int|
        0 <= j < facts.len() && fact_matches(#[trigger] facts[j], key, kind) && facts[j].iteration
            < bound ==> facts[j].iteration <= facts[i].iteration
    &&& forall|j: int|
        0 <= j < i && fact_matches(#[trigger] facts[j], key, kind) && facts[j].iteration < bound
            ==> facts[j].iteration < facts[i].iteration
}

/// Some fact under `key` of family `kind` has an iteration below `bound`.
pub open spec fn has_below(
    facts: Seq<FactSummary>,
    key: FactKey,
    kind: PayloadKind,
    bound: int,
) -> bool {
    exists|i: int|
        0 <= i < facts.len() && fact_matches(#[trigger] facts[i], key, kind) && facts[i].iteration
            < bound
}

/// The bound `b` stands for (one past every `usize` where there is none).
pub open spec fn bound_of(b: Option<usize>) -> int {
    match b {
        None => usize::MAX + 1,
        Some(v) => v as int,
    }
}

/// Fact `i` is the one a "latest" read picks among all the facts under `key`
/// of family `kind`.
pub open spec fn is_latest(facts: Seq<FactSummary>, key: FactKey, kind: PayloadKind, i: int) -> bool {
    is_latest_below(facts, key, kind, usize::MAX + 1, i)
}

/// Fact `i` is the first fact under `key` of family `kind` with iteration `n`.
pub open spec fn is_first_of_iteration(
    facts: Seq<FactSummary>,
    key: FactKey,
    kind: PayloadKind,
    n: int,
    i: int,
) -> bool {
    &&& 0 <= i < facts.len()
    &&& fact_matches(facts[i], key, kind)
    &&& facts[i].iteration == n
    &&& forall|j: int|
        0 <= j < i && fact_matches(#[trigger] facts[j], key, kind) ==> facts[j].iteration != n
}

/// The fact a latest read picks carries the latest iteration.
pub proof fn lemma_latest_has_latest_iteration(
    facts: Seq<FactSummary>,
    key: FactKey,
    kind: PayloadKind,
    i: int,
)
    requires
        is_latest(facts, key, kind, i),
    ensures
        facts[i].iteration == latest_iteration(facts, key, kind),
        is_max_iteration(facts, key, kind, facts[i].iteration as int),
{
    let n = facts[i].iteration as int;
    assert(fact_matches(facts[i], key, kind));
    assert(has_iteration(facts, key, kind, n));
    assert forall|j: int|
        0 <= j < facts.len() && fact_matches(#[trigger] facts[j], key, kind) implies facts[j].iteration
        <= n by {
        assert(facts[j].iteration < usize::MAX + 1);
    }
    assert(is_max_iteration(facts, key, kind, n));
    let m = latest_iteration(facts, key, kind);
    assert(is_max_iteration(facts, key, kind, m));
    let w = choose|w: int|
        0 <= w < facts.len() && fact_matches(#[trigger] facts[w], key, kind) && facts[w].iteration
            == m;
    assert(facts[w].iteration <= n);
    assert(facts[i].iteration <= m);
}

/// Where some fact under `key` of family `kind` exists, so does a highest
/// iteration among them.
pub proof fn lemma_max_iteration_exists(facts: Seq<FactSummary>, key: FactKey, kind: PayloadKind)
    requires
        has_kind(facts, key, kind),
    ensures
        exists|n: int| is_max_iteration(facts, key, kind, n),
        is_max_iteration(facts, key, kind, latest_iteration(facts, key, kind)),
    decreases facts.len(),
{
    let rest = facts.drop_last();
    let x = facts.last();
    assert forall|j: int| 0 <= j < rest.len() implies #[trigger] rest[j] == facts[j] by {}
    if has_kind(rest, key, kind) {
        lemma_max_iteration_exists(rest, key, kind);
        let n = choose|n: int| is_max_iteration(rest, key, kind, n);
        let w = choose|w: int|
            0 <= w < rest.len() && fact_matches(#[trigger] rest[w], key, kind) && rest[w].iteration
                == n;
        assert(facts[w] == rest[w]);
        if fact_matches(x, key, kind) && x.iteration > n {
            assert(facts[facts.len() - 1] == x);
            assert forall|j: int|
                0 <= j < facts.len() && fact_matches(#[trigger] facts[j], key, kind) implies facts[j].iteration
                <= x.iteration by {
                if j < rest.len() {
                    assert(rest[j] == facts[j]);
                }
            }
            assert(is_max_iteration(facts, key, kind, x.iteration as int));
        } else {
            assert forall|j: int|
                0 <= j < facts.len() && fact_matches(#[trigger] facts[j], key, kind) implies facts[j].iteration
                <= n by {
                if j < rest.len() {
                    assert(rest[j] == facts[j]);
                }
            }
            assert(is_max_iteration(facts, key, kind, n));
        }
    } else {
        let i = choose|i: int| 0 <= i < facts.len() && fact_matches(#[trigger] facts[i], key, kind);
        if i < rest.len() {
            assert(rest[i] == facts[i]);
        }
        assert(i == facts.len() - 1);
        assert forall|j: int|
            0 <= j < facts.len() && fact_matches(#[trigger] facts[j], key, kind) implies facts[j].iteration
            <= x.iteration by {
            if j < rest.len() {
                assert(rest[j] == facts[j]);
            }
        }
        assert(is_max_iteration(facts, key, kind, x.iteration as int));
    }
}

/// At most one iteration is the highest.
pub proof fn lemma_max_iteration_unique(
    facts: Seq<FactSummary>,
    key: FactKey,
    kind: PayloadKind,
    n: int,
    m: int,
)
    requires
        is_max_iteration(facts, key, kind, n),
        is_max_iteration(facts, key, kind, m),
    ensures
        n == m,
{
    let i = choose|i: int|
        0 <= i < facts.len() && fact_matches(#[trigger] facts[i], key, kind) && facts[i].iteration
            == n;
    let k = choose|k: int|
        0 <= k < facts.len() && fact_matches(#[trigger] facts[k], key, kind) && facts[k].iteration
            == m;
    assert(facts[i].iteration <= m);
    assert(facts[k].iteration <= n);
}

/// A stage that turns facts of family `src_kind` under `src_key` into facts
/// of family `kind` under `key` has no work left once its output for the
/// latest input iteration joins the context: adding that fact settles it.
pub proof fn lemma_output_settles_stage(
    facts: Seq<FactSummary>,
    src_key: FactKey,
    src_kind: PayloadKind,
    key: FactKey,
    kind: PayloadKind,
    output: FactSummary,
)
    requires
        has_kind(facts, src_key, src_kind),
        !(key == src_key && kind == src_kind),
        output.key == key,
        output.kind == kind,
        output.iteration == latest_iteration(facts, src_key, src_kind),
    ensures
        !latest_lacks(facts.push(output), src_key, src_kind, key, kind),
        latest_iteration(facts.push(output), src_key, src_kind) == latest_iteration(
            facts,
            src_key,
            src_kind,
        ),
{
    let after = facts.push(output);
    let m = latest_iteration(facts, src_key, src_kind);
    lemma_max_iteration_exists(facts, src_key, src_kind);
    assert forall|j: int| 0 <= j < facts.len() implies #[trigger] after[j] == facts[j] by {}
    assert(!fact_matches(output, src_key, src_kind));
    let w = choose|w: int|
        0 <= w < facts.len() && fact_matches(#[trigger] facts[w], src_key, src_kind)
            && facts[w].iteration == m;
    assert(after[w] == facts[w]);
    assert(has_kind(after, src_key, src_kind));
    assert(has_iteration(after, src_key, src_kind, m));
    assert forall|j: int|
        0 <= j < after.len() && fact_matches(#[trigger] after[j], src_key, src_kind) implies after[j].iteration
        <= m by {
        if j < facts.len() {
            assert(after[j] == facts[j]);
        } else {
            assert(after[j] == output);
        }
    }
    assert(is_max_iteration(after, src_key, src_kind, m));
    lemma_max_iteration_exists(after, src_key, src_kind);
    lemma_max_iteration_unique(
        after,
        src_key,
        src_kind,
        m,
        latest_iteration(after, src_key, src_kind),
    );
    assert(after[facts.len() as int] == output);
    assert(has_iteration(after, key, kind, m));
}

/// Adding a fact of another family leaves the latest iteration among the
/// facts under `key` of family `kind` where it was.
pub proof fn lemma_push_other_keeps_latest(
    facts: Seq<FactSummary>,
    key: FactKey,
    kind: PayloadKind,
    x: FactSummary,
)
    requires
        !fact_matches(x, key, kind),
    ensures
        has_kind(facts.push(x), key, kind) == has_kind(facts, key, kind),
        has_kind(facts, key, kind) ==> latest_iteration(facts.push(x), key, kind)
            == latest_iteration(facts, key, kind),
{
    let after = facts.push(x);
    assert forall|j: int| 0 <= j < facts.len() implies #[trigger] after[j] == facts[j] by {}
    assert(after[facts.len() as int] == x);
    if has_kind(after, key, kind) {
        let i = choose|i: int| 0 <= i < after.len() && fact_matches(#[trigger] after[i], key, kind);
        assert(i < facts.len());
        assert(facts[i] == after[i]);
    }
    if has_kind(facts, key, kind) {
        let i = choose|i: int| 0 <= i < facts.len() && fact_matches(#[trigger] facts[i], key, kind);
        assert(after[i] == facts[i]);
        lemma_max_iteration_exists(facts, key, kind);
        let m = latest_iteration(facts, key, kind);
        let w = choose|w: int|
            0 <= w < facts.len() && fact_matches(#[trigger] facts[w], key, kind)
                && facts[w].iteration == m;
        assert(after[w] == facts[w]);
        assert(has_iteration(after, key, kind, m));
        assert forall|j: int|
            0 <= j < after.len() && fact_matches(#[trigger] after[j], key, kind) implies after[j].iteration
            <= m by {
            assert(j < facts.len());
            assert(after[j] == facts[j]);
        }
        assert(is_max_iteration(after, key, kind, m));
        lemma_max_iteration_exists(after, key, kind);
        lemma_max_iteration_unique(after, key, kind, m, latest_iteration(after, key, kind));
    }
}

/// A stage that turns facts of family `src_kind` under `src_key` into facts
/// of family `kind` under `key` has work again once an input of a newer
/// iteration than all before it joins the context, as long as no output of
/// that iteration exists yet.
pub proof fn lemma_newer_input_reopens_stage(
    facts: Seq<FactSummary>,
    src_key: FactKey,
    src_kind: PayloadKind,
    key: FactKey,
    kind: PayloadKind,
    input: FactSummary,
)
    requires
        !(key == src_key && kind == src_kind),
        input.key == src_key,
        input.kind == src_kind,
        forall|j: int|
            0 <= j < facts.len() && fact_matches(#[trigger] facts[j], src_key, src_kind)
                ==> facts[j].iteration < input.iteration,
        !has_iteration(facts, key, kind, input.iteration as int),
    ensures
        latest_lacks(facts.push(input), src_key, src_kind, key, kind),
        latest_iteration(facts.push(input), src_key, src_kind) == input.iteration,
{
    let after = facts.push(input);
    let n = input.iteration as int;
    assert forall|j: int| 0 <= j < facts.len() implies #[trigger] after[j] == facts[j] by {}
    assert(after[facts.len() as int] == input);
    assert(fact_matches(after[facts.len() as int], src_key, src_kind));
    assert(has_kind(after, src_key, src_kind));
    assert(has_iteration(after, src_key, src_kind, n));
    assert forall|j: int|
        0 <= j < after.len() && fact_matches(#[trigger] after[j], src_key, src_kind) implies after[j].iteration
        <= n by {
        if j < facts.len() {
            assert(after[j] == facts[j]);
        }
    }
    assert(is_max_iteration(after, src_key, src_kind, n));
    lemma_max_iteration_exists(after, src_key, src_kind);
    lemma_max_iteration_unique(after, src_key, src_kind, n, latest_iteration(after, src_key, src_kind));
    if has_iteration(after, key, kind, n) {
        let i = choose|i: int|
            0 <= i < after.len() && fact_matches(#[trigger] after[i], key, kind) && after[i].iteration
                == n;
        assert(i < facts.len());
        assert(facts[i] == after[i]);
        assert(has_iteration(facts, key, kind, n));
    }
}

/// A fact of family `src_kind` sits under `src_key`, and no fact of family
/// `kind` under `key` belongs to the latest iteration among them: the stage
/// that turns the one into the other has work left.
pub open spec fn latest_lacks(
    facts: Seq<FactSummary>,
    src_key: FactKey,
    src_kind: PayloadKind,
    key: FactKey,
    kind: PayloadKind,
) -> bool {
    has_kind(facts, src_key, src_kind) && !has_iteration(
        facts,
        key,
        kind,
        latest_iteration(facts, src_key, src_kind),
    )
}

impl ContextView {
    /// Whether any fact sits under `key`.
    pub fn has(&self, key: FactKey) -> (r: bool)
        ensures
            r == has_key(self.facts@, key),
            r == exists|i: int| 0 <= i < self.facts@.len() && (#[trigger] self.facts@[i]).key == key,
    {
        let n = self.facts.len();
        let mut i: usize = 0;
        while i < n
            invariant
                n == self.facts@.len(),
                0 <= i <= n,
                forall|j: int| 0 <= j < i ==> #[trigger] self.facts@[j].key != key,
            decreases n - i,
        {
            if self.facts[i].key == key {
                return true;
            }
            i = i + 1;
        }
        false
    }

    /// The first fact with the highest iteration among the facts under `key`
    /// of family `kind` whose iteration is below `bound` (no bound where
    /// `bound` is `None`).
    fn pick_latest(&self, key: FactKey, kind: PayloadKind, bound: Option<usize>) -> (r: Option<
        usize,
    >)
        ensures
            match r {
                None => !has_below(self.facts@, key, kind, bound_of(bound)),
                Some(i) => is_latest_below(self.facts@, key, kind, bound_of(bound), i as int),
            },
    {
        let n = self.facts.len();
        let ghost lim = bound_of(bound);
        let mut best: Option<usize> = None;
        let mut i: usize = 0;
        while i < n
            invariant
                n == self.facts@.len(),
                0 <= i <= n,
                lim == bound_of(bound),
                match best {
                    None => forall|j: int|
                        0 <= j < i && fact_matches(#[trigger] self.facts@[j], key, kind)
                            ==> self.facts@[j].iteration >= lim,
                    Some(b) => {
                        &&& b < i
                        &&& fact_matches(self.facts@[b as int], key, kind)
                        &&& self.facts@[b as int].iteration < lim
                        &&& forall|j: int|
                            0 <= j < i && fact_matches(#[trigger] self.facts@[j], key, kind)
                                && self.facts@[j].iteration < lim ==> self.facts@[j].iteration
                                <= self.facts@[b as int].iteration
                        &&& forall|j: int|
                            0 <= j < b && fact_matches(#[trigger] self.facts@[j], key, kind)
                                && self.facts@[j].iteration < lim ==> self.facts@[j].iteration
                                < self.facts@[b as int].iteration
                    },
                },
            decreases n - i,
        {
            let f = self.facts[i];
            let below = match bound {
                None => true,
                Some(b) => f.iteration < b,
            };
            if f.key == key && f.kind == kind && below {
                match best {
                    None => {
                        best = Some(i);
                    },
                    Some(b) => {
                        if f.iteration > self.facts[b].iteration {
                            best = Some(i);
                        }
                    },
                }
            }
            i = i + 1;
        }
        best
    }

    /// The fact a read of "the latest payload of family `kind` under `key`
    /// with an iteration below `bound`" picks: the first fact with the
    /// highest such iteration, or `None` where there is none.
    pub fn latest_below(&self, key: FactKey, kind: PayloadKind, bound: usize) -> (r: Option<usize>)
        ensures
            match r {
                None => !has_below(self.facts@, key, kind, bound as int),
                Some(i) => is_latest_below(self.facts@, key, kind, bound as int, i as int),
            },
    {
        self.pick_latest(key, kind, Some(bound))
    }

    /// The fact a read of "the latest payload of family `kind` under `key`"
    /// picks: the first fact with the highest iteration, or `None` where no
    /// fact of that family sits under `key`.
    pub fn latest(&self, key: FactKey, kind: PayloadKind) -> (r: Option<usize>)
        ensures
            match r {
                None => !has_kind(self.facts@, key, kind),
                Some(i) => {
                    &&& is_latest(self.facts@, key, kind, i as int)
                    &&& self.facts@[i as int].iteration == latest_iteration(self.facts@, key, kind)
                },
            },
            r matches Some(i) ==> i < self.facts@.len() && self.facts@[i as int].key == key
                && self.facts@[i as int].kind == kind,
            r matches Some(i) ==> forall|j: int|
                0 <= j < self.facts@.len() && (#[trigger] self.facts@[j]).key == key
                    && self.facts@[j].kind == kind ==> self.facts@[j].iteration <= self.facts@[i as int].iteration
                    && (j < i ==> self.facts@[j].iteration < self.facts@[i as int].iteration),
            r is None ==> forall|j: int|
                0 <= j < self.facts@.len() ==> !((#[trigger] self.facts@[j]).key == key
                    && self.facts@[j].kind == kind),
    {
        let r = self.pick_latest(key, kind, None);
        proof {
            let facts = self.facts@;
            match r {
                None => {
                    assert forall|j: int|
                        0 <= j < facts.len() implies !fact_matches(#[trigger] facts[j], key, kind) by {
                        if fact_matches(facts[j], key, kind) {
                            assert(facts[j].iteration < usize::MAX + 1);
                        }
                    }
                },
                Some(i) => {
                    lemma_latest_has_latest_iteration(facts, key, kind, i as int);
                    assert forall|j: int|
                        0 <= j < facts.len() && (#[trigger] facts[j]).key == key && facts[j].kind
                            == kind implies facts[j].iteration <= facts[i as int].iteration && (j
                            < i ==> facts[j].iteration < facts[i as int].iteration) by {
                        assert(fact_matches(facts[j], key, kind));
                        assert(facts[j].iteration < usize::MAX + 1);
                    }
                },
            }
        }
        r
    }

    /// The first fact under `key` of family `kind` that belongs to iteration
    /// `n`, or `None` where there is none.
    pub fn first_of_iteration(&self, key: FactKey, kind: PayloadKind, n: usize) -> (r: Option<
        usize,
    >)
        ensures
            match r {
                None => !has_iteration(self.facts@, key, kind, n as int),
                Some(i) => is_first_of_iteration(self.facts@, key, kind, n as int, i as int),
            },
    {
        let len = self.facts.len();
        let mut i: usize = 0;
        while i < len
            invariant
                len == self.facts@.len(),
                0 <= i <= len,
                forall|j: int|
                    0 <= j < i && fact_matches(#[trigger] self.facts@[j], key, kind)
                        ==> self.facts@[j].iteration != n,
            decreases len - i,
        {
            let f = self.facts[i];
            if f.key == key && f.kind == kind && f.iteration == n {
                return Some(i);
            }
            i = i + 1;
        }
        None
    }

    /// Whether some fact under `key` of family `kind` belongs to iteration `n`.
    pub fn has_iteration(&self, key: FactKey, kind: PayloadKind, n: usize) -> (r: bool)
        ensures
            r == has_iteration(self.facts@, key, kind, n as int),
            r == exists|i: int|
                0 <= i < self.facts@.len() && (#[trigger] self.facts@[i]).key == key
                    && self.facts@[i].kind == kind && self.facts@[i].iteration == n,
    {
        self.first_of_iteration(key, kind, n).is_some()
    }

    /// Whether a fact of family `src_kind` sits under `src_key` while no fact
    /// of family `kind` under `key` belongs to the latest iteration among them.
    pub fn latest_lacks(
        &self,
        src_key: FactKey,
        src_kind: PayloadKind,
        key: FactKey,
        kind: PayloadKind,
    ) -> (r: bool)
        ensures
            r == latest_lacks(self.facts@, src_key, src_kind, key, kind),
    {
        match self.latest(src_key, src_kind) {
            None => false,
            Some(i) => !self.has_iteration(key, kind, self.facts[i].iteration),
        }
    }

    /// The iteration of fact `i`.
    pub fn iteration_of(&self, i: usize) -> (r: usize)
        requires
            i < self.facts@.len(),
        ensures
            r == self.facts@[i as int].iteration,
    {
        self.facts[i].iteration
    }
}

} // verus!
