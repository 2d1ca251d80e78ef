# crucible

Trained-model packs and the training pipeline around them, for the Converge
Engine. The decision logic is written in Verus and proved against its
contracts; the parts that need files, data frames, floating point or the
engine's async traits live in a thin application crate around it.

## Layout

- `src/` — the verified library.
  - `context.rs` — a plain-value view of the engine context (key, payload
    family, iteration and width of each fact) and the "latest fact" and
    "fact of iteration n" reads every stage relies on, with the laws that a
    stage's own output settles it and a newer input re-opens it.
  - `training/` — the pipeline stages (`DatasetAgent` … `DeploymentAgent`):
    names, dependencies, when each accepts, file paths, row splitting,
    target-column choice, feature-spec proposal and application checks,
    deployment decisions, proposal ids, and the diagnostic each stage
    reports when a step fails.
  - `suggestor.rs` — the inference stage of a trained classifier: which
    feature facts it classifies and which predictions it proposes (one per
    successful model call, in order, with its key and id).
  - `models/` — the integer side of tree classifiers (input checks, class
    counts, bootstrap samples, vote tallies, majority class) and confusion
    counts.
- `tests/` — tests of the library, run against the compiled crate.
- `app/` — the `train_loan_default` command-line trainer, the engine
  suggestors, Polars I/O, linfa tree fitting and floating-point statistics.
