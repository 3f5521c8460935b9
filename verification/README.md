# kineto

The verified core of the Kineto production engine, written in Verus.

- `src/` is the library. Every function in it is verified against its
  `requires`/`ensures`; the laws that relate several operations are public
  proof functions (`lemma_*`), mostly in `shot_laws.rs`.
  - `artifact`, `lifecycle`, `currentness`: artifact identity, the review
    lifecycle, and computed currentness of recorded dependencies.
  - `prompts`: structured prompt compilation results and degradation policy.
  - `jobs`, `job_runtime`, `limiter`, `intent_files`, `intent_order`,
    `intent_retention`: paid-job intents, the runtime's decisions around each
    provider call and at startup, batch dry runs, per-provider concurrency,
    where intents are stored, the order startup works through them, and the
    retention, tombstone and reservation rules.
  - `project_path`, `project_files`: portable project-relative paths and the
    names a canonical snapshot skips.
  - `shot*`: the shot approval workflow. `shot_model` states each operation
    as a spec function over `WorkflowView`; `shot_workflow` implements them on
    the stored records; `shot_load` normalizes legacy hashes and recovers
    interrupted publications; `shot_hash` names file paths, identifiers and
    SHA-256 digests (the one call into an outside crate, `sha2`).
- `tests/` exercises the library from outside.
- `app/` is the unverified shell: file-system access, JSON (serde), the
  process-wide limiter registry, and the native entry points.
