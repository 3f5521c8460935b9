//! Verified core of the Kineto production engine: artifact identity and
//! lifecycle, prompt compilation results, paid-job intents and their runtime
//! decisions, and the shot approval workflow.

pub mod engine;
pub mod text;
pub mod artifact;
pub mod lifecycle;
pub mod currentness;
pub mod jobs;
pub mod job_runtime;
pub mod limiter;
pub mod prompts;
pub mod project_path;
pub mod project_files;
pub mod intent_files;
pub mod intent_order;
pub mod intent_retention;
pub mod shot;
pub mod shot_text;
pub mod shot_hash;
pub mod shot_error;
pub mod shot_records;
pub mod shot_model;
pub mod shot_workflow;
pub mod shot_load;
pub mod shot_laws;
