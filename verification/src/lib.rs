//! A verified core for a pull-request creation workflow: local-repository
//! guards, partial-failure-tolerant metadata aggregation, interactive
//! selection invariants, and submission-command construction.

pub mod git;
pub mod github;
pub mod model;
pub mod select;
pub mod submit;
pub mod text;
pub mod workflow;
