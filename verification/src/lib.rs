//! Reconciles time-tracking entries with the work-log items of an issue
//! tracker: which entries name an issue, which of them are not logged yet, and
//! which work items have to be created for them.

pub mod clock;
pub mod creator;
pub mod fetch;
pub mod grouping;
pub mod idempotence;
pub mod parser;
pub mod reconcile;
pub mod sequences;
pub mod submission;
pub mod text;
pub mod toggl;
pub mod youtrack;
