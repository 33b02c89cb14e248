//! Reconciles laboratory sample metadata: delimited sample and epi-info
//! tables, an HTML run report and operator-entered run constants are merged
//! into one table shaped by the active output schema.

pub mod text;
pub mod delimiter;
pub mod table;
pub mod schema;
pub mod error;
pub mod reconcile;
pub mod fill;
pub mod formats;
pub mod report;
pub mod loader;
pub mod pipeline;
pub mod update;
