//! Quarter-scoped review pipeline: parses dated, per-coworker work-log
//! names into records, filters and groups them by author for a chosen
//! quarter with each group in date order, builds one generation request
//! per author, and accounts for their dispatch under a fixed concurrency
//! ceiling — one settled outcome per author, failures kept apart.

pub mod aggregate;
pub mod backend;
pub mod date;
pub mod dispatch;
pub mod prompt;
pub mod quarter;
pub mod record;

pub use date::Date;
pub use quarter::Quarter;
pub use record::Review;
