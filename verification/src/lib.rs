//! A verified persistence core for structured assessment content.
//!
//! Subjects own topics; topics own questions and quizzes; subjects own
//! exams; attempts record completed sittings.  A question is a tagged union
//! spread over a base row and four variant-row tables, written and re-read
//! as one aggregate inside an atomic unit.  The relational engine is reached
//! only through the trusted wrappers of `store`; everything above them —
//! payload decomposition, the replace-all-variants write protocol, cascade
//! bookkeeping, pass/fail classification and performance aggregation — is
//! verified against the ghost model of `model`.

pub mod error;
pub mod model;
pub mod types;
pub mod store;
pub mod lemmas;
pub mod subjects;
pub mod topics;
pub mod quizzes;
pub mod assemble;
pub mod questions;
pub mod exams;
pub mod perf;
pub mod schema;
pub mod images;
pub mod laws;
