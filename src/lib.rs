//! Verified core of a resilient crawler for an online dictionary: error
//! classification and retry decisions, pagination planning, the request form
//! and session cookie, extraction of values from fetched markup text,
//! bounded pipeline scheduling, checkpoint/resume planning and the durable
//! output sink's sync policy.

pub mod error;
pub mod extract;
pub mod form;
pub mod markup;
pub mod pipeline;
pub mod plan;
pub mod records;
pub mod resume;
pub mod retry;
pub mod session;
pub mod sink;
pub mod text;
