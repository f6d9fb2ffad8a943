//! Validation and reconciliation logic for a community document repository:
//! metadata rules, the ISBN registry, the cover-artifact differ, the publish
//! gate, catalog normalisation and the small state machines that drive
//! retries, pagination and image size reduction.

pub mod text;
pub mod metadata;
pub mod isbn13;
pub mod validate;
pub mod covers;
pub mod digest;
pub mod publish;
pub mod catalog;
pub mod transfer;
pub mod archive;
