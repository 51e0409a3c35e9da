//! Turns mentions that carry typesetting source into render jobs: the text is
//! sanitized, the source after the trigger line is wrapped in a document, and
//! each job is driven step by step from workspace creation to its removal.

pub mod job;
pub mod pipeline;
pub mod sanitize;
pub mod text;
