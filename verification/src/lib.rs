pub mod error;
pub mod engine;
pub mod pipeline;
pub mod rules;
