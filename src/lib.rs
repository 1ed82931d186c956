//! Plan execution engine: tokenizing, sanitizing and templating shell
//! commands, tracking discovered facts, and driving a multi-step plan.

pub mod text;
pub mod error;
pub mod tokenize;
pub mod sanitize;
pub mod facts;
pub mod extract;
pub mod setup;
pub mod plan;
pub mod executor;
pub mod cli;
