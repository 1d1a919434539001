//! A minimal build orchestrator: template substitution over a variable
//! table, a persisted lock store of file timestamps, and the decisions of
//! the target walk.
pub mod assoc;
pub mod table;
mod text;
pub mod template;
pub mod error;
pub mod shell;
pub mod decimal;
pub mod lock;
pub mod condition;
pub mod recipe;
pub mod walk;
pub mod resolve;
