//! A verified task engine: tasks with tags, properties and recurrence,
//! queries and mutations over them, the parsing of command lines, conflict
//! resolution and synchronisation between replicas, configuration, and the
//! text of the task table.

pub mod datetime;
pub mod text;
pub mod error;
pub mod id;
pub mod tag;
pub mod recur;
pub mod prop;
pub mod command;
pub mod task;
pub mod engine;
pub mod dates;
pub mod parse_args;
pub mod rpn;
pub mod render;
pub mod complete;
pub mod hash;
pub mod sync;
pub mod config;
pub mod laws;
pub mod storage;
