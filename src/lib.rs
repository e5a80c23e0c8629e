//! A workload orchestrator: a plan of steps, each launching replica
//! processes, ordered by dependencies on other steps' lifecycle facts and
//! fed with those steps' process ids through placeholders.
pub mod text;
pub mod config;
pub mod state;
pub mod templating;
pub mod worker;
pub mod runtime;
pub mod command;
pub mod lifecycle;
pub mod cache;
pub mod source;
pub mod samples;
pub mod logline;
