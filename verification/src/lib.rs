//! A personal-scale download orchestrator: the durable job and task store, the
//! status rules, the worker pool and the scheduler's decisions, each with a
//! contract over a mathematical model of its state.

pub mod announce;
pub mod auth;
pub mod database;
pub mod download_manager;
pub mod env;
pub mod exit_status;
pub mod filesystem;
pub mod job;
pub mod job_manager;
pub mod platform;
pub mod playlist;
pub mod process;
pub mod queue_command;
pub mod task;
pub mod text;
pub mod web_api;
