//! project-mouse: a task-bound wake lock with a rules engine behind it.
//!
//! The library is the engine's logic: the three wake modes and how they combine, the rule model
//! and its evaluation against a sampled snapshot, the power reconciler, the idle clocks and the
//! opt-in input engine, cursor motion patterns, the "why is my PC awake" reduction, profile
//! bookkeeping, configuration decisions and the Move Mouse importer.

pub mod modes;
pub mod text;
pub mod rule;
pub mod snapshot;
pub mod evaluator;
pub mod profiles;
pub mod power;
pub mod engine;
pub mod idle;
pub mod input_engine;
pub mod motion;
pub mod awake;
pub mod config;
pub mod shell;
pub mod commands;
pub mod import;
pub mod platform;
pub mod startup;
pub mod logs;
