//! An engine that runs HTTP-triggered pipelines described as directed graphs
//! of computation nodes. A graph is bound against a store of node definitions,
//! executed wave by wave along its control edges, and its data edges carry
//! named values between node ports until the terminal node yields the result.
//!
//! The expected driving loop is `bind::bind`, `run::seed_entry`,
//! `schedule::initial_wave`, then `dispatch::dispatch_wave` and
//! `schedule::advance_wave` until `run::is_complete`, finishing with
//! `run::extract_result`. Script nodes surface as `dispatch::ScriptCall`
//! values for the caller's sandbox to execute; `run::run_stalled` tells
//! the loop when an emptied frontier can never reach the terminal node.
//! The properties the engine guarantees across these steps are collected
//! in `laws`.

pub mod api;
pub mod bind;
pub mod dispatch;
pub mod graph;
pub mod laws;
pub mod run;
pub mod schedule;
pub mod text;
pub mod value;
