//! A primer in verified systems programming.
//!
//! The centre piece is a counter that several workers increment at once,
//! under one of three strategies: `counter` holds the counter, `model` says
//! what a trial is as a state machine over the turns that a scheduler hands
//! out, `laws` proves what holds of every schedule, and `trial` runs a trial
//! turn by turn. Around it stand a few small building blocks: login checks,
//! a limit on failed attempts, and plain functions for a scripting host.

pub mod attempts;
pub mod basics;
pub mod bridge;
pub mod counter;
pub mod laws;
pub mod login_enum;
pub mod login_simple;
pub mod model;
pub mod strategy;
pub mod text;
pub mod trial;
pub mod workload;
