use vstd::prelude::*;

pub mod analytics;
pub mod assess;
pub mod binary32;
pub mod catalog;
pub mod cli;
pub mod config;
pub mod diagnostics;
pub mod hardware;
pub mod ml;
pub mod output;
pub mod telemetry;
pub mod text;

verus! {
} // verus!
