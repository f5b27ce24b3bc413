//! The decisions of the program around the pipeline.
pub mod build_info;
pub mod config;
pub mod config_laws;
pub mod logging;
pub mod marketplace;
pub mod marketplace_laws;
pub mod reload;
pub mod stats;
pub mod stats_laws;
pub mod yaml;

use vstd::prelude::*;

verus! {

} // verus!
