use vstd::prelude::*;

pub mod anomaly;
pub mod check_config_store;
pub mod checks;
pub mod cli;
pub mod config;
pub mod dashboard;
pub mod docs;
pub mod java_analyzer;
pub mod maintenance;
pub mod paths;
pub mod script;
pub mod text;

