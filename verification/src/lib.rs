use vstd::prelude::*;

pub mod text;
pub mod num;
pub mod metrics;
pub mod model;
pub mod tree;
pub mod rules;
pub mod uniq;
pub mod engine;
pub mod suggestion;
pub mod root_cause;
pub mod analysis;
pub mod topology;
pub mod hotspot;
pub mod locale;
pub mod baseline;
pub mod baseline_cache;
pub mod config;
pub mod error;
pub mod sql;
pub mod dto;
pub mod llm;
pub mod permissions;
pub mod auth;
pub mod profiles;
pub mod catalog;
pub mod literal;

verus! {

} // verus!
