//! The DZ card engine: card source parsing and validation, runtime card
//! instances, zones, effect settlement and the duel rules.
pub mod ai_flow;
pub mod asset_cache;
pub mod batch;
pub mod battlefield;
pub mod config;
pub mod domain;
pub mod duel_engine;
pub mod dzcheck;
pub mod dzparse;
pub mod dztext;
pub mod effect_engine;
pub mod effect_parse;
pub mod effect_stack;
pub mod errors_zh;
pub mod factory;
pub mod lexer;
pub mod logging;
pub mod mark_registry;
pub mod repo;
pub mod ports;
pub mod setup;
pub mod shuffle;
pub mod svg;
pub mod zones;
