pub mod text;
pub mod str_map;
pub mod gitmodules_metadata;
pub mod path;
pub mod config;
pub mod crate_flake;
pub mod order;
pub mod monolith_split;
pub mod lattice;
pub mod dasl_pipeline;
pub mod flake_check;
pub mod git_wrapper;
pub mod lang_detect;
pub mod dasl_metadata_processor;
pub mod lean4_driver;
pub mod atlas_math;
pub mod test_results;
pub mod goal_tracker;
pub mod lockfile_parser;
pub mod global_dep_graph;
pub mod error_to_llm_pipeline;
pub mod context;
pub mod layer_processor;
pub mod toml_structure;
pub mod graph_merge;
pub mod ingest;
pub mod monolith_render;
pub mod group_atlas;
pub mod data_flow_analyzer;
pub mod cargo_tool_discovery;
pub mod solana_analysis;
pub mod partitioning;
pub mod fix_cargo_toml;
