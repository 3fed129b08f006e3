//! Extraction, caching-key and time-range alignment engine for timestamped log files.

pub mod align_ranges;
pub mod cache_files;
pub mod cli;
pub mod data_source;
pub mod decimal;
pub mod gnuplot;
pub mod graph_config;
pub mod plotly_backend;
pub mod process_log;
pub mod resolved_graph_config;
pub mod text;
pub mod timestamp;
pub mod utils;
