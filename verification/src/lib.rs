//! Hardware and model-catalogue logic for fitting local LLMs to a machine.
pub mod text;
pub mod hardware;
pub mod models;
pub mod gpu_text;
pub mod rocm;
pub mod tui;
pub mod cursor;
pub mod nvidia;
pub mod catalog;
pub mod gpu_merge;
pub mod probes;
pub mod gpu_tables;
pub mod quant_laws;
pub mod head_laws;
