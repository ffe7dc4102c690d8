//! Control logic for Bose headphones over BMAP: domain model, configuration,
//! frame encoding and parsing, model registry and the interactive UI state.
pub mod text;
pub mod domain;
pub mod config;
pub mod bmap;
pub mod models;
pub mod bluetooth;
pub mod cli;
pub mod tui;
pub mod fzf;
pub mod invariants;
