//! Download orchestration: the per-download state machine, the registry that
//! mediates commands against it, the retry and progress rules of a transfer,
//! and the classification of transfer failures into user-facing text; beside
//! it, the user's preferences and the adapter of the external transfer tool
//! (its encrypted configuration and its progress lines).

pub mod decimal;
pub mod status;
pub mod classify;
pub mod transfer;
pub mod manager;
pub mod config;
pub mod rclone;
pub mod text;
