//! Sticker conversion core: media classification, the transcode error
//! vocabulary, webm duration patching, output naming, the preview
//! protocol's request logic, the settings' rules, the sidecar detection,
//! the compatibility report, and the run queue's decisions.

pub mod error;
pub mod text;
pub mod paths;
pub mod media;
pub mod preview;
pub mod transcoder;
pub mod queue;
pub mod runner;
pub mod ui;
pub mod steps;
pub mod config;
pub mod sidecar;
pub mod compat;
