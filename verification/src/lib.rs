//! Querying and interpreting the ZCode Electron update manifest.

pub mod cli;
pub mod error;
pub mod laws;
pub mod local;
pub mod manifest;
pub mod output;
pub mod text;
pub mod version;
