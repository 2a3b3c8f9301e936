//! Resource acquisition and process launch for a game launcher: archive
//! extraction planning, download bookkeeping, runtime detection, asset
//! planning, launch-argument and classpath assembly, and process supervision.

pub mod text;
pub mod paths;
pub mod archive;
pub mod progress;
pub mod manifest;
pub mod assets;
pub mod runtime;
pub mod accounts;
pub mod instance;
pub mod registry;
pub mod launch;
pub mod config;
