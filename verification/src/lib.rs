//! A declarative environment bootstrapper: it turns a configuration of
//! packages, downloads, snaps and shell commands into the external commands
//! that provision a machine, and decides what each outcome means.

pub mod configuration;
pub mod error;
pub mod operations;
pub mod runconfig;
pub mod text;

pub use runconfig::RunConfig;
