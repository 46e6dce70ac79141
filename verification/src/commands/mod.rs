//! The decisions behind the `au` subcommands.

pub mod configure;
pub mod plugins;
pub mod status;
