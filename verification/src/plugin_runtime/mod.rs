//! The plugin side: manifests on disk, the lines a probe reports, and the host
//! API's sandbox rules.

pub mod host_api;
pub mod manifest;
pub mod runtime;
