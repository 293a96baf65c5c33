//! A local registry of named files and the versions recorded for each,
//! kept as one JSON document per directory.

pub mod error;
pub mod version;
pub mod registry;
pub mod json;
pub mod codec;
pub mod manager;
pub mod project;
pub mod business;
