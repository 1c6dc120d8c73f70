//! Verified core of a WebAssembly package manager: manifest dependencies,
//! stored image and known-package metadata, tag classification, database
//! migrations bookkeeping and the decisions of the development server.

pub mod text;
pub mod known_package;
pub mod manifest;
pub mod entities;
pub mod image_entry;
pub mod wit_interface;
pub mod migration;
pub mod store;
pub mod sql;
pub mod serve;
