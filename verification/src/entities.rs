//! Rows of the metadata database tables, as plain values.

pub mod image;
pub mod image_wit_interface;
pub mod known_package;
pub mod known_package_tag;
pub mod wit_interface;
