//! Discovery of the firmware's hardware description tables.

pub mod bytes;
pub mod rsdp;
pub mod search;
pub mod supplied;
