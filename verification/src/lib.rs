//! Boot-time discovery of the ACPI root pointer and the kernel's debug
//! console scheme, with their contracts.

pub mod acpi;
pub mod context;
pub mod paging;
pub mod scheme;
pub mod sync;
