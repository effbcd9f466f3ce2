//! What the library asks of the contexts that run on the machine.

pub mod event;
