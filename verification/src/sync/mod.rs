//! Primitives that hand data from one context to another.

pub mod wait_queue;
