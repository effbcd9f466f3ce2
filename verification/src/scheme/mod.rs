//! Schemes: resources behind a uniform interface of paths and handles.

use vstd::prelude::*;

pub mod debug;

verus! {

/// The number under which a scheme is registered.
#[derive(Copy, Clone, Debug, PartialEq, Eq, Structural)]
pub struct SchemeId {
    pub id: usize,
}

impl SchemeId {
    /// The identifier with the number `id`.
    pub fn new(id: usize) -> (scheme: SchemeId)
        ensures
            scheme.id == id,
    {
        SchemeId { id }
    }

    /// The identifier's number.
    pub fn get(&self) -> (id: usize)
        ensures
            id == self.id,
    {
        self.id
    }
}

} // verus!
