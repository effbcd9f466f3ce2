//! Events by which a resource tells waiting contexts that it is ready.

use crate::scheme::SchemeId;
use vstd::prelude::*;

verus! {

/// A call of the event notifier that is due: it wakes the contexts that
/// wait on file `id` of scheme `scheme` for one of `flags`, and tells them
/// `data`.
#[derive(Copy, Clone, Debug, PartialEq, Eq, Structural)]
pub struct Trigger {
    pub scheme: SchemeId,
    pub id: usize,
    pub flags: usize,
    pub data: usize,
}

} // verus!
