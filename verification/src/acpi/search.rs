//! The search for the root pointer in the range of physical memory where
//! the firmware leaves it.

use crate::acpi::rsdp::{
    decode_at, lemma_image_of_decoded, signature, valid_at, RSDP, RSDP_SIZE,
};
use crate::paging::{
    EntryFlags, Frame, Mapping, Page, PhysicalAddress, VirtualAddress, NO_EXECUTE, PAGE_SIZE,
    PRESENT, WRITABLE,
};
use vstd::prelude::*;

verus! {

/// First address of the physical range in which the firmware leaves the
/// root pointer.
pub const SEARCH_START: usize = 0xE_0000;

/// Last address of that range.
pub const SEARCH_END: usize = 0xF_FFFF;

/// Distance between two places at which the firmware may put the structure.
pub const SEARCH_STEP: usize = 16;

/// What the mapper must be asked before the range can be read: one
/// request for each of its frames, in rising order, each to the page of the
/// frame's own number, present and closed to execution and to writes.
pub open spec fn maps_search_range(mappings: Seq<Mapping>) -> bool {
    &&& mappings.len() == (SEARCH_END / PAGE_SIZE) - (SEARCH_START / PAGE_SIZE) + 1
    &&& forall|i: int|
        0 <= i < mappings.len() ==> {
            let mapping = #[trigger] mappings[i];
            &&& mapping.frame.index() == SEARCH_START / PAGE_SIZE + i
            &&& mapping.page.index() == mapping.frame.index()
            &&& mapping.flags.bits == PRESENT | NO_EXECUTE
        }
}

/// Requests that map the search range leave none of its addresses out,
/// and open none of its pages to writes.
pub proof fn lemma_search_range_covered(mappings: Seq<Mapping>, address: int)
    requires
        maps_search_range(mappings),
        SEARCH_START <= address <= SEARCH_END,
    ensures
        ({
            let mapping = mappings[address / (PAGE_SIZE as int) - SEARCH_START / PAGE_SIZE];
            &&& 0 <= address / (PAGE_SIZE as int) - SEARCH_START / PAGE_SIZE < mappings.len()
            &&& mapping.frame.index() == address / (PAGE_SIZE as int)
            &&& mapping.page.index() == address / (PAGE_SIZE as int)
            &&& mapping.flags.bits & PRESENT == PRESENT
            &&& mapping.flags.bits & NO_EXECUTE == NO_EXECUTE
            &&& mapping.flags.bits & WRITABLE == 0
        }),
{
    assert((PRESENT | NO_EXECUTE) & PRESENT == PRESENT) by (bit_vector);
    assert((PRESENT | NO_EXECUTE) & NO_EXECUTE == NO_EXECUTE) by (bit_vector);
    assert((PRESENT | NO_EXECUTE) & WRITABLE == 0) by (bit_vector);
}

/// Whether the scan of `window` finds a trustworthy root pointer at its
/// step `k`, that is at offset `16 * k`.
pub open spec fn valid_step(window: Seq<u8>, k: int) -> bool {
    0 <= k && valid_at(window, SEARCH_STEP * k)
}

/// Whether step `k` is the first at which the scan of `window` finds a
/// trustworthy root pointer.
pub open spec fn first_valid_step(window: Seq<u8>, k: int) -> bool {
    &&& valid_step(window, k)
    &&& forall|j: int| 0 <= j < k ==> !valid_step(window, j)
}

/// What a scan of `window` in 16-byte steps yields: the root pointer at
/// the first step that has a trustworthy one, and nothing where no step
/// has.
pub open spec fn search_result(window: Seq<u8>, found: Option<RSDP>) -> bool {
    match found {
        Some(rsdp) => exists|k: int|
            first_valid_step(window, k) && rsdp == decode_at(window, SEARCH_STEP * k),
        None => forall|k: int| !valid_step(window, k),
    }
}

/// A scan has one outcome: two results that both fit the same window are
/// the same.
pub proof fn lemma_search_result_unique(window: Seq<u8>, one: Option<RSDP>, other: Option<RSDP>)
    requires
        search_result(window, one),
        search_result(window, other),
    ensures
        one == other,
{
    if one is Some && other is Some {
        let k1 = choose|k: int|
            first_valid_step(window, k) && one.unwrap() == decode_at(window, SEARCH_STEP * k);
        let k2 = choose|k: int|
            first_valid_step(window, k) && other.unwrap() == decode_at(window, SEARCH_STEP * k);
        assert(k1 == k2);
    } else if one is Some {
        let k1 = choose|k: int|
            first_valid_step(window, k) && one.unwrap() == decode_at(window, SEARCH_STEP * k);
        assert(valid_step(window, k1));
    } else if other is Some {
        let k2 = choose|k: int|
            first_valid_step(window, k) && other.unwrap() == decode_at(window, SEARCH_STEP * k);
        assert(valid_step(window, k2));
    }
}

/// A window that holds the signature nowhere yields nothing.
pub proof fn lemma_search_without_signature(window: Seq<u8>, found: Option<RSDP>)
    requires
        forall|at: int|
            0 <= at && at + 8 <= window.len() ==> #[trigger] window.subrange(at, at + 8)
                != signature(),
        search_result(window, found),
    ensures
        found is None,
{
    if found is Some {
        let k = choose|k: int|
            first_valid_step(window, k) && found.unwrap() == decode_at(window, SEARCH_STEP * k);
        let at = SEARCH_STEP * k;
        let image = window.subrange(at, at + RSDP_SIZE);
        assert(image.subrange(0, 8) =~= window.subrange(at, at + 8));
    }
}

/// Whatever a scan returns may be trusted: it carries the signature and
/// passes the checksums of its revision.
pub proof fn lemma_search_result_valid(window: Seq<u8>, found: Option<RSDP>)
    requires
        search_result(window, found),
        found is Some,
    ensures
        found.unwrap().is_valid(),
{
    let k = choose|k: int|
        first_valid_step(window, k) && found.unwrap() == decode_at(window, SEARCH_STEP * k);
    let image = window.subrange(SEARCH_STEP * k, SEARCH_STEP * k + RSDP_SIZE);
    lemma_image_of_decoded(image);
    assert(image.subrange(0, RSDP_SIZE as int) =~= image);
}

impl RSDP {
    /// The requests that map the search range. The caller hands each to the
    /// mapper, and waits until it is in force, before it reads the range.
    pub fn search_mappings() -> (mappings: Vec<Mapping>)
        ensures
            maps_search_range(mappings@),
    {
        let start_frame = Frame::containing_address(PhysicalAddress::new(SEARCH_START));
        let end_frame = Frame::containing_address(PhysicalAddress::new(SEARCH_END));
        let frames = Frame::range_inclusive(start_frame, end_frame);
        let flags = EntryFlags::from_bits(PRESENT).union(EntryFlags::from_bits(NO_EXECUTE));
        let mut mappings: Vec<Mapping> = Vec::new();
        let mut i: usize = 0;
        while i < frames.len()
            invariant
                i <= frames@.len(),
                frames@.len() == (SEARCH_END / PAGE_SIZE) - (SEARCH_START / PAGE_SIZE) + 1,
                forall|j: int|
                    0 <= j < frames@.len() ==> (#[trigger] frames@[j]).index() == SEARCH_START
                        / PAGE_SIZE + j,
                flags.bits == PRESENT | NO_EXECUTE,
                mappings@.len() == i,
                forall|j: int|
                    0 <= j < i ==> {
                        let mapping = #[trigger] mappings@[j];
                        &&& mapping.frame.index() == SEARCH_START / PAGE_SIZE + j
                        &&& mapping.page.index() == mapping.frame.index()
                        &&& mapping.flags.bits == PRESENT | NO_EXECUTE
                    },
            decreases frames@.len() - i,
        {
            let frame = frames[i];
            let page = Page::containing_address(VirtualAddress::new(frame.start_address().get()));
            mappings.push(Mapping { page, frame, flags });
            i += 1;
        }
        mappings
    }

    /// Scans `window` in 16-byte steps from its start and returns the first
    /// root pointer that may be trusted. A place that carries the signature
    /// but fails a checksum is passed over and the scan goes on.
    fn search(window: &[u8]) -> (found: Option<RSDP>)
        ensures
            search_result(window@, found),
    {
        let mut at: usize = 0;
        let ghost mut step: int = 0;
        while window.len() - at >= RSDP_SIZE
            invariant
                at <= window.len(),
                at == SEARCH_STEP * step,
                0 <= step,
                forall|j: int| 0 <= j < step ==> !valid_step(window@, j),
            decreases window.len() - at,
        {
            let found = Self::from_bytes(window, at);
            if found.is_some() {
                assert(first_valid_step(window@, step));
                return found;
            }
            if window.len() - at < SEARCH_STEP {
                proof {
                    assert forall|k: int| !valid_step(window@, k) by {
                        if k > step {
                            assert(SEARCH_STEP * k >= SEARCH_STEP * step + SEARCH_STEP);
                        }
                    }
                }
                return None;
            }
            at += SEARCH_STEP;
            proof {
                step = step + 1;
            }
        }
        proof {
            assert forall|k: int| !valid_step(window@, k) by {
                if k >= step {
                    assert(SEARCH_STEP * k >= SEARCH_STEP * step);
                }
            }
        }
        None
    }

    /// Looks for the root pointer in `window`, the bytes of the physical
    /// range from `SEARCH_START` to `SEARCH_END`, which the caller has
    /// mapped.
    pub fn get_rsdp_by_searching(window: &[u8]) -> (found: Option<RSDP>)
        ensures
            search_result(window@, found),
            found matches Some(rsdp) ==> rsdp.is_valid(),
    {
        let found = Self::search(window);
        proof {
            if found is Some {
                lemma_search_result_valid(window@, found);
            }
        }
        found
    }
}

} // verus!
