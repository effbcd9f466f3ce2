//! The choice of a root pointer from a region that the bootloader
//! supplied.
//!
//! The region is a row of chunks. Each begins with its length, four bytes
//! in little-endian order, which counts the bytes that follow it; the next
//! chunk begins right behind them. The row ends where fewer than four
//! bytes are left, or where a chunk would run over the end of the region.

use crate::acpi::bytes::{byte_sum, le_u32, read_u32};
use crate::acpi::rsdp::{
    decode, decode_at, lemma_image_of_decoded, valid_at, REVISION_1_0, REVISION_2_0, RSDP,
    RSDP_SIZE, RSDP_V1_SIZE,
};
use vstd::prelude::*;

verus! {

/// Alignment that the address of a supplied root pointer must have.
pub const SUPPLIED_ALIGN: u64 = 8;

/// Whether a whole chunk of `area` begins at `pos`: a four-byte
/// little-endian length, and after it that many bytes.
pub open spec fn whole_chunk(area: Seq<u8>, pos: int) -> bool {
    &&& 0 <= pos
    &&& pos + 4 <= area.len()
    &&& pos + 4 + le_u32(area, pos) <= area.len()
}

/// Where chunk `k` of `area` begins, if the chunks before it are whole.
pub open spec fn chunk_pos(area: Seq<u8>, k: nat) -> int
    decreases k,
{
    if k == 0 {
        0
    } else {
        let before = chunk_pos(area, (k - 1) as nat);
        before + 4 + le_u32(area, before)
    }
}

/// Whether `area` holds a chunk `k`: that one and all before it are whole.
pub open spec fn has_chunk(area: Seq<u8>, k: nat) -> bool
    decreases k,
{
    &&& k > 0 ==> has_chunk(area, (k - 1) as nat)
    &&& whole_chunk(area, chunk_pos(area, k))
}

/// Offset in `area` of what chunk `k` holds after its length.
pub open spec fn chunk_start(area: Seq<u8>, k: nat) -> int {
    chunk_pos(area, k) + 4
}

/// Whether chunk `k` of `area`, which lies in memory from address `base`
/// on, holds a root pointer that may be returned for `revision`: the
/// chunk is large enough, its content begins at an aligned address, and
/// is a trustworthy root pointer that declares this revision.
pub open spec fn supplied_at(area: Seq<u8>, base: u64, k: nat, revision: u8) -> bool {
    &&& has_chunk(area, k)
    &&& le_u32(area, chunk_pos(area, k)) >= RSDP_SIZE
    &&& (base + chunk_start(area, k)) % (SUPPLIED_ALIGN as int) == 0
    &&& valid_at(area, chunk_start(area, k))
    &&& decode_at(area, chunk_start(area, k)).revision == revision
}

/// Whether chunk `k` is the first of `area` that holds a root pointer
/// which may be returned for `revision`.
pub open spec fn first_supplied_at(area: Seq<u8>, base: u64, k: nat, revision: u8) -> bool {
    &&& supplied_at(area, base, k, revision)
    &&& forall|j: nat| j < k ==> !supplied_at(area, base, j, revision)
}

/// What a pass over the chunks of `area` for one `revision` yields: the
/// root pointer of the first chunk that has one to return, and nothing
/// where no chunk has.
pub open spec fn supplied_choice(
    area: Seq<u8>,
    base: u64,
    revision: u8,
    found: Option<RSDP>,
) -> bool {
    match found {
        Some(rsdp) => exists|k: nat|
            first_supplied_at(area, base, k, revision) && rsdp == decode_at(
                area,
                chunk_start(area, k),
            ),
        None => forall|k: nat| !supplied_at(area, base, k, revision),
    }
}

/// What a supplied region yields: the first root pointer of revision 2,
/// and only where there is none the first of revision 0.
pub open spec fn supplied_result(area: Seq<u8>, base: u64, found: Option<RSDP>) -> bool {
    ||| found is Some && supplied_choice(area, base, REVISION_2_0, found)
    ||| supplied_choice(area, base, REVISION_2_0, None) && supplied_choice(
        area,
        base,
        REVISION_1_0,
        found,
    )
}

/// A region that holds chunk `j` holds every chunk before it.
pub proof fn lemma_chunks_before(area: Seq<u8>, k: nat, j: nat)
    requires
        k <= j,
        has_chunk(area, j),
    ensures
        has_chunk(area, k),
    decreases j,
{
    if k < j {
        lemma_chunks_before(area, k, (j - 1) as nat);
    }
}

/// Where chunk `k` is missing and no chunk before it has a root pointer
/// to return, no chunk has.
pub proof fn lemma_no_chunk_no_supply(area: Seq<u8>, base: u64, k: nat, revision: u8)
    requires
        !has_chunk(area, k),
        forall|j: nat| j < k ==> !supplied_at(area, base, j, revision),
    ensures
        forall|j: nat| !supplied_at(area, base, j, revision),
{
    assert forall|j: nat| !supplied_at(area, base, j, revision) by {
        if j >= k && has_chunk(area, j) {
            lemma_chunks_before(area, k, j);
        }
    }
}

/// A pass over the chunks for one revision has one outcome.
pub proof fn lemma_supplied_choice_unique(
    area: Seq<u8>,
    base: u64,
    revision: u8,
    one: Option<RSDP>,
    other: Option<RSDP>,
)
    requires
        supplied_choice(area, base, revision, one),
        supplied_choice(area, base, revision, other),
    ensures
        one == other,
{
    if one is Some && other is Some {
        let k1 = choose|k: nat|
            first_supplied_at(area, base, k, revision) && one.unwrap() == decode_at(
                area,
                chunk_start(area, k),
            );
        let k2 = choose|k: nat|
            first_supplied_at(area, base, k, revision) && other.unwrap() == decode_at(
                area,
                chunk_start(area, k),
            );
        assert(k1 == k2);
    } else if one is Some {
        let k1 = choose|k: nat|
            first_supplied_at(area, base, k, revision) && one.unwrap() == decode_at(
                area,
                chunk_start(area, k),
            );
        assert(supplied_at(area, base, k1, revision));
    } else if other is Some {
        let k2 = choose|k: nat|
            first_supplied_at(area, base, k, revision) && other.unwrap() == decode_at(
                area,
                chunk_start(area, k),
            );
        assert(supplied_at(area, base, k2, revision));
    }
}

/// A supplied region has one outcome: two results that both fit the same
/// region are the same.
pub proof fn lemma_supplied_result_unique(
    area: Seq<u8>,
    base: u64,
    one: Option<RSDP>,
    other: Option<RSDP>,
)
    requires
        supplied_result(area, base, one),
        supplied_result(area, base, other),
    ensures
        one == other,
{
    let one_by_2 = one is Some && supplied_choice(area, base, REVISION_2_0, one);
    let other_by_2 = other is Some && supplied_choice(area, base, REVISION_2_0, other);
    if one_by_2 && other_by_2 {
        lemma_supplied_choice_unique(area, base, REVISION_2_0, one, other);
    } else if one_by_2 {
        lemma_supplied_choice_unique(area, base, REVISION_2_0, one, None);
    } else if other_by_2 {
        lemma_supplied_choice_unique(area, base, REVISION_2_0, other, None);
    } else {
        lemma_supplied_choice_unique(area, base, REVISION_1_0, one, other);
    }
}

/// Revision 2 wins wherever it stands: where chunk `k` is the first that
/// has a root pointer of revision 2 to return, that one is the result,
/// whatever root pointers of revision 0 lie before or after it.
pub proof fn lemma_revision_2_wins(area: Seq<u8>, base: u64, found: Option<RSDP>, k: nat)
    requires
        supplied_result(area, base, found),
        first_supplied_at(area, base, k, REVISION_2_0),
    ensures
        found == Some(decode_at(area, chunk_start(area, k))),
        found.unwrap().revision == REVISION_2_0,
{
    let winner = Some(decode_at(area, chunk_start(area, k)));
    assert(supplied_choice(area, base, REVISION_2_0, winner));
    assert(supplied_result(area, base, winner));
    lemma_supplied_result_unique(area, base, found, winner);
}

/// Without a root pointer of revision 2 the first of revision 0 is the
/// result.
pub proof fn lemma_revision_0_is_fallback(area: Seq<u8>, base: u64, found: Option<RSDP>, k: nat)
    requires
        supplied_result(area, base, found),
        forall|j: nat| !supplied_at(area, base, j, REVISION_2_0),
        first_supplied_at(area, base, k, REVISION_1_0),
    ensures
        found == Some(decode_at(area, chunk_start(area, k))),
        found.unwrap().revision == REVISION_1_0,
{
    let fallback = Some(decode_at(area, chunk_start(area, k)));
    assert(supplied_choice(area, base, REVISION_1_0, fallback));
    assert(supplied_result(area, base, fallback));
    lemma_supplied_result_unique(area, base, found, fallback);
}

/// Whatever a supplied region yields may be trusted, and declares
/// revision 2 or revision 0.
pub proof fn lemma_supplied_result_valid(area: Seq<u8>, base: u64, found: Option<RSDP>)
    requires
        supplied_result(area, base, found),
        found is Some,
    ensures
        found.unwrap().is_valid(),
        found.unwrap().revision == REVISION_2_0 || found.unwrap().revision == REVISION_1_0,
{
    let revision: u8 = if supplied_choice(area, base, REVISION_2_0, found) {
        REVISION_2_0
    } else {
        REVISION_1_0
    };
    let k = choose|k: nat|
        first_supplied_at(area, base, k, revision) && found.unwrap() == decode_at(
            area,
            chunk_start(area, k),
        );
    let start = chunk_start(area, k);
    let image = area.subrange(start, start + RSDP_SIZE);
    lemma_image_of_decoded(image);
    assert(image.subrange(0, RSDP_SIZE as int) =~= image);
}

/// A chunk whose first 20 bytes do not sum to a multiple of 256 is never
/// what a supplied region yields, however large and well placed it is.
pub proof fn lemma_bad_checksum_never_returned(
    area: Seq<u8>,
    base: u64,
    found: Option<RSDP>,
    k: nat,
)
    requires
        supplied_result(area, base, found),
        has_chunk(area, k),
        le_u32(area, chunk_pos(area, k)) >= RSDP_SIZE,
        byte_sum(area.subrange(chunk_start(area, k), chunk_start(area, k) + RSDP_V1_SIZE)) % 256
            != 0,
    ensures
        found != Some(decode_at(area, chunk_start(area, k))),
{
    let start = chunk_start(area, k);
    let image = area.subrange(start, start + RSDP_SIZE);
    if found == Some(decode(image)) {
        lemma_supplied_result_valid(area, base, found);
        lemma_image_of_decoded(image);
        assert(image.subrange(0, RSDP_SIZE as int) =~= image);
        assert(image.subrange(0, RSDP_V1_SIZE as int) =~= area.subrange(
            start,
            start + RSDP_V1_SIZE,
        ));
    }
}

/// Whether the byte at offset `offset` of a region that begins at address
/// `base` lies at an aligned address.
fn is_aligned(base: u64, offset: usize) -> (aligned: bool)
    ensures
        aligned == ((base + offset) % (SUPPLIED_ALIGN as int) == 0),
{
    (base % SUPPLIED_ALIGN + (offset as u64) % SUPPLIED_ALIGN) % SUPPLIED_ALIGN == 0
}

/// The revision that a pass over the chunks looks for.
pub open spec fn wanted_revision(acpi_2_0: bool) -> u8 {
    if acpi_2_0 {
        REVISION_2_0
    } else {
        REVISION_1_0
    }
}

impl RSDP {
    /// The root pointer that the chunk content at offset `start` of `area`,
    /// `len` bytes long, offers to a pass for ACPI 2.0 or for ACPI 1.0, if
    /// it offers one.
    fn supplied_candidate(area: &[u8], base: u64, start: usize, len: usize, acpi_2_0: bool) -> (found:
        Option<RSDP>)
        requires
            start + len <= area.len(),
        ensures
            found is Some <==> {
                &&& len >= RSDP_SIZE
                &&& (base + start) % (SUPPLIED_ALIGN as int) == 0
                &&& valid_at(area@, start as int)
                &&& decode_at(area@, start as int).revision == wanted_revision(acpi_2_0)
            },
            found is Some ==> found == Some(decode_at(area@, start as int)),
    {
        if len < RSDP_SIZE || !is_aligned(base, start) {
            return None;
        }
        match Self::from_bytes(area, start) {
            Some(rsdp) => {
                let wanted = if acpi_2_0 {
                    rsdp.is_acpi_2_0()
                } else {
                    rsdp.is_acpi_1_0()
                };
                if wanted {
                    Some(rsdp)
                } else {
                    None
                }
            },
            None => None,
        }
    }

    /// Walks the chunks of `area` and returns the first root pointer that
    /// may be trusted, lies at an aligned address and declares ACPI 2.0,
    /// or ACPI 1.0 where `acpi_2_0` is false.
    fn find_supplied(area: &[u8], base: u64, acpi_2_0: bool) -> (found: Option<RSDP>)
        ensures
            supplied_choice(area@, base, wanted_revision(acpi_2_0), found),
    {
        let ghost revision = wanted_revision(acpi_2_0);
        let mut pos: usize = 0;
        let ghost mut k: nat = 0;
        while area.len() - pos >= 4
            invariant
                pos <= area.len(),
                pos == chunk_pos(area@, k),
                revision == wanted_revision(acpi_2_0),
                k > 0 ==> has_chunk(area@, (k - 1) as nat),
                forall|j: nat| j < k ==> !supplied_at(area@, base, j, revision),
            decreases area.len() - pos,
        {
            let len = read_u32(area, pos) as usize;
            if len > area.len() - pos - 4 {
                proof {
                    assert(!has_chunk(area@, k));
                    lemma_no_chunk_no_supply(area@, base, k, revision);
                }
                return None;
            }
            assert(has_chunk(area@, k));
            let start = pos + 4;
            let candidate = Self::supplied_candidate(area, base, start, len, acpi_2_0);
            if candidate.is_some() {
                assert(supplied_at(area@, base, k, revision));
                assert(first_supplied_at(area@, base, k, revision));
                return candidate;
            }
            assert(!supplied_at(area@, base, k, revision));
            pos = start + len;
            proof {
                k = k + 1;
                assert(pos == chunk_pos(area@, k));
            }
        }
        proof {
            assert(!has_chunk(area@, k));
            lemma_no_chunk_no_supply(area@, base, k, revision);
        }
        None
    }

    /// Picks the root pointer out of `area`, a region that the bootloader
    /// filled with length-prefixed chunks and that lies in memory from
    /// address `base` on. Revision 2 is preferred wherever it occurs; what
    /// the bootloader says of the checksums is not believed.
    pub fn get_already_supplied_rsdps(base: u64, area: &[u8]) -> (found: Option<RSDP>)
        ensures
            supplied_result(area@, base, found),
            found matches Some(rsdp) ==> rsdp.is_valid(),
    {
        // first, find a root pointer for ACPI 2.0
        let found_2_0 = Self::find_supplied(area, base, true);
        let found = if found_2_0.is_some() {
            found_2_0
        } else {
            // secondly, find a root pointer for ACPI 1.0
            Self::find_supplied(area, base, false)
        };
        proof {
            if found is Some {
                lemma_supplied_result_valid(area@, base, found);
            }
        }
        found
    }
}

} // verus!
