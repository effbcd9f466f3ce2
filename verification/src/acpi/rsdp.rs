//! The root system description pointer: its layout, when it may be
//! trusted, and where it is looked for.

use crate::acpi::bytes::{
    byte_sum, checksum, le_u32, le_u64, lemma_u32_bytes_of_value, lemma_u32_value_of_bytes,
    lemma_u64_bytes_of_value, lemma_u64_value_of_bytes, read_u32, read_u64, u32_le_bytes,
    u64_le_bytes,
};
use crate::acpi::search::search_result;
use crate::acpi::supplied::supplied_result;
use vstd::prelude::*;

verus! {

/// Number of bytes the structure occupies.
pub const RSDP_SIZE: usize = 36;

/// Number of leading bytes that the first checksum covers.
pub const RSDP_V1_SIZE: usize = 20;

/// The revision that declares ACPI 1.0.
pub const REVISION_1_0: u8 = 0;

/// The revision that declares ACPI 2.0.
pub const REVISION_2_0: u8 = 2;

/// The root pointer, field by field in the order the firmware lays it out.
#[derive(Copy, Clone, Debug)]
pub struct RSDP {
    pub signature: [u8; 8],
    pub checksum: u8,
    pub oemid: [u8; 6],
    pub revision: u8,
    pub rsdt_address: u32,
    pub length: u32,
    pub xsdt_address: u64,
    pub extended_checksum: u8,
    pub reserved: [u8; 3],
}

/// The eight bytes every root pointer begins with: `RSD PTR `.
pub open spec fn signature() -> Seq<u8> {
    seq![0x52u8, 0x53u8, 0x44u8, 0x20u8, 0x50u8, 0x54u8, 0x52u8, 0x20u8]
}

/// The structure that the first 36 bytes of `bytes` spell out.
pub open spec fn decode(bytes: Seq<u8>) -> RSDP
    recommends
        bytes.len() >= RSDP_SIZE,
{
    RSDP {
        signature: [
            bytes[0],
            bytes[1],
            bytes[2],
            bytes[3],
            bytes[4],
            bytes[5],
            bytes[6],
            bytes[7],
        ],
        checksum: bytes[8],
        oemid: [bytes[9], bytes[10], bytes[11], bytes[12], bytes[13], bytes[14]],
        revision: bytes[15],
        rsdt_address: le_u32(bytes, 16) as u32,
        length: le_u32(bytes, 20) as u32,
        xsdt_address: le_u64(bytes, 24) as u64,
        extended_checksum: bytes[32],
        reserved: [bytes[33], bytes[34], bytes[35]],
    }
}

/// The structure that the 36 bytes of `bytes` from `at` on spell out.
pub open spec fn decode_at(bytes: Seq<u8>, at: int) -> RSDP {
    decode(bytes.subrange(at, at + RSDP_SIZE))
}

/// Whether `bytes` begins with a root pointer that may be trusted: it is
/// long enough, carries the signature, its first 20 bytes sum to a multiple
/// of 256, and from revision 2 on so do all 36.
pub open spec fn is_valid_rsdp(bytes: Seq<u8>) -> bool {
    &&& bytes.len() >= RSDP_SIZE
    &&& bytes.subrange(0, 8) == signature()
    &&& byte_sum(bytes.subrange(0, RSDP_V1_SIZE as int)) % 256 == 0
    &&& (bytes[15] >= 2 ==> byte_sum(bytes.subrange(0, RSDP_SIZE as int)) % 256 == 0)
}

/// Whether a trustworthy root pointer lies in `bytes` at offset `at`.
pub open spec fn valid_at(bytes: Seq<u8>, at: int) -> bool {
    &&& 0 <= at
    &&& at + RSDP_SIZE <= bytes.len()
    &&& is_valid_rsdp(bytes.subrange(at, at + RSDP_SIZE))
}

/// Decoding loses nothing: the bytes of the decoded structure are the 36
/// bytes it was decoded from.
pub proof fn lemma_image_of_decoded(bytes: Seq<u8>)
    requires
        bytes.len() >= RSDP_SIZE,
    ensures
        decode(bytes).image() == bytes.subrange(0, RSDP_SIZE as int),
{
    let rsdp = decode(bytes);
    lemma_u32_bytes_of_value(bytes, 16);
    lemma_u32_bytes_of_value(bytes, 20);
    lemma_u64_bytes_of_value(bytes, 24);
    let upto_9 = rsdp.signature@ + seq![rsdp.checksum];
    assert(upto_9 =~= bytes.subrange(0, 9));
    let upto_16 = upto_9 + rsdp.oemid@ + seq![rsdp.revision];
    assert(upto_16 =~= bytes.subrange(0, 16));
    let upto_20 = upto_16 + u32_le_bytes(rsdp.rsdt_address);
    assert(upto_20 =~= bytes.subrange(0, 20));
    let upto_24 = upto_20 + u32_le_bytes(rsdp.length);
    assert(upto_24 =~= bytes.subrange(0, 24));
    let upto_32 = upto_24 + u64_le_bytes(rsdp.xsdt_address);
    assert(upto_32 =~= bytes.subrange(0, 32));
    let upto_36 = upto_32 + seq![rsdp.extended_checksum] + rsdp.reserved@;
    assert(upto_36 =~= bytes.subrange(0, 36));
}

/// A structure is what its own bytes decode to.
pub proof fn lemma_decoded_image(rsdp: RSDP)
    ensures
        rsdp.image().len() == RSDP_SIZE,
        decode(rsdp.image()) == rsdp,
{
    lemma_u32_value_of_bytes(rsdp.rsdt_address);
    lemma_u32_value_of_bytes(rsdp.length);
    lemma_u64_value_of_bytes(rsdp.xsdt_address);
    let image = rsdp.image();
    let upto_9 = rsdp.signature@ + seq![rsdp.checksum];
    let upto_16 = upto_9 + rsdp.oemid@ + seq![rsdp.revision];
    let upto_20 = upto_16 + u32_le_bytes(rsdp.rsdt_address);
    let upto_24 = upto_20 + u32_le_bytes(rsdp.length);
    let upto_32 = upto_24 + u64_le_bytes(rsdp.xsdt_address);
    assert(upto_9.len() == 9);
    assert(upto_16.len() == 16);
    assert(upto_20.len() == 20);
    assert(upto_24.len() == 24);
    assert(upto_32.len() == 32);
    assert(image.len() == 36);
    assert(image.subrange(0, 8) =~= rsdp.signature@);
    assert(image[8] == rsdp.checksum);
    assert(image.subrange(9, 15) =~= rsdp.oemid@);
    assert(image[15] == rsdp.revision);
    assert(image.subrange(16, 20) =~= u32_le_bytes(rsdp.rsdt_address));
    assert(image.subrange(20, 24) =~= u32_le_bytes(rsdp.length));
    assert(image.subrange(24, 32) =~= u64_le_bytes(rsdp.xsdt_address));
    assert(image[32] == rsdp.extended_checksum);
    assert(image.subrange(33, 36) =~= rsdp.reserved@);
    let back = decode(image);
    assert(le_u32(image, 16) == le_u32(image.subrange(16, 20), 0));
    assert(le_u32(image, 20) == le_u32(image.subrange(20, 24), 0));
    assert(le_u64(image, 24) == le_u64(image.subrange(24, 32), 0));
    assert(back.signature@ =~= rsdp.signature@) by {
        assert(forall|i: int| 0 <= i < 8 ==> image.subrange(0, 8)[i] == image[i]);
    }
    assert(back.oemid@ =~= rsdp.oemid@) by {
        assert(forall|i: int| 0 <= i < 6 ==> image.subrange(9, 15)[i] == image[i + 9]);
    }
    assert(back.reserved@ =~= rsdp.reserved@) by {
        assert(forall|i: int| 0 <= i < 3 ==> image.subrange(33, 36)[i] == image[i + 33]);
    }
    assert(back.signature =~= rsdp.signature);
    assert(back.oemid =~= rsdp.oemid);
    assert(back.reserved =~= rsdp.reserved);
    assert(back.checksum == rsdp.checksum);
    assert(back.revision == rsdp.revision);
    assert(back.rsdt_address == rsdp.rsdt_address);
    assert(back.length == rsdp.length);
    assert(back.xsdt_address == rsdp.xsdt_address);
    assert(back.extended_checksum == rsdp.extended_checksum);
}

/// Whether the eight bytes of `bytes` from `at` on are the signature.
fn has_signature(bytes: &[u8], at: usize) -> (same: bool)
    requires
        at + 8 <= bytes.len(),
    ensures
        same == (bytes@.subrange(at as int, at + 8) == signature()),
{
    let same = bytes[at] == 0x52 && bytes[at + 1] == 0x53 && bytes[at + 2] == 0x44 && bytes[at
        + 3] == 0x20 && bytes[at + 4] == 0x50 && bytes[at + 5] == 0x54 && bytes[at + 6] == 0x52
        && bytes[at + 7] == 0x20;
    proof {
        let part = bytes@.subrange(at as int, at + 8);
        if same {
            assert(part =~= signature());
        } else {
            assert(part[0] == bytes[at as int]);
            assert(part[1] == bytes[at + 1]);
            assert(part[2] == bytes[at + 2]);
            assert(part[3] == bytes[at + 3]);
            assert(part[4] == bytes[at + 4]);
            assert(part[5] == bytes[at + 5]);
            assert(part[6] == bytes[at + 6]);
            assert(part[7] == bytes[at + 7]);
        }
    }
    same
}

impl RSDP {
    /// Whether the structure declares ACPI 1.0.
    pub fn is_acpi_1_0(&self) -> (b: bool)
        ensures
            b == (self.revision == REVISION_1_0),
    {
        self.revision == REVISION_1_0
    }

    /// Whether the structure declares ACPI 2.0.
    pub fn is_acpi_2_0(&self) -> (b: bool)
        ensures
            b == (self.revision == REVISION_2_0),
    {
        self.revision == REVISION_2_0
    }

    /// The 36 bytes that spell the structure out in memory.
    pub open spec fn image(self) -> Seq<u8> {
        self.signature@ + seq![self.checksum] + self.oemid@ + seq![self.revision] + u32_le_bytes(
            self.rsdt_address,
        ) + u32_le_bytes(self.length) + u64_le_bytes(self.xsdt_address) + seq![
            self.extended_checksum,
        ] + self.reserved@
    }

    /// Whether the structure may be trusted: its bytes carry the signature
    /// and pass the checksums that its revision calls for.
    pub open spec fn is_valid(self) -> bool {
        is_valid_rsdp(self.image())
    }

    /// Decodes the 36 bytes of `bytes` from `at` on, field by field, without
    /// judging them.
    fn parse(bytes: &[u8], at: usize) -> (rsdp: RSDP)
        requires
            at + RSDP_SIZE <= bytes.len(),
        ensures
            rsdp == decode(bytes@.subrange(at as int, at + RSDP_SIZE)),
    {
        let rsdp = RSDP {
            signature: [
                bytes[at],
                bytes[at + 1],
                bytes[at + 2],
                bytes[at + 3],
                bytes[at + 4],
                bytes[at + 5],
                bytes[at + 6],
                bytes[at + 7],
            ],
            checksum: bytes[at + 8],
            oemid: [
                bytes[at + 9],
                bytes[at + 10],
                bytes[at + 11],
                bytes[at + 12],
                bytes[at + 13],
                bytes[at + 14],
            ],
            revision: bytes[at + 15],
            rsdt_address: read_u32(bytes, at + 16),
            length: read_u32(bytes, at + 20),
            xsdt_address: read_u64(bytes, at + 24),
            extended_checksum: bytes[at + 32],
            reserved: [bytes[at + 33], bytes[at + 34], bytes[at + 35]],
        };
        proof {
            let image = decode(bytes@.subrange(at as int, at + RSDP_SIZE));
            assert(rsdp.signature@ =~= image.signature@);
            assert(rsdp.oemid@ =~= image.oemid@);
            assert(rsdp.reserved@ =~= image.reserved@);
        }
        rsdp
    }

    /// Whether the 36 bytes of `bytes` from `at` on are a root pointer that
    /// may be trusted.
    fn validate(bytes: &[u8], at: usize) -> (valid: bool)
        requires
            at + RSDP_SIZE <= bytes.len(),
        ensures
            valid == valid_at(bytes@, at as int),
    {
        proof {
            let image = bytes@.subrange(at as int, at + RSDP_SIZE);
            assert(image.subrange(0, 8) =~= bytes@.subrange(at as int, at + 8));
            assert(image.subrange(0, RSDP_V1_SIZE as int) =~= bytes@.subrange(
                at as int,
                at + RSDP_V1_SIZE,
            ));
            assert(image.subrange(0, RSDP_SIZE as int) =~= image);
        }
        has_signature(bytes, at) && checksum(bytes, at, RSDP_V1_SIZE) == 0 && (bytes[at + 15] < 2
            || checksum(bytes, at, RSDP_SIZE) == 0)
    }

    /// Reads the root pointer that lies in `bytes` at offset `at`: the
    /// structure its 36 bytes spell out where they may be trusted, and
    /// nothing where they may not or where fewer than 36 are left.
    pub fn from_bytes(bytes: &[u8], at: usize) -> (found: Option<RSDP>)
        ensures
            found == if valid_at(bytes@, at as int) {
                Some(decode_at(bytes@, at as int))
            } else {
                None
            },
            found matches Some(rsdp) ==> rsdp.is_valid(),
    {
        if at > bytes.len() || bytes.len() - at < RSDP_SIZE || !Self::validate(bytes, at) {
            return None;
        }
        proof {
            let image = bytes@.subrange(at as int, at + RSDP_SIZE);
            lemma_image_of_decoded(image);
            assert(image.subrange(0, RSDP_SIZE as int) =~= image);
        }
        Some(Self::parse(bytes, at))
    }

    /// Finds the root pointer: in the region `already_supplied_rsdps`, given
    /// as its address and its bytes, where the bootloader supplied one, and
    /// else by a scan of `window`.
    pub fn get_rsdp(window: &[u8], already_supplied_rsdps: Option<(u64, &[u8])>) -> (found: Option<
        RSDP,
    >)
        ensures
            match already_supplied_rsdps {
                Some((base, area)) => supplied_result(area@, base, found),
                None => search_result(window@, found),
            },
            found matches Some(rsdp) ==> rsdp.is_valid(),
    {
        if let Some((base, area)) = already_supplied_rsdps {
            Self::get_already_supplied_rsdps(base, area)
        } else {
            Self::get_rsdp_by_searching(window)
        }
    }

    /// The address of the table the root pointer leads to: the XSDT for
    /// revision 2 and later, the RSDT before that. The XSDT address is cut
    /// to the platform's address width, which leaves it whole wherever an
    /// address has 64 bits.
    pub fn sdt_address(&self) -> (address: usize)
        ensures
            self.revision < 2 ==> address == self.rsdt_address,
            self.revision >= 2 ==> address == self.xsdt_address as usize,
            self.revision >= 2 && self.xsdt_address <= usize::MAX ==> address
                == self.xsdt_address,
    {
        if self.revision >= 2 {
            #[verifier::truncate]
            (self.xsdt_address as usize)
        } else {
            self.rsdt_address as usize
        }
    }
}

} // verus!
