//! Physical and virtual addresses, the frames and pages that hold them, and
//! the requests that the address-space mapper takes.

use vstd::prelude::*;

verus! {

/// Number of bytes in a frame and in a page.
pub const PAGE_SIZE: usize = 4096;

/// An address in physical memory. It cannot be read through: a byte is
/// reached only by a virtual address that the mapper has tied to its frame.
#[derive(Copy, Clone, Debug, PartialEq, Eq, Structural)]
pub struct PhysicalAddress {
    pub address: usize,
}

impl PhysicalAddress {
    /// The physical address `address`.
    pub fn new(address: usize) -> (physical: PhysicalAddress)
        ensures
            physical.address == address,
    {
        PhysicalAddress { address }
    }

    /// The address as a number.
    pub fn get(&self) -> (address: usize)
        ensures
            address == self.address,
    {
        self.address
    }
}

/// An address in the kernel's address space.
#[derive(Copy, Clone, Debug, PartialEq, Eq, Structural)]
pub struct VirtualAddress {
    pub address: usize,
}

impl VirtualAddress {
    /// The virtual address `address`.
    pub fn new(address: usize) -> (virt: VirtualAddress)
        ensures
            virt.address == address,
    {
        VirtualAddress { address }
    }

    /// The address as a number.
    pub fn get(&self) -> (address: usize)
        ensures
            address == self.address,
    {
        self.address
    }
}

/// A frame of physical memory, known by its number. Every frame lies
/// wholly within the address space, so its first address can be formed.
#[derive(Copy, Clone, Debug)]
pub struct Frame {
    number: usize,
}

impl Frame {
    #[verifier::type_invariant]
    spec fn in_address_space(self) -> bool {
        self.number * PAGE_SIZE <= usize::MAX
    }

    /// The frame's number: frame `n` holds the addresses from `n * 4096` on.
    pub closed spec fn index(self) -> nat {
        self.number as nat
    }

    /// The frame's number.
    pub fn number(&self) -> (number: usize)
        ensures
            number == self.index(),
    {
        self.number
    }

    /// The frame that holds `address`.
    pub fn containing_address(address: PhysicalAddress) -> (frame: Frame)
        ensures
            frame.index() == address.address / PAGE_SIZE,
    {
        Frame { number: address.get() / PAGE_SIZE }
    }

    /// The first address of the frame.
    pub fn start_address(&self) -> (start: PhysicalAddress)
        ensures
            start.address == self.index() * PAGE_SIZE,
    {
        proof {
            use_type_invariant(self);
        }
        PhysicalAddress::new(self.number * PAGE_SIZE)
    }

    /// The frames from `start` to `end`, both included, in rising order;
    /// none where `end` lies before `start`.
    pub fn range_inclusive(start: Frame, end: Frame) -> (frames: Vec<Frame>)
        ensures
            frames@.len() == if start.index() <= end.index() {
                end.index() - start.index() + 1
            } else {
                0
            },
            forall|i: int| 0 <= i < frames@.len() ==> (#[trigger] frames@[i]).index() == start.index() + i,
    {
        let mut frames: Vec<Frame> = Vec::new();
        if start.number > end.number {
            return frames;
        }
        let mut number: usize = start.number;
        proof {
            use_type_invariant(start);
            use_type_invariant(end);
        }
        while number <= end.number
            invariant
                start.number <= number,
                number <= end.number + 1,
                end.number * PAGE_SIZE <= usize::MAX,
                frames@.len() == number - start.number,
                forall|i: int|
                    0 <= i < frames@.len() ==> (#[trigger] frames@[i]).number == start.number + i,
            decreases end.number + 1 - number,
        {
            assert(number * PAGE_SIZE <= end.number * PAGE_SIZE) by (nonlinear_arith)
                requires
                    number <= end.number,
            ;
            frames.push(Frame { number });
            number += 1;
        }
        frames
    }
}

/// A page of the kernel's address space, known by its number.
#[derive(Copy, Clone, Debug)]
pub struct Page {
    number: usize,
}

impl Page {
    #[verifier::type_invariant]
    spec fn in_address_space(self) -> bool {
        self.number * PAGE_SIZE <= usize::MAX
    }

    /// The page's number: page `n` holds the addresses from `n * 4096` on.
    pub closed spec fn index(self) -> nat {
        self.number as nat
    }

    /// The page's number.
    pub fn number(&self) -> (number: usize)
        ensures
            number == self.index(),
    {
        self.number
    }

    /// The page that holds `address`.
    pub fn containing_address(address: VirtualAddress) -> (page: Page)
        ensures
            page.index() == address.address / PAGE_SIZE,
    {
        Page { number: address.get() / PAGE_SIZE }
    }

    /// The first address of the page.
    pub fn start_address(&self) -> (start: VirtualAddress)
        ensures
            start.address == self.index() * PAGE_SIZE,
    {
        proof {
            use_type_invariant(self);
        }
        VirtualAddress::new(self.number * PAGE_SIZE)
    }
}

/// Bit of a page table entry that makes the page present, and so readable.
pub const PRESENT: u64 = 0x1;

/// Bit of a page table entry that allows writes to the page.
pub const WRITABLE: u64 = 0x2;

/// Bit of a page table entry that forbids running code from the page.
pub const NO_EXECUTE: u64 = 0x8000_0000_0000_0000;

/// The protection bits of a page table entry.
#[derive(Copy, Clone, Debug, PartialEq, Eq, Structural)]
pub struct EntryFlags {
    pub bits: u64,
}

impl EntryFlags {
    /// The flags with exactly the bits of `bits` set.
    pub fn from_bits(bits: u64) -> (flags: EntryFlags)
        ensures
            flags.bits == bits,
    {
        EntryFlags { bits }
    }

    /// The bits that are set.
    pub fn bits(&self) -> (bits: u64)
        ensures
            bits == self.bits,
    {
        self.bits
    }

    /// The flags of `self` and of `other` together.
    pub fn union(self, other: EntryFlags) -> (both: EntryFlags)
        ensures
            both.bits == self.bits | other.bits,
    {
        EntryFlags { bits: self.bits | other.bits }
    }

    /// Whether every flag of `other` is set in `self`.
    pub fn contains(&self, other: EntryFlags) -> (all: bool)
        ensures
            all == (self.bits & other.bits == other.bits),
    {
        self.bits & other.bits == other.bits
    }
}

/// A request to the mapper: make `page` lead to `frame`, under the
/// protection `flags`.
#[derive(Copy, Clone, Debug)]
pub struct Mapping {
    pub page: Page,
    pub frame: Frame,
    pub flags: EntryFlags,
}

} // verus!
