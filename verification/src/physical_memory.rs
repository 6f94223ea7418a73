//! Physical memory regions: a run of 4 KiB frames from a base address,
//! with the allocation state of each frame.
use vstd::prelude::*;

verus! {

/// A page size.
pub trait PageSize {
    /// The size in bytes.
    const SIZE: u64;
}

/// The 4 KiB page size.
pub struct Size4KiB;

impl PageSize for Size4KiB {
    const SIZE: u64 = 4096;
}

/// Allocation state of a physical frame.
#[derive(Debug, Clone, Copy, PartialEq, Eq, Structural)]
pub enum FrameState {
    /// Available for allocation
    Free,
    /// In use
    Allocated,
}

/// The frame of a region starting at `base` with `len` frames that holds
/// `addr`, if any.
pub open spec fn index_of(base: u64, len: nat, addr: u64) -> Option<usize> {
    if addr < base || (addr - base) / 4096 >= len {
        None
    } else {
        Some(((addr - base) / 4096) as usize)
    }
}

/// The address of frame `index` of a region starting at `base` with `len`
/// frames, if there is such a frame.
pub open spec fn address_of(base: u64, len: nat, index: usize) -> Option<u64> {
    if index < len {
        Some((base + index * 4096) as u64)
    } else {
        None
    }
}

/// A contiguous region of usable physical memory.
#[derive(Debug, Clone)]
pub struct MemoryRegion {
    base_addr: u64,
    frames: Vec<FrameState>,
}

impl MemoryRegion {
    /// The first address of the region.
    pub closed spec fn base(&self) -> u64 {
        self.base_addr
    }

    /// The state of each frame, by its offset from the base.
    pub closed spec fn states(&self) -> Seq<FrameState> {
        self.frames@
    }

    /// A region of `num_frames` frames, all in `initial_state`.
    pub fn new(base_addr: u64, num_frames: usize, initial_state: FrameState) -> (r: Self)
        ensures
            r.base() == base_addr,
            r.states() == Seq::new(num_frames as nat, |i: int| initial_state),
    {
        let frames = vec![initial_state; num_frames];
        assert(frames@ =~= Seq::new(num_frames as nat, |i: int| initial_state));
        MemoryRegion { base_addr, frames }
    }

    /// A region with the given frame states.
    pub fn with_frames(base_addr: u64, frames: Vec<FrameState>) -> (r: Self)
        ensures
            r.base() == base_addr,
            r.states() == frames@,
    {
        MemoryRegion { base_addr, frames }
    }

    /// The first address of the region.
    pub fn base_addr(&self) -> (r: u64)
        ensures
            r == self.base(),
    {
        self.base_addr
    }

    /// Number of frames.
    pub fn len(&self) -> (r: usize)
        ensures
            r == self.states().len(),
    {
        self.frames.len()
    }

    /// Whether the region has no frame.
    pub fn is_empty(&self) -> (r: bool)
        ensures
            r == (self.states().len() == 0),
    {
        self.frames.len() == 0
    }

    /// The frame states.
    pub fn frames(&self) -> (r: &[FrameState])
        ensures
            r@ == self.states(),
    {
        self.frames.as_slice()
    }

    /// The frame states, for change.
    pub fn frames_mut(&mut self) -> (r: &mut [FrameState])
        ensures
            r@ == old(self).states(),
            final(r)@ == final(self).states(),
            final(self).base() == old(self).base(),
    {
        self.frames.as_mut_slice()
    }

    /// The index of the frame that holds `addr`, or `None` when the address
    /// is outside the region.
    pub fn frame_index(&self, addr: u64) -> (r: Option<usize>)
        ensures
            r == index_of(self.base(), self.states().len(), addr),
    {
        if addr < self.base_addr {
            return None;
        }
        let offset = addr - self.base_addr;
        let index = offset / Size4KiB::SIZE;
        if index < self.frames.len() as u64 {
            Some(index as usize)
        } else {
            None
        }
    }

    /// The address of frame `index`, or `None` when there is no such frame.
    pub fn frame_address(&self, index: usize) -> (r: Option<u64>)
        requires
            index < self.states().len() ==> self.base() + index * 4096 <= u64::MAX,
        ensures
            r == address_of(self.base(), self.states().len(), index),
    {
        if index < self.frames.len() {
            Some(self.base_addr + (index as u64 * Size4KiB::SIZE))
        } else {
            None
        }
    }
}

/// Every frame's address lies in that frame: looking the address of frame
/// `index` up gives `index` back.
pub proof fn lemma_frame_address_roundtrip(base: u64, len: nat, index: usize)
    requires
        index < len,
        base + index * 4096 <= u64::MAX,
    ensures
        address_of(base, len, index) is Some,
        index_of(base, len, address_of(base, len, index).unwrap()) == Some(index),
{
    let addr = (base + index * 4096) as u64;
    assert((addr - base) / 4096 == index) by (nonlinear_arith)
        requires
            addr == base + index * 4096,
    ;
}

/// An address in the region lies within the 4 KiB that start at the address
/// of its frame.
pub proof fn lemma_frame_index_bounds(base: u64, len: nat, addr: u64)
    requires
        len <= usize::MAX,
        index_of(base, len, addr) is Some,
    ensures
        ({
            let i = index_of(base, len, addr).unwrap();
            &&& i < len
            &&& base + i * 4096 <= addr < base + i * 4096 + 4096
        }),
{
    let i = (addr - base) / 4096;
    assert(i * 4096 <= addr - base < i * 4096 + 4096) by (nonlinear_arith)
        requires
            i == (addr - base) / 4096,
            addr - base >= 0,
    ;
}

} // verus!
