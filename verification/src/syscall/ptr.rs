//! Userspace addresses.
//!
//! On x86_64 with 4-level paging, canonical addresses are the lower half
//! `0x0000_0000_0000_0000..=0x0000_7FFF_FFFF_FFFF` (userspace) and the upper
//! half `0xFFFF_8000_0000_0000..=0xFFFF_FFFF_FFFF_FFFF` (kernel); everything
//! between is not canonical.
use vstd::prelude::*;

use crate::abi::{Errno, EINVAL};
use core::marker::PhantomData;
use vstd::std_specs::convert::FromSpecImpl;

verus! {

/// First address of the upper (kernel) half.
pub const UPPER_HALF_START: u64 = 0xFFFF_8000_0000_0000;

/// First address past the lower (userspace) half.
pub const LOWER_HALF_END: u64 = 0x0000_8000_0000_0000;

/// An address that is not in userspace, or a range that leaves it.
#[derive(Debug)]
pub struct NotUserspace(pub usize);

impl From<NotUserspace> for Errno {
    fn from(e: NotUserspace) -> (r: Errno) {
        EINVAL
    }
}

impl FromSpecImpl<NotUserspace> for Errno {
    open spec fn obeys_from_spec() -> bool {
        true
    }

    open spec fn from_spec(e: NotUserspace) -> Errno {
        EINVAL
    }
}

/// Whether `addr` is canonical: bits 48 to 63 repeat bit 47.
pub open spec fn is_canonical(addr: usize) -> bool {
    addr < LOWER_HALF_END || addr >= UPPER_HALF_START
}

/// Whether `addr` is in the upper half; an error for a non-canonical address.
pub open spec fn upper_half(addr: usize) -> Result<bool, usize> {
    if !is_canonical(addr) {
        Err(addr)
    } else {
        Ok(addr >= UPPER_HALF_START)
    }
}

/// Whether `addr` is in the upper half; an error for a non-canonical address.
fn is_upper_half(addr: usize) -> (r: Result<bool, NotUserspace>)
    ensures
        match upper_half(addr) {
            Ok(b) => r matches Ok(c) && c == b,
            Err(a) => r matches Err(e) && e.0 == a,
        },
{
    if addr as u64 >= LOWER_HALF_END && (addr as u64) < UPPER_HALF_START {
        return Err(NotUserspace(addr));
    }
    Ok(addr as u64 >= UPPER_HALF_START)
}

/// The outcome of checking that `size` bytes from `start` stay in userspace:
/// the address that fails, if any.
pub open spec fn range_check(start: usize, size: usize) -> Result<(), usize> {
    if start + size > usize::MAX {
        Err(start)
    } else if (start + size) as usize >= LOWER_HALF_END {
        Err((start + size) as usize)
    } else {
        Ok(())
    }
}

/// Validate `size` bytes from `start`, returning the failing address.
fn check_range(start: usize, size: usize) -> (r: Result<(), NotUserspace>)
    ensures
        match range_check(start, size) {
            Ok(()) => r is Ok,
            Err(a) => r matches Err(e) && e.0 == a,
        },
{
    let end = match start.checked_add(size) {
        Some(end) => end,
        None => return Err(NotUserspace(start)),
    };
    match is_upper_half(end) {
        Err(e) => Err(e),
        Ok(true) => Err(NotUserspace(end)),
        Ok(false) => Ok(()),
    }
}

/// A read-only pointer into userspace, held by its address.
pub struct UserspacePtr<T> {
    addr: usize,
    _marker: PhantomData<T>,
}

impl<T> Clone for UserspacePtr<T> {
    fn clone(&self) -> (r: Self)
        ensures
            r.spec_addr() == self.spec_addr(),
    {
        UserspacePtr { addr: self.addr, _marker: PhantomData }
    }
}

impl<T> Copy for UserspacePtr<T> {
}

impl<T> UserspacePtr<T> {
    /// The address.
    pub closed spec fn spec_addr(&self) -> usize {
        self.addr
    }

    /// A pointer to `ptr`, which must be a canonical lower-half address.
    pub fn try_from_usize(ptr: usize) -> (r: Result<Self, NotUserspace>)
        ensures
            ptr < LOWER_HALF_END ==> (r matches Ok(p) && p.spec_addr() == ptr),
            ptr >= LOWER_HALF_END ==> (r matches Err(e) && e.0 == ptr),
    {
        match is_upper_half(ptr) {
            Err(e) => Err(e),
            Ok(true) => Err(NotUserspace(ptr)),
            Ok(false) => Ok(UserspacePtr { addr: ptr, _marker: PhantomData }),
        }
    }

    /// Check that `size` bytes from the pointer stay in userspace.
    pub fn validate_range(&self, size: usize) -> (r: Result<(), NotUserspace>)
        ensures
            match range_check(self.spec_addr(), size) {
                Ok(()) => r is Ok,
                Err(a) => r matches Err(e) && e.0 == a,
            },
    {
        check_range(self.addr, size)
    }

    /// The address.
    pub fn addr(&self) -> (r: usize)
        ensures
            r == self.spec_addr(),
    {
        self.addr
    }
}

/// A writable pointer into userspace, held by its address.
pub struct UserspaceMutPtr<T> {
    addr: usize,
    _marker: PhantomData<T>,
}

impl<T> UserspaceMutPtr<T> {
    /// The address.
    pub closed spec fn spec_addr(&self) -> usize {
        self.addr
    }

    /// A pointer to `ptr`, which must be a canonical lower-half address.
    pub fn try_from_usize(ptr: usize) -> (r: Result<Self, NotUserspace>)
        ensures
            ptr < LOWER_HALF_END ==> (r matches Ok(p) && p.spec_addr() == ptr),
            ptr >= LOWER_HALF_END ==> (r matches Err(e) && e.0 == ptr),
    {
        match is_upper_half(ptr) {
            Err(e) => Err(e),
            Ok(true) => Err(NotUserspace(ptr)),
            Ok(false) => Ok(UserspaceMutPtr { addr: ptr, _marker: PhantomData }),
        }
    }

    /// Check that `size` bytes from the pointer stay in userspace.
    pub fn validate_range(&self, size: usize) -> (r: Result<(), NotUserspace>)
        ensures
            match range_check(self.spec_addr(), size) {
                Ok(()) => r is Ok,
                Err(a) => r matches Err(e) && e.0 == a,
            },
    {
        check_range(self.addr, size)
    }

    /// The address.
    pub fn addr(&self) -> (r: usize)
        ensures
            r == self.spec_addr(),
    {
        self.addr
    }
}

/// A range that validates lies wholly in the canonical lower half: its
/// first and last byte are userspace addresses.
pub proof fn lemma_valid_range_in_userspace(start: usize, size: usize)
    requires
        range_check(start, size) is Ok,
    ensures
        is_canonical(start) && start < UPPER_HALF_START,
        is_canonical((start + size) as usize) && start + size < LOWER_HALF_END,
{
}

} // verus!
