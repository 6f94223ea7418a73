//! BPF maps: key-value stores shared between programs and the kernel.
pub mod hash;

use vstd::prelude::*;

use crate::profile::PhysicalProfile;

verus! {

/// Kinds of map.
#[derive(Debug, Clone, Copy, PartialEq, Eq, Structural)]
pub enum MapType {
    /// Hash table
    Hash,
    /// Array indexed by a 32-bit key
    Array,
    /// Ring buffer
    RingBuf,
}

/// A map's definition: its kind, key and value sizes in bytes, and the
/// number of entries it holds at most.
#[derive(Debug, Clone, Copy, PartialEq, Eq, Structural)]
pub struct MapDef {
    pub map_type: MapType,
    pub key_size: u32,
    pub value_size: u32,
    pub max_entries: u32,
}

impl MapDef {
    /// A definition from its parts.
    pub fn new(map_type: MapType, key_size: u32, value_size: u32, max_entries: u32) -> (r: Self)
        ensures
            r == (MapDef { map_type, key_size, value_size, max_entries }),
    {
        MapDef { map_type, key_size, value_size, max_entries }
    }

    /// Bytes that the entries of a full map take: key and value size times
    /// the number of entries.
    pub open spec fn spec_total_size(&self) -> int {
        (self.key_size + self.value_size) * self.max_entries
    }

    /// Bytes that the entries of a full map take.
    pub fn total_size(&self) -> (r: u128)
        ensures
            r == self.spec_total_size(),
    {
        let per_entry = self.key_size as u128 + self.value_size as u128;
        assert(per_entry * self.max_entries <= 0x1_ffff_fffe * 0xffff_ffff) by (nonlinear_arith)
            requires
                per_entry <= 0x1_ffff_fffe,
                self.max_entries <= 0xffff_ffff,
        ;
        per_entry * self.max_entries as u128
    }
}

/// Errors of map operations.
#[derive(Debug, Clone, Copy, PartialEq, Eq, Structural)]
pub enum MapError {
    /// The definition names another kind of map
    InvalidMapType,
    /// The key, or the key size, is invalid
    InvalidKey,
    /// The value, the value size or the entry count is invalid
    InvalidValue,
    /// The key exists and the update asked that it not
    KeyExists,
    /// The key does not exist
    KeyNotFound,
    /// No room for another entry
    MapFull,
    /// The map exceeds the profile's memory budget
    OutOfMemory,
}

/// Result of a map operation.
pub type MapResult<T> = Result<T, MapError>;

/// Update flag: create or replace.
pub const BPF_ANY: u64 = 0;

/// Update flag: create only; an existing key is an error.
pub const BPF_NOEXIST: u64 = 1;

/// Update flag: replace only; a missing key is an error.
pub const BPF_EXIST: u64 = 2;

/// The operations every map offers.
pub trait BpfMap<P: PhysicalProfile> {
    /// The map's internal invariant.
    spec fn well_formed(&self) -> bool;

    /// A copy of the value stored under `key`.
    fn lookup(&self, key: &[u8]) -> Option<Vec<u8>>
        requires
            self.well_formed(),
    ;

    /// Store `value` under `key`, as `flags` allow.
    fn update(&mut self, key: &[u8], value: &[u8], flags: u64) -> (r: MapResult<()>)
        requires
            old(self).well_formed(),
        ensures
            final(self).well_formed(),
    ;

    /// Remove `key`.
    fn delete(&mut self, key: &[u8]) -> (r: MapResult<()>)
        requires
            old(self).well_formed(),
        ensures
            final(self).well_formed(),
    ;

    /// The map's definition.
    fn def(&self) -> &MapDef;
}

} // verus!
