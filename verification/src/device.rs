//! The registry of raw devices: each device is registered under the id it
//! reports, and an id is registered at most once. Devices are kept in the order of
//! their ids.
use std::collections::BTreeMap;

use vstd::prelude::*;

verus! {

/// Why a device could not be registered.
#[derive(Debug, Clone, Copy, PartialEq, Eq, Structural)]
pub enum RegisterDeviceError {
    /// A device with the same id is registered already
    AlreadyRegistered,
}

/// A raw device, as the kernel's drivers implement it: it reports its id.
pub trait RawDevice {
    /// The id this device reports.
    spec fn id_of(&self) -> u64;

    /// The device's id.
    fn id(&self) -> (r: u64)
        ensures
            r == self.id_of(),
    ;
}

/// Raw devices by id. The caller holds each device behind whatever handle
/// it shares devices with.
pub struct RawDeviceRegistry<D> {
    devices: BTreeMap<u64, D>,
}

impl<D> View for RawDeviceRegistry<D> {
    type V = Map<u64, D>;

    /// The registered devices by id.
    closed spec fn view(&self) -> Map<u64, D> {
        self.devices@
    }
}

impl<D> RawDeviceRegistry<D> {
    /// An empty registry.
    pub fn new() -> (r: Self)
        ensures
            r@ == Map::<u64, D>::empty(),
    {
        RawDeviceRegistry { devices: BTreeMap::new() }
    }

    /// The registered devices, in increasing order of their ids.
    pub fn all_devices(&self) -> (r: Vec<&D>)
        ensures
            exists|ids: Seq<u64>|
                {
                    &&& ids.no_duplicates()
                    &&& ids.to_set() == self@.dom()
                    &&& forall|i: int, j: int| 0 <= i < j < ids.len() ==> ids[i] < ids[j]
                    &&& r@ == ids.map(|i: int, k: u64| &self@[k])
                },
    {
        broadcast use vstd::std_specs::btree::group_btree_axioms;
        broadcast use vstd::laws_cmp::group_laws_cmp;
        let values = self.devices.values();
        let ghost all = vstd::std_specs::iter::IteratorSpec::remaining(&values);
        let mut out: Vec<&D> = Vec::new();
        for v in it: values
            invariant
                out@ == it.seq().take(it.index()),
                it.seq() == all,
        {
            out.push(v);
        }
        proof {
            assert(out@ =~= all);
            let ids = choose|ids: Seq<u64>|
                {
                    &&& vstd::std_specs::btree::increasing_seq(ids)
                    &&& ids.to_set() == self@.dom()
                    &&& ids.no_duplicates()
                    &&& all == ids.map(|i: int, k: u64| &self@[k])
                };
            assert forall|i: int, j: int| 0 <= i < j < ids.len() implies ids[i] < ids[j] by {
                assert(vstd::std_specs::cmp::OrdSpec::cmp_spec(&ids[i], &ids[j]) is Less);
            }
        }
        out
    }
}

impl<D: RawDevice> RawDeviceRegistry<D> {
    /// Register `device` under the id it reports: an error, leaving the
    /// registry as it was, when that id is registered already; else the
    /// device is added under its id.
    pub fn register_device(&mut self, device: D) -> (r: Result<(), RegisterDeviceError>)
        ensures
            old(self)@.contains_key(device.id_of()) ==> r == Err::<(), RegisterDeviceError>(
                RegisterDeviceError::AlreadyRegistered,
            ) && final(self)@ == old(self)@,
            !old(self)@.contains_key(device.id_of()) ==> r is Ok && final(self)@ == old(self)@.insert(
                device.id_of(),
                device,
            ),
    {
        broadcast use vstd::std_specs::btree::group_btree_axioms;
        let id = device.id();
        if self.devices.contains_key(&id) {
            return Err(RegisterDeviceError::AlreadyRegistered);
        }
        self.devices.insert(id, device);
        Ok(())
    }
}

impl<D> Default for RawDeviceRegistry<D> {
    fn default() -> (r: Self)
        ensures
            r@ == Map::<u64, D>::empty(),
    {
        Self::new()
    }
}

} // verus!
