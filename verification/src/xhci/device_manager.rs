//! The devices of the controller's slots and the Device Context Base
//! Address Array (xHCI §6.1) that tells the controller where each slot's
//! Device Context lies: entry 0 points at the scratchpad buffer array, entry
//! `n` at the Device Context of slot `n`.
use vstd::prelude::*;

verus! {

pub struct DeviceManager<T> {
    /// The Device Context Base Address Array, one entry per slot and entry 0.
    device_contexts: Vec<u64>,
    /// The device in each slot; index 0 is not a slot.
    device_context_infos: Vec<Option<T>>,
}

impl<T> DeviceManager<T> {
    /// The Device Context Base Address Array.
    pub closed spec fn spec_device_contexts(&self) -> Seq<u64> {
        self.device_contexts@
    }

    /// The device of each slot.
    pub closed spec fn spec_devices(&self) -> Seq<Option<T>> {
        self.device_context_infos@
    }

    /// Both tables have an entry for index 0 and one per slot.
    pub open spec fn wf(&self) -> bool {
        &&& self.spec_device_contexts().len() >= 1
        &&& self.spec_devices().len() == self.spec_device_contexts().len()
    }

    /// The number of slots.
    pub open spec fn spec_max_slots(&self) -> int {
        self.spec_device_contexts().len() - 1
    }

    /// Tables for `max_slots` slots: every address 0, no device.
    pub fn new(max_slots: u8) -> (m: Self)
        ensures
            m.wf(),
            m.spec_max_slots() == max_slots,
            m.spec_device_contexts() == Seq::new(max_slots as nat + 1, |i: int| 0u64),
            m.spec_devices() == Seq::new(max_slots as nat + 1, |i: int| None::<T>),
    {
        let len = max_slots as usize + 1;
        let mut device_contexts: Vec<u64> = Vec::new();
        let mut device_context_infos: Vec<Option<T>> = Vec::new();
        let mut i: usize = 0;
        while i < len
            invariant
                i <= len,
                len == max_slots as usize + 1,
                device_contexts@ == Seq::new(i as nat, |j: int| 0u64),
                device_context_infos@ == Seq::new(i as nat, |j: int| None::<T>),
            decreases len - i,
        {
            device_contexts.push(0);
            device_context_infos.push(None);
            i = i + 1;
            assert(device_contexts@ =~= Seq::new(i as nat, |j: int| 0u64));
            assert(device_context_infos@ =~= Seq::new(i as nat, |j: int| None::<T>));
        }
        DeviceManager { device_contexts, device_context_infos }
    }

    /// The number of slots.
    pub fn max_slots(&self) -> (n: usize)
        requires
            self.wf(),
        ensures
            n == self.spec_max_slots(),
    {
        self.device_contexts.len() - 1
    }

    /// Points entry 0 at the scratchpad buffer array at `ptr_head`.
    pub fn set_scratchpad_buffer_array(&mut self, ptr_head: u64)
        requires
            old(self).wf(),
        ensures
            final(self).wf(),
            final(self).spec_device_contexts() == old(self).spec_device_contexts().update(0, ptr_head),
            final(self).spec_devices() == old(self).spec_devices(),
    {
        self.device_contexts.set(0, ptr_head);
    }

    /// Puts `device` into the free slot `slot_id`.
    pub fn allocate_device(&mut self, slot_id: usize, device: T)
        requires
            old(self).wf(),
            slot_id <= old(self).spec_max_slots(),
            old(self).spec_devices()[slot_id as int] is None,
        ensures
            final(self).wf(),
            final(self).spec_devices() == old(self).spec_devices().update(slot_id as int, Some(device)),
            final(self).spec_device_contexts() == old(self).spec_device_contexts(),
    {
        self.device_context_infos.set(slot_id, Some(device));
    }

    /// Frees slot `slot_id`: it holds no device and its Device Context
    /// address is 0 again.
    pub fn deallocate_device(&mut self, slot_id: usize)
        requires
            old(self).wf(),
            slot_id <= old(self).spec_max_slots(),
        ensures
            final(self).wf(),
            final(self).spec_devices() == old(self).spec_devices().update(slot_id as int, None),
            final(self).spec_device_contexts() == old(self).spec_device_contexts().update(slot_id as int, 0),
    {
        self.device_context_infos.set(slot_id, None);
        self.device_contexts.set(slot_id, 0);
    }

    /// The device in slot `slot_id`, if any.
    pub fn device_by_slot_id(&self, slot_id: usize) -> (d: Option<&T>)
        requires
            self.wf(),
            slot_id <= self.spec_max_slots(),
        ensures
            d == match self.spec_devices()[slot_id as int] {
                Some(t) => Some(&t),
                None => None::<&T>,
            },
    {
        match &self.device_context_infos[slot_id] {
            Some(t) => Some(t),
            None => None,
        }
    }

    /// Tells the controller that the Device Context of the device in slot
    /// `slot_id` lies at `device_context_address`.
    pub fn load_device_context(&mut self, slot_id: usize, device_context_address: u64)
        requires
            old(self).wf(),
            slot_id <= old(self).spec_max_slots(),
            old(self).spec_devices()[slot_id as int] is Some,
        ensures
            final(self).wf(),
            final(self).spec_device_contexts() == old(self).spec_device_contexts().update(
                slot_id as int,
                device_context_address,
            ),
            final(self).spec_devices() == old(self).spec_devices(),
    {
        self.device_contexts.set(slot_id, device_context_address);
    }

    /// The Device Context Base Address Array, entry by entry.
    pub fn device_contexts(&self) -> (a: &Vec<u64>)
        ensures
            a@ == self.spec_device_contexts(),
    {
        &self.device_contexts
    }
}

} // verus!
