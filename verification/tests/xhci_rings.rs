use lemola::xhci::command_ring::CommandRing;
use lemola::xhci::device_manager::DeviceManager;
use lemola::usb::setup_packet::SetupPacketRaw;
use lemola::xhci::event_ring::{
    decode_event, EventRing, EventRingSegmentTableEntry, EventTrb, WaitKind, WaitPoll,
};
use lemola::xhci::port::{
    port_write_value, PortConfigPhase, PortConfigureState, PortStatusChangeAction, PortWrapper, PortWrite,
};
use lemola::xhci::transfer_ring::TransferRing;
use lemola::xhci::trb::TrbRaw;
use lemola::xhci::user_event_ring::{InitPortDevice, UserEvent, UserEventRing};

#[test]
fn trb_cycle_bit_is_bit_zero_of_the_last_word() {
    let mut t = TrbRaw::new_unchecked([1, 2, 3, 0x1800]);
    assert!(!t.cycle_bit());
    t.set_cycle_bit(true);
    assert_eq!(t.into_raw(), [1, 2, 3, 0x1801]);
    t.toggle_cycle_bit();
    assert_eq!(t.into_raw(), [1, 2, 3, 0x1800]);
    let mut u = TrbRaw::zeroed();
    u.write_in_order(TrbRaw::new_unchecked([9, 8, 7, 6]));
    assert_eq!(u.into_raw(), [9, 8, 7, 6]);
}

#[test]
fn link_trb_layout() {
    let link = TrbRaw::link(0x1234_5678_9abc_def0, true);
    assert_eq!(link.into_raw(), [0x9abc_def0, 0x1234_5678, 0, 0x1803]);
    let link = TrbRaw::link(0, false);
    assert_eq!(link.into_raw(), [0, 0, 0, 0x1802]);
}

#[test]
fn command_ring_wraps_with_a_link_and_toggles_its_cycle() {
    let mut ring = CommandRing::new(4);
    assert!(ring.cycle_bit());
    assert_eq!(ring.push(TrbRaw::new_unchecked([1, 0, 0, 23 << 10])), 0);
    assert_eq!(ring.trb_at(0).into_raw(), [1, 0, 0, (23 << 10) | 1]);
    assert_eq!(ring.push(TrbRaw::new_unchecked([2, 0, 0, 23 << 10])), 1);
    assert_eq!(ring.write_index(), 2);
    assert_eq!(ring.push(TrbRaw::new_unchecked([3, 0, 0, 23 << 10 | 1])), 2);
    // the last slot now holds a link and writing starts over with cycle 0
    assert_eq!(ring.trb_at(3).into_raw(), [0, 0, 0, 0x1802]);
    assert_eq!(ring.write_index(), 0);
    assert!(!ring.cycle_bit());
    assert_eq!(ring.push(TrbRaw::new_unchecked([4, 0, 0, 23 << 10 | 1])), 0);
    assert_eq!(ring.trb_at(0).into_raw(), [4, 0, 0, 23 << 10]);
    assert_eq!(ring.buffer_len(), 4);
}

#[test]
fn transfer_ring_links_back_to_its_segment() {
    let mut ring = TransferRing::new(3, 0x10_0000);
    assert_eq!(ring.buffer_ptr(), 0x10_0000);
    assert_eq!(ring.push(TrbRaw::new_unchecked([0xaa, 0, 8, 1 << 10])), 0);
    assert_eq!(ring.trb_address(0), 0x10_0000);
    assert_eq!(ring.push(TrbRaw::new_unchecked([0xbb, 0, 8, 1 << 10])), 1);
    assert_eq!(ring.trb_at(2).into_raw(), [0x10_0000, 0, 0, 0x1803]);
    assert_eq!(ring.write_index(), 0);
    assert!(!ring.cycle_bit());
    assert_eq!(ring.cycle_bits(), vec![true, true, true]);
    // the controller finished the first TRB: flip it and write after it
    ring.flip_cycle_bit_at(0x10_0000);
    assert_eq!(ring.trb_at(0).into_raw(), [0xaa, 0, 8, 1 << 10]);
    assert_eq!(ring.write_index(), 1);
    assert_eq!(ring.trb_address(2), 0x10_0020);
}

#[test]
fn event_ring_segment_table_entry_fields() {
    let mut e = EventRingSegmentTableEntry::new(0x1_2345_6780, 32);
    assert_eq!(e.ring_segment_base_address(), 0x1_2345_6780);
    assert_eq!(e.ring_segment_size(), 32);
    e.set_ring_segment_size(0xffff);
    assert_eq!(e.ring_segment_size(), 0xffff);
    assert_eq!(e.ring_segment_base_address(), 0x1_2345_6780);
    e.set_ring_segment_base_address(0x40);
    assert_eq!(e.ring_segment_base_address(), 0x40);
    assert_eq!(e.ring_segment_size(), 0xffff);
}

#[test]
fn event_ring_dequeue_pointer_wraps_and_toggles() {
    let mut ring = EventRing::new(0x4000, 2);
    assert!(ring.cycle_bit());
    assert_eq!(ring.pop(0x4000), 0x4010);
    assert!(ring.cycle_bit());
    assert_eq!(ring.pop(0x4010), 0x4000);
    assert!(!ring.cycle_bit());
    let entry = ring.segment_table_entry();
    assert_eq!(entry.ring_segment_base_address(), 0x4000);
    assert_eq!(entry.ring_segment_size(), 2);
}

fn transfer_event(pointer: u64, len: u32, code: u32, ep: u32, slot: u32, cycle: u32) -> TrbRaw {
    TrbRaw::new_unchecked([
        pointer as u32,
        (pointer >> 32) as u32,
        (code << 24) | len,
        (slot << 24) | (ep << 16) | (32 << 10) | cycle,
    ])
}

#[test]
fn events_are_decoded() {
    assert_eq!(
        decode_event(transfer_event(0x1_0000_0040, 3, 13, 3, 2, 1)),
        Some(EventTrb::TransferEvent {
            trb_pointer: 0x1_0000_0040,
            trb_transfer_length: 3,
            completion_code: 13,
            endpoint_id: 3,
            slot_id: 2,
        })
    );
    let cc = TrbRaw::new_unchecked([0x2000, 0, 1 << 24, (5 << 24) | (33 << 10) | 1]);
    assert_eq!(
        decode_event(cc),
        Some(EventTrb::CommandCompletion { command_trb_pointer: 0x2000, completion_code: 1, slot_id: 5 })
    );
    let psc = TrbRaw::new_unchecked([4 << 24, 0, 1 << 24, (34 << 10) | 1]);
    assert_eq!(decode_event(psc), Some(EventTrb::PortStatusChange { port_id: 4 }));
    // a reserved bit set makes the TRB invalid
    let bad = TrbRaw::new_unchecked([4 << 24 | 1, 0, 1 << 24, (34 << 10) | 1]);
    assert_eq!(decode_event(bad), None);
    // a Link TRB is not an event
    assert_eq!(decode_event(TrbRaw::link(0x40, true)), None);
}

#[test]
fn waiting_for_an_event_keeps_the_others() {
    let mut ring = EventRing::new(0x8000, 4);
    // the TRB at the dequeue pointer still carries the old cycle: nothing yet
    let stale = transfer_event(0x100, 0, 1, 3, 2, 0);
    assert_eq!(ring.poll_wait(stale, 0x8000, WaitKind::SlotId(2)), (WaitPoll::Pending, 0x8000));
    assert!(!ring.pending_already_popped_queue());
    // an event of another slot is kept for later
    let other = transfer_event(0x100, 0, 1, 3, 7, 1);
    assert_eq!(ring.poll_wait(other, 0x8000, WaitKind::SlotId(2)), (WaitPoll::Pending, 0x8010));
    assert!(ring.pending_already_popped_queue());
    // the awaited one is handed out
    let mine = transfer_event(0x200, 5, 1, 3, 2, 1);
    let (poll, next) = ring.poll_wait(mine, 0x8010, WaitKind::SlotId(2));
    assert_eq!(next, 0x8020);
    assert_eq!(
        poll,
        WaitPoll::Ready(EventTrb::TransferEvent {
            trb_pointer: 0x200,
            trb_transfer_length: 5,
            completion_code: 1,
            endpoint_id: 3,
            slot_id: 2,
        })
    );
    let kept = ring.pop_already_popped().unwrap();
    assert_eq!(kept.into_raw(), other.into_raw());
    assert!(ring.pop_already_popped().is_none());
    // waiting for a command completion by its TRB address
    let cc = TrbRaw::new_unchecked([0x3000, 0, 1 << 24, (1 << 24) | (33 << 10) | 1]);
    assert_eq!(
        ring.poll_wait(cc, 0x8020, WaitKind::CommandTrb(0x3000)).0,
        WaitPoll::Ready(EventTrb::CommandCompletion { command_trb_pointer: 0x3000, completion_code: 1, slot_id: 1 })
    );
}

#[test]
fn portsc_writes_keep_change_bits() {
    // connected, enabled, powered, with connect and reset changes pending
    let portsc = 0x0022_0203;
    assert_eq!(port_write_value(portsc, PortWrite::Reset), 0x0000_0211);
    assert_eq!(port_write_value(portsc, PortWrite::Power), 0x0000_0201);
    assert_eq!(port_write_value(portsc, PortWrite::ClearConnectStatusChange), 0x0002_0201);
    assert_eq!(port_write_value(portsc, PortWrite::ClearPortResetChange), 0x0020_0201);
    let p = PortWrapper::new(3, portsc);
    assert!(p.is_connected());
    assert!(p.connect_status_change());
    assert!(p.is_enabled());
    let q = PortWrapper::new(3, 0x0000_0211);
    assert!(!q.is_enabled());
    assert!(!PortWrapper::new(0, 0).is_connected());
}

#[test]
fn user_events_come_out_in_order() {
    let mut ring = UserEventRing::new();
    let a = InitPortDevice { port_index: 1, routing: 2, speed: 0, parent_hub_slot_id: None, parent_port_index: None };
    let b = InitPortDevice { port_index: 4, routing: 5, speed: 1, parent_hub_slot_id: Some(1), parent_port_index: Some(2) };
    ring.push(UserEvent::InitPortDevice(a));
    ring.push(UserEvent::InitPortDevice(b));
    assert_eq!(ring.pop(), Some(UserEvent::InitPortDevice(a)));
    assert_eq!(ring.pop(), Some(UserEvent::InitPortDevice(b)));
    assert_eq!(ring.pop(), None);
}

#[test]
fn control_transfer_with_data_pushes_three_stages() {
    let mut ring = TransferRing::new(8, 0x4000);
    let setup = SetupPacketRaw {
        bm_request_type: 0x80,
        b_request: 6,
        w_value: 0x0100,
        w_index: 0,
        w_length: 18,
    };
    let addresses = ring.push_control_transfer(setup, Some((0x1234_5678_9abc_def0, 18)));
    assert_eq!(addresses, vec![0x4000, 0x4010, 0x4020]);
    // Setup Stage: IDT, type 2, Transfer Type IN, cycle 1
    assert_eq!(ring.trb_at(0).into_raw(), [0x0100_0680, 0x0012_0000, 8, 0x0003_0841]);
    // Data Stage: the buffer, 18 bytes, IOC, type 3, direction IN, cycle 1
    assert_eq!(ring.trb_at(1).into_raw(), [0x9abc_def0, 0x1234_5678, 18, 0x0001_0c21]);
    // Status Stage: type 4, OUT, no interrupt, cycle 1
    assert_eq!(ring.trb_at(2).into_raw(), [0, 0, 0, 0x1001]);
    assert_eq!(ring.write_index(), 3);
}

#[test]
fn control_transfer_without_data_pushes_two_stages_across_the_wrap() {
    let mut ring = TransferRing::new(3, 0x8000);
    ring.push(TrbRaw::zeroed());
    let setup = SetupPacketRaw {
        bm_request_type: 0,
        b_request: 9,
        w_value: 1,
        w_index: 0,
        w_length: 0,
    };
    let addresses = ring.push_control_transfer(setup, None);
    // slot 1 was the last before the Link TRB: the status stage wraps to 0
    assert_eq!(addresses, vec![0x8010, 0x8000]);
    assert_eq!(ring.trb_at(1).into_raw(), [0x0001_0900, 0, 8, 0x0000_0841]);
    // Link TRB back to the segment, toggle cycle, cycle 1
    assert_eq!(ring.trb_at(2).into_raw(), [0x8000, 0, 0, 0x1803]);
    // after the wrap the cycle state is 0: Status Stage IN with IOC, cycle 0
    assert_eq!(ring.trb_at(0).into_raw(), [0, 0, 0, 0x0001_1020]);
    assert!(!ring.cycle_bit());
    assert_eq!(ring.write_index(), 1);
}

#[test]
fn fill_with_normal_hands_every_slot_a_buffer() {
    let mut ring = TransferRing::new(4, 0x1_0000);
    ring.fill_with_normal(&vec![0x2000, 0x3000, 0x1_0000_4000], 8);
    // Normal TRBs: the buffer, 8 bytes, ISP and IOC, type 1, cycle 1
    assert_eq!(ring.trb_at(0).into_raw(), [0x2000, 0, 8, 0x0425]);
    assert_eq!(ring.trb_at(1).into_raw(), [0x3000, 0, 8, 0x0425]);
    assert_eq!(ring.trb_at(2).into_raw(), [0x4000, 1, 8, 0x0425]);
    // the ring wrapped: Link TRB in the last slot, cycle state now 0
    assert_eq!(ring.trb_at(3).into_raw(), [0x1_0000, 0, 0, 0x1803]);
    assert_eq!(ring.write_index(), 0);
    assert!(!ring.cycle_bit());
    assert!(ring.trb_at(0).is_normal());
    assert!(!TrbRaw::zeroed().is_normal());

    // the next TRB reuses the buffer of the Normal TRB in slot 0
    let cmd = TrbRaw::new_unchecked([0, 0, 0xffff_ffff, 0x0420]);
    let index = ring.push_with_existing_buf(cmd);
    assert_eq!(index, 0);
    assert_eq!(ring.trb_at(0).into_raw(), [0x2000, 0, 0xfffe_0008, 0x0420]);
}

#[test]
fn device_manager_tracks_slots_and_context_addresses() {
    let mut m: DeviceManager<&str> = DeviceManager::new(4);
    assert_eq!(m.max_slots(), 4);
    assert_eq!(m.device_contexts(), &vec![0u64; 5]);
    m.set_scratchpad_buffer_array(0x9000);
    m.allocate_device(2, "keyboard");
    assert_eq!(m.device_by_slot_id(2), Some(&"keyboard"));
    assert_eq!(m.device_by_slot_id(1), None);
    m.load_device_context(2, 0xa000);
    assert_eq!(m.device_contexts(), &vec![0x9000, 0, 0xa000, 0, 0]);
}

#[test]
fn command_trbs_carry_type_pointer_and_slot() {
    let mut ring = CommandRing::new(4);
    ring.push(TrbRaw::enable_slot());
    ring.push(TrbRaw::address_device(0x1234_5670, 3));
    assert_eq!(ring.trb_at(0).into_raw(), [0, 0, 0, 0x2401]);
    assert_eq!(ring.trb_at(1).into_raw(), [0x1234_5670, 0, 0, 0x0300_2c01]);
    assert_eq!(
        TrbRaw::configure_endpoint(0x2_0000_0010, 0xff).into_raw(),
        [0x10, 2, 0, 0xff00_3000]
    );
}

#[test]
fn a_disconnected_port_hands_back_the_slots_of_its_devices() {
    let mut ports = PortConfigureState::new();
    ports.record_slot(3, 1);
    ports.record_slot(3, 4);
    ports.record_slot(5, 2);
    assert_eq!(ports.slots_at(3), vec![1, 4]);
    ports.set_port_phase_at(3, PortConfigPhase::Configured);
    assert_eq!(ports.on_port_status_change(3, false), PortStatusChangeAction::ResetConnection);
    let slots = ports.reset_connection(3);
    assert_eq!(slots, vec![1, 4]);
    assert_eq!(ports.slots_at(3), Vec::<usize>::new());
    assert_eq!(ports.slots_at(5), vec![2]);
    assert_eq!(ports.port_phase_at(3), PortConfigPhase::NotConnected);
}

#[test]
fn a_disabled_slot_is_freed() {
    assert_eq!(TrbRaw::disable_slot(7).into_raw(), [0, 0, 0, 0x0700_2800]);
    let mut m: DeviceManager<&str> = DeviceManager::new(4);
    m.allocate_device(2, "keyboard");
    m.load_device_context(2, 0xa000);
    m.deallocate_device(2);
    assert_eq!(m.device_by_slot_id(2), None);
    assert_eq!(m.device_contexts(), &vec![0u64; 5]);
}
