use lemola::usb::descriptor::{collect_descriptors, EndpointDescriptor};
use lemola::usb::device::{
    address_device_input, command_doorbell, configure_endpoint_result, control_transfer_doorbell,
    endpoint_doorbell, in_transfer_copy_len, initialization_plan, interrupt_ring_setup,
    select_interfaces, transfer_buffer_index, CompletionKind, Doorbell, TransferError,
};

fn config(protocol: u8, class: u8, sub: u8) -> Vec<u8> {
    vec![
        9, 2, 25, 0, 1, 1, 0, 0xa0, 50, // configuration
        9, 4, 0, 0, 1, class, sub, protocol, 0, // interface
        7, 5, 0x81, 3, 8, 0, 10, // endpoint 1 IN, interrupt, 8 bytes
    ]
}

#[test]
fn a_keyboard_goes_to_the_keyboard_driver_with_its_endpoint() {
    let descriptors = collect_descriptors(&config(1, 3, 1));
    let plan = initialization_plan(&select_interfaces(&descriptors));
    assert!(plan.keyboard && !plan.mouse && !plan.hub);
    let ep = plan.interrupt_in.unwrap();
    assert_eq!(ep.b_endpoint_address, 0x81);
}

#[test]
fn a_mouse_and_a_hub_are_told_apart() {
    let mouse = initialization_plan(&select_interfaces(&collect_descriptors(&config(2, 3, 1))));
    assert!(!mouse.keyboard && mouse.mouse && !mouse.hub);
    assert!(mouse.interrupt_in.is_some());
    let hub = initialization_plan(&select_interfaces(&collect_descriptors(&config(0, 9, 0))));
    assert!(!hub.keyboard && !hub.mouse && hub.hub);
    assert_eq!(hub.interrupt_in, None);
}

#[test]
fn doorbells_name_the_slot_and_the_endpoint() {
    assert_eq!(endpoint_doorbell(3, 5), Doorbell { slot: 3, value: 5 });
    assert_eq!(control_transfer_doorbell(7), Doorbell { slot: 7, value: 1 });
    assert_eq!(command_doorbell(), Doorbell { slot: 0, value: 0 });
}

#[test]
fn addressing_takes_the_port_speed_for_speed_five() {
    let r = address_device_input(2, 0x12345678, 5, 4, None, None, 0x9000);
    assert_eq!(r.route_string, 0x12345678 & 0x3ffff);
    assert_eq!(r.root_hub_port_number, 3);
    assert_eq!(r.speed, 4);
    assert_eq!(r.ep0_max_packet_size, 512);
    assert_eq!(r.ep0_dequeue_pointer, 0x9000);
    let low = address_device_input(0, 0, 2, 4, Some(1), Some(3), 0);
    assert_eq!(low.speed, 2);
    assert_eq!(low.ep0_max_packet_size, 8);
    assert_eq!((low.parent_hub_slot_id, low.parent_port_number), (Some(1), Some(3)));
}

#[test]
fn interrupt_rings_are_set_up_once_and_only_for_known_speeds() {
    let ep = EndpointDescriptor { b_length: 7, b_endpoint_address: 0x81, bm_attributes: 3, w_max_packet_size: 8, b_interval: 10 };
    assert_eq!(interrupt_ring_setup(true, &ep, 3, 0x1000), Ok(None));
    assert_eq!(interrupt_ring_setup(false, &ep, 7, 0x1000), Err(TransferError::Permanent("Unknown speed")));
    let fields = interrupt_ring_setup(false, &ep, 3, 0x1000).unwrap().unwrap();
    assert_eq!(fields.dci, 3);
    assert_eq!(fields.interval, 9);
    assert_eq!(fields.max_packet_size, 8);
    assert_eq!(fields.dequeue_pointer, 0x1000);
    assert_eq!(interrupt_ring_setup(false, &ep, 1, 0).unwrap().unwrap().interval, 3);
    assert_eq!(configure_endpoint_result(CompletionKind::Success), Ok(true));
    assert_eq!(
        configure_endpoint_result(CompletionKind::OtherCode),
        Err(TransferError::Retry("CompletionCode error"))
    );
}

#[test]
fn transfer_events_name_a_buffer_of_the_ring() {
    assert_eq!(transfer_buffer_index(0x1000 + 16 * 3, 0x1000, 32), Some(3));
    assert_eq!(transfer_buffer_index(0x1000 + 16 * 31, 0x1000, 32), None);
    assert_eq!(transfer_buffer_index(0x1008, 0x1000, 32), None);
    assert_eq!(transfer_buffer_index(0x0ff0, 0x1000, 32), None);
    assert_eq!(in_transfer_copy_len(5, 8), 5);
    assert_eq!(in_transfer_copy_len(20, 8), 8);
}
