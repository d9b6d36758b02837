use lemola::usb::class_driver::callbacks::{decode_mouse_report, keyboard, MouseReport};
use lemola::usb::class_driver::hub::{HubDevice, HubDriver, HubState};
use lemola::usb::class_driver::keyboard::{ep_for_bootkbd, keycode_to_char};
use lemola::usb::class_driver::{
    DeviceState, DriverAction, DriverError, Endpoint, InputOnlyDriver, TransferType,
};
use lemola::usb::descriptor::{
    collect_descriptors, is_descriptor_chain, ConfigurationDescriptor, Descriptor, DescriptorIter,
    DescriptorKind, DeviceDescriptor, HubDescriptor,
};
use lemola::usb::device::{
    assign_address_event, calc_dci, completion_kind, control_transfer_result, find_endpoint,
    interrupt_interval, max_packet_size_for_control_pipe, select_interfaces, CompletionKind,
    DeviceContextIndex, Direction, EndpointId, TransferError,
};
use lemola::usb::setup_packet::{
    request_type, w_value, RequestCode, RequestDirection, RequestKind, RequestRecipient,
    SetupPacketRaw,
};

/// A configuration with one boot keyboard interface: configuration, interface,
/// HID and endpoint descriptors.
fn keyboard_config() -> Vec<u8> {
    vec![
        9, 2, 34, 0, 1, 1, 0, 0xa0, 50, // configuration
        9, 4, 0, 0, 1, 3, 1, 1, 0, // interface: HID boot keyboard
        9, 0x21, 0x11, 0x01, 0, 1, 0x22, 63, 0, // HID
        7, 5, 0x81, 3, 8, 0, 10, // endpoint 1 IN, interrupt, 8 bytes
    ]
}

fn mouse_config() -> Vec<u8> {
    vec![
        9, 2, 25, 0, 1, 1, 0, 0xa0, 50, // configuration
        9, 4, 1, 0, 1, 3, 1, 2, 0, // interface: HID boot mouse
        7, 5, 0x82, 3, 4, 0, 10, // endpoint 2 IN
    ]
}

fn hub_config() -> Vec<u8> {
    vec![
        9, 2, 25, 0, 1, 7, 0, 0xe0, 0, // configuration, value 7
        9, 4, 0, 0, 1, 9, 0, 0, 0, // interface: hub
        7, 5, 0x81, 3, 1, 0, 12, // status change endpoint
    ]
}

fn device_descriptor_bytes() -> Vec<u8> {
    vec![18, 1, 0x00, 0x02, 0, 0, 0, 64, 0x6d, 0x04, 0x1c, 0xc3, 0x00, 0x01, 1, 2, 0, 1]
}

#[test]
fn descriptor_chain_is_parsed_in_order() {
    let config = keyboard_config();
    assert!(is_descriptor_chain(&config));
    let ds = collect_descriptors(&config);
    assert_eq!(ds.len(), 4);
    match ds[0] {
        Descriptor::Configuration(c) => {
            assert_eq!(c.w_total_length, 34);
            assert_eq!(c.b_configuration_value, 1);
            assert_eq!(c.b_max_power, 50);
        },
        _ => panic!("first descriptor is the configuration"),
    }
    match ds[1] {
        Descriptor::Interface(i) => {
            assert_eq!(i.b_interface_class, 3);
            assert_eq!(i.b_interface_protocol, 1);
        },
        _ => panic!("second descriptor is the interface"),
    }
    assert_eq!(ds[2], Descriptor::Unknown);
    match ds[3] {
        Descriptor::Endpoint(e) => {
            assert_eq!(e.b_endpoint_address, 0x81);
            assert_eq!(e.w_max_packet_size, 8);
            assert_eq!(e.b_interval, 10);
        },
        _ => panic!("fourth descriptor is the endpoint"),
    }
}

#[test]
fn descriptor_iter_walks_and_stops() {
    let config = mouse_config();
    let mut it = DescriptorIter::new(&config);
    assert!(matches!(it.next(), Some(Descriptor::Configuration(_))));
    assert!(matches!(it.next(), Some(Descriptor::Interface(_))));
    assert!(matches!(it.next(), Some(Descriptor::Endpoint(_))));
    assert_eq!(it.next(), None);
    assert_eq!(it.next(), None);
}

#[test]
fn malformed_chains_are_refused() {
    // a zero length byte would never advance
    assert!(!is_descriptor_chain(&[0, 2, 0, 0]));
    // a configuration descriptor cut short
    assert!(!is_descriptor_chain(&[4, 2, 0, 0]));
    // a length that runs past the end
    assert!(!is_descriptor_chain(&[9, 4, 0]));
    // a one-byte descriptor has no type
    assert!(!is_descriptor_chain(&[1]));
    // nothing at all is an empty chain
    assert!(is_descriptor_chain(&[]));
}

#[test]
fn device_and_hub_descriptors_decode_little_endian() {
    let d = DeviceDescriptor::from_bytes(&device_descriptor_bytes());
    assert_eq!(d.bcd_usb, 0x0200);
    assert_eq!(d.b_max_packet_size, 64);
    assert_eq!(d.id_vendor, 0x046d);
    assert_eq!(d.id_product, 0xc31c);
    assert_eq!(d.b_num_configurations, 1);
    let c = ConfigurationDescriptor::from_bytes(&[9, 2, 0x22, 0x01, 1, 1, 0, 0xa0, 50]);
    assert_eq!(c.w_total_length, 0x0122);
    let h = HubDescriptor::from_bytes(&[9, 0x29, 4, 0x12, 0x00, 50, 100, 0, 0xff]);
    assert_eq!(h.b_nbr_ports, 4);
    assert_eq!(h.w_hub_characteristics, 0x0012);
    assert_eq!(h.b_pwr_on_2_pwr_good, 50);
    assert_eq!(h.b_hub_contr_current, 100);
    let z = HubDescriptor::default();
    assert_eq!(z.b_nbr_ports, 0);
    assert_eq!(z.w_hub_characteristics, 0);
}

#[test]
fn boot_keyboard_endpoint_is_found() {
    let info = ep_for_bootkbd(&keyboard_config()).unwrap();
    assert_eq!(info.interface_num, 0);
    assert_eq!(info.endpoint.b_endpoint_address, 0x81);
    // a mouse is not a keyboard
    assert_eq!(ep_for_bootkbd(&mouse_config()), None);
}

#[test]
fn endpoint_after_other_interface_is_not_the_keyboards() {
    let config = vec![
        9, 4, 0, 0, 1, 3, 1, 1, 0, // keyboard interface
        9, 4, 1, 0, 1, 3, 1, 2, 0, // mouse interface replaces it
        7, 5, 0x82, 3, 4, 0, 10,
    ];
    assert_eq!(ep_for_bootkbd(&config), None);
}

#[test]
fn setup_packets_encode_the_request_type() {
    assert_eq!(
        request_type(RequestDirection::HostToDevice, RequestKind::Class, RequestRecipient::Other),
        0x23
    );
    assert_eq!(
        request_type(RequestDirection::DeviceToHost, RequestKind::Class, RequestRecipient::Other),
        0xa3
    );
    assert_eq!(
        request_type(RequestDirection::DeviceToHost, RequestKind::Class, RequestRecipient::Device),
        0xa0
    );
    assert_eq!(
        request_type(
            RequestDirection::HostToDevice,
            RequestKind::Vendor,
            RequestRecipient::Endpoint
        ),
        0x42
    );
    assert_eq!(w_value(0xf0, 0x0d), 0x0df0);
    let p = SetupPacketRaw::descriptor(DescriptorKind::Device, 0, 18);
    assert_eq!(
        p,
        SetupPacketRaw { bm_request_type: 0x80, b_request: 6, w_value: 0x0100, w_index: 0, w_length: 18 }
    );
    assert!(p.is_device_to_host());
    let q = SetupPacketRaw::new(
        RequestDirection::HostToDevice,
        RequestKind::Standard,
        RequestRecipient::Device,
        RequestCode::SetConfiguration,
        1,
        0,
        0,
    );
    assert_eq!(q.bm_request_type, 0);
    assert_eq!(q.b_request, 9);
    assert!(!q.is_device_to_host());
}

#[test]
fn device_context_indices() {
    assert_eq!(DeviceContextIndex::ep0().address(), 1);
    assert_eq!(DeviceContextIndex::from_endpoint_address(0x81).address(), 3);
    assert_eq!(DeviceContextIndex::from_endpoint_address(0x02).address(), 4);
    assert_eq!(DeviceContextIndex::from_endpoint_address(0x8f).address(), 31);
    assert_eq!(DeviceContextIndex::new(0, Direction::Out).address(), 1);
    assert_eq!(DeviceContextIndex::new(2, Direction::In).address(), 5);
    assert_eq!(DeviceContextIndex::checked_new(7).address(), 7);
    assert_eq!(calc_dci(1, Direction::Out), 2);
    assert_eq!(calc_dci(1, Direction::In), 3);
    assert_eq!(EndpointId::new(3, Direction::In).address().address(), 7);
    assert_eq!(EndpointId::default_control_pipe().address().address(), 1);
}

#[test]
fn interface_selection_for_keyboard_mouse_and_hub() {
    let k = select_interfaces(&collect_descriptors(&keyboard_config()));
    assert!(k.boot_keyboard.is_some());
    assert!(k.mouse.is_none());
    assert_eq!(k.endpoint.unwrap().b_endpoint_address, 0x81);
    let m = select_interfaces(&collect_descriptors(&mouse_config()));
    assert!(m.mouse.is_some());
    assert_eq!(m.endpoint.unwrap().b_endpoint_address, 0x82);
    let h = select_interfaces(&collect_descriptors(&hub_config()));
    assert!(h.hub.is_some());
    // the hub's endpoint is not taken: no keyboard or mouse came before it
    assert!(h.endpoint.is_none());
}

#[test]
fn endpoint_lookup_by_number() {
    let ds = collect_descriptors(&keyboard_config());
    assert_eq!(find_endpoint(&ds, 1).unwrap().b_endpoint_address, 0x81);
    assert_eq!(
        find_endpoint(&ds, 2),
        Err(TransferError::Permanent("Endpoint Descriptor Not Found"))
    );
}

#[test]
fn interrupt_intervals_by_speed() {
    assert_eq!(interrupt_interval(1, 0x80), Ok(4));
    assert_eq!(interrupt_interval(2, 10), Ok(3));
    assert_eq!(interrupt_interval(3, 4), Ok(3));
    assert_eq!(interrupt_interval(4, 1), Ok(0));
    assert_eq!(interrupt_interval(5, 1), Err(TransferError::Permanent("Unknown speed")));
    assert_eq!(max_packet_size_for_control_pipe(4), 512);
    assert_eq!(max_packet_size_for_control_pipe(3), 64);
    assert_eq!(max_packet_size_for_control_pipe(1), 8);
}

#[test]
fn completion_codes_and_control_transfer_results() {
    assert_eq!(completion_kind(1), CompletionKind::Success);
    assert_eq!(completion_kind(13), CompletionKind::ShortPacket);
    assert_eq!(completion_kind(4), CompletionKind::OtherCode);
    assert_eq!(completion_kind(30), CompletionKind::Undefined);
    assert_eq!(completion_kind(200), CompletionKind::Undefined);
    assert_eq!(control_transfer_result(CompletionKind::Success, 18, 0), Ok(18));
    assert_eq!(control_transfer_result(CompletionKind::ShortPacket, 18, 8), Ok(10));
    assert_eq!(
        control_transfer_result(CompletionKind::OtherCode, 18, 0),
        Err(TransferError::Retry("CompletionCode error"))
    );
    assert_eq!(
        control_transfer_result(CompletionKind::Undefined, 18, 0),
        Err(TransferError::Permanent("Unknown completion code"))
    );
}

#[test]
fn address_assignment_behind_a_hub() {
    let e = assign_address_event(2, 0x0000_0003, 3, true);
    assert_eq!(e.port_index, 2);
    assert_eq!(e.routing, 0x0000_0043);
    assert_eq!(e.speed, 1);
    assert_eq!(e.parent_hub_slot_id, None);
    let f = assign_address_event(0, 0, 0, false);
    assert_eq!(f.routing, 1);
    assert_eq!(f.speed, 0);
}

#[test]
fn keyboard_reports_type_characters() {
    // left shift, then 'a', 'b', space
    assert_eq!(keyboard(&[0x02, 0, 4, 5, 0, 0x2c, 0, 0]), vec!['A', 'B', ' ']);
    // no modifier: 'a' and '1'
    assert_eq!(keyboard(&[0, 0, 4, 0x1e, 0, 0, 0, 0]), vec!['a', '1']);
    // right shift turns '1' into '!'
    assert_eq!(keyboard(&[0x20, 0, 0x1e, 0, 0, 0, 0, 0]), vec!['!']);
    assert_eq!(keyboard(&[0, 0, 0, 0, 0, 0, 0, 0]), Vec::<char>::new());
    assert_eq!(keycode_to_char(0x28, false), '\n');
    assert_eq!(keycode_to_char(0x59, true), '1');
    assert_eq!(keycode_to_char(0x89, true), '|');
}

#[test]
fn mouse_reports_decode_signed_movements() {
    assert_eq!(
        decode_mouse_report(&[1, 0xff, 2]),
        MouseReport { left_click: true, x_diff: -1, y_diff: 2 }
    );
    assert_eq!(
        decode_mouse_report(&[2, 0x80, 0x7f]),
        MouseReport { left_click: false, x_diff: -128, y_diff: 127 }
    );
}

fn control(a: DriverAction) -> SetupPacketRaw {
    match a {
        DriverAction::Control(p) => p,
        other => panic!("expected a control transfer, got {:?}", other),
    }
}

#[test]
fn hub_is_brought_up_port_by_port() {
    let mut hub = HubDevice::new(1, 64);
    assert_eq!(hub.action(), DriverAction::Idle);
    assert_eq!(hub.on_success(&[]), Ok(()));
    assert_eq!(hub.state, HubState::GetConfig);
    assert_eq!(control(hub.action()), SetupPacketRaw::descriptor(DescriptorKind::Configuration, 0, 9));
    let config = hub_config();
    assert_eq!(hub.on_success(&config[..9]), Ok(()));
    assert_eq!(hub.state, HubState::GetConfigAll(25));
    assert_eq!(control(hub.action()).w_length, 25);
    assert_eq!(hub.on_success(&config), Ok(()));
    assert_eq!(hub.state, HubState::SetConfig);
    assert_eq!(
        control(hub.action()),
        SetupPacketRaw { bm_request_type: 0, b_request: 9, w_value: 7, w_index: 0, w_length: 0 }
    );
    assert_eq!(hub.on_success(&[]), Ok(()));
    assert_eq!(hub.action(), DriverAction::RegisterHub(1));
    assert_eq!(hub.on_success(&[]), Ok(()));
    assert_eq!(
        control(hub.action()),
        SetupPacketRaw { bm_request_type: 0xa0, b_request: 6, w_value: 0x2900, w_index: 0, w_length: 8 }
    );
    assert_eq!(hub.on_success(&[9, 0x29, 2, 0, 0, 50, 100, 0]), Ok(()));
    assert_eq!(hub.number_of_ports, 2);
    assert_eq!(hub.power_on_2_power_good, 50);
    for port in 0..2u8 {
        assert_eq!(hub.state, HubState::InitPort(port));
        assert_eq!(hub.action(), DriverAction::Sleep(5000));
        assert_eq!(hub.on_success(&[]), Ok(()));
        assert_eq!(
            control(hub.action()),
            SetupPacketRaw { bm_request_type: 0x23, b_request: 3, w_value: 8, w_index: port as u16 + 1, w_length: 0 }
        );
        assert_eq!(hub.on_success(&[]), Ok(()));
        assert_eq!(hub.action(), DriverAction::Sleep(100));
        assert_eq!(hub.on_success(&[]), Ok(()));
        assert_eq!(
            control(hub.action()),
            SetupPacketRaw { bm_request_type: 0x23, b_request: 1, w_value: 16, w_index: port as u16 + 1, w_length: 0 }
        );
        assert_eq!(hub.on_success(&[]), Ok(()));
        assert_eq!(
            control(hub.action()),
            SetupPacketRaw { bm_request_type: 0xa3, b_request: 0, w_value: 0, w_index: port as u16 + 1, w_length: 4 }
        );
        assert_eq!(hub.on_success(&[1, 0, 0, 0]), Ok(()));
    }
    assert_eq!(hub.state, HubState::InitPort(2));
    assert_eq!(hub.action(), DriverAction::Idle);
    assert_eq!(hub.on_success(&[]), Ok(()));
    assert_eq!(hub.state, HubState::Running);
    assert_eq!(hub.action(), DriverAction::Idle);
}

#[test]
fn hub_failures_retry_from_the_start_of_a_step() {
    let mut hub = HubDevice::new(3, 8);
    hub.on_success(&[]).unwrap();
    // too long a configuration is a permanent error and the hub stays put
    assert_eq!(
        hub.on_success(&[9, 2, 0x2c, 0x01, 1, 1, 0, 0, 0]),
        Err(TransferError::Permanent("config descriptor too large"))
    );
    assert_eq!(hub.state, HubState::GetConfig);
    hub.on_success(&[9, 2, 25, 0, 1, 1, 0, 0, 0]).unwrap();
    assert_eq!(hub.on_failure(TransferError::Retry("busy")), Err(TransferError::Retry("busy")));
    assert_eq!(hub.state, HubState::GetConfig);
    hub.on_success(&[9, 2, 25, 0, 1, 1, 0, 0, 0]).unwrap();
    hub.on_success(&hub_config()).unwrap();
    hub.on_success(&[]).unwrap();
    hub.on_success(&[]).unwrap();
    hub.on_success(&[9, 0x29, 1, 0, 0, 5, 0, 0]).unwrap();
    hub.on_success(&[]).unwrap();
    assert_eq!(hub.state, HubState::PowerPort(0));
    hub.on_failure(TransferError::Permanent("stall")).unwrap_err();
    assert_eq!(hub.state, HubState::InitPort(0));
}

#[test]
fn hub_driver_keeps_a_device_table() {
    let mut driver = HubDriver::new();
    assert_eq!(driver.devices.len(), 127);
    let d = DeviceDescriptor::from_bytes(&device_descriptor_bytes());
    assert!(driver.want_device(&d));
    driver.add_device(d, 4).unwrap();
    driver.add_device(d, 5).unwrap();
    assert_eq!(driver.devices[0].as_ref().unwrap().address, 4);
    assert_eq!(driver.devices[1].as_ref().unwrap().address, 5);
    assert!(!driver.all_running());
    driver.remove_device(4);
    assert!(driver.devices[0].is_none());
    driver.add_device(d, 6).unwrap();
    assert_eq!(driver.devices[0].as_ref().unwrap().address, 6);
}

#[test]
fn keyboard_driver_brings_up_a_device() {
    let mut driver = InputOnlyDriver::new_boot_keyboard();
    let d = DeviceDescriptor::from_bytes(&device_descriptor_bytes());
    assert_eq!(driver.add_device(d, 5), Ok(()));
    let dev = driver.devices[0].as_mut().unwrap();
    assert_eq!(dev.addr, 5);
    assert_eq!(dev.ep0.max_packet_size, 64);
    assert_eq!(dev.action(0), DriverAction::Idle);
    dev.on_success(10, &[]).unwrap();
    assert_eq!(dev.state, DeviceState::WaitForSettle(12));
    assert_eq!(dev.action(12), DriverAction::Idle);
    assert_eq!(control(dev.action(13)), SetupPacketRaw::descriptor(DescriptorKind::Device, 0, 18));
    dev.on_success(12, &[0; 18]).unwrap();
    assert_eq!(dev.state, DeviceState::WaitForSettle(12));
    dev.on_success(13, &device_descriptor_bytes()).unwrap();
    assert_eq!(dev.state, DeviceState::GetConfig);
    let config = keyboard_config();
    dev.on_success(14, &config[..9]).unwrap();
    assert_eq!(dev.state, DeviceState::GetConfigAll(34));
    assert_eq!(control(dev.action(14)).w_length, 34);
    dev.on_success(15, &config).unwrap();
    assert_eq!(dev.state, DeviceState::SetConfig(1));
    let ep = dev.endpoints[0].unwrap();
    assert_eq!(
        ep,
        Endpoint {
            address: 5,
            endpoint_num: 1,
            interface_num: 0,
            transfer_type: TransferType::Interrupt,
            direction: Direction::In,
            max_packet_size: 8,
            in_toggle: false,
            out_toggle: false,
        }
    );
    assert_eq!(
        control(dev.action(15)),
        SetupPacketRaw { bm_request_type: 0, b_request: 9, w_value: 1, w_index: 0, w_length: 0 }
    );
    dev.on_success(16, &[]).unwrap();
    assert_eq!(
        control(dev.action(16)),
        SetupPacketRaw { bm_request_type: 0x21, b_request: 11, w_value: 0, w_index: 0, w_length: 0 }
    );
    dev.on_success(17, &[]).unwrap();
    assert_eq!(
        control(dev.action(17)),
        SetupPacketRaw { bm_request_type: 0x21, b_request: 10, w_value: 0, w_index: 0, w_length: 0 }
    );
    dev.on_success(18, &[]).unwrap();
    assert_eq!(dev.state, DeviceState::Running);
    assert_eq!(dev.action(18), DriverAction::InTransfer(ep, 8));
    assert_eq!(dev.on_failure(TransferError::Retry("nak")), Ok(()));
    assert_eq!(
        dev.on_failure(TransferError::Permanent("gone")),
        Err(TransferError::Permanent("gone"))
    );
    assert_eq!(dev.on_success(19, &[0; 8]), Ok(()));
    assert_eq!(dev.on_report(Ok(8)), (Some(5), Ok(())));
    assert_eq!(dev.on_report(Err(TransferError::Retry("nak"))), (None, Ok(())));
    assert_eq!(
        dev.on_report(Err(TransferError::Permanent("gone"))),
        (None, Err(TransferError::Permanent("gone")))
    );
    dev.endpoints[0] = None;
    assert_eq!(dev.on_report(Ok(8)), (None, Err(TransferError::Permanent("no boot keyboard"))));
    driver.remove_device(5);
    assert!(driver.devices[0].is_none());
}

#[test]
fn keyboard_driver_runs_out_of_slots() {
    let mut driver = InputOnlyDriver::new_boot_keyboard();
    let d = DeviceDescriptor::from_bytes(&device_descriptor_bytes());
    for address in 0..32u8 {
        driver.add_device(d, address).unwrap();
    }
    assert_eq!(driver.add_device(d, 99), Err(DriverError::Permanent(99, "out of devices")));
}

#[test]
fn too_long_keyboard_configuration_is_refused() {
    let mut driver = InputOnlyDriver::new_boot_keyboard();
    let d = DeviceDescriptor::from_bytes(&device_descriptor_bytes());
    driver.add_device(d, 1).unwrap();
    let dev = driver.devices[0].as_mut().unwrap();
    dev.on_success(0, &[]).unwrap();
    dev.on_success(5, &device_descriptor_bytes()).unwrap();
    assert_eq!(
        dev.on_success(6, &[9, 2, 0x01, 0x02, 1, 1, 0, 0, 0]),
        Err(TransferError::Permanent("config descriptor too large"))
    );
    assert_eq!(dev.state, DeviceState::GetConfig);
    dev.on_success(7, &[9, 2, 34, 0, 1, 1, 0, 0, 0]).unwrap();
    assert_eq!(dev.on_failure(TransferError::Retry("x")), Err(TransferError::Retry("x")));
    assert_eq!(dev.state, DeviceState::GetConfig);
}

#[test]
fn removing_a_just_added_keyboard_restores_the_table() {
    let mut driver = InputOnlyDriver::new_boot_keyboard();
    let d = DeviceDescriptor::from_bytes(&device_descriptor_bytes());
    driver.add_device(d, 1).unwrap();
    driver.add_device(d, 2).unwrap();
    driver.remove_device(1);
    let occupied: Vec<Option<u8>> = driver.devices.iter().map(|s| s.as_ref().map(|x| x.addr)).collect();
    // slot 0 is free again and takes the next device
    driver.add_device(d, 3).unwrap();
    driver.remove_device(3);
    let again: Vec<Option<u8>> = driver.devices.iter().map(|s| s.as_ref().map(|x| x.addr)).collect();
    assert_eq!(occupied, again);
    assert_eq!(again[0], None);
    assert_eq!(again[1], Some(2));
}

#[test]
fn answers_are_checked_before_they_are_taken() {
    let mut driver = InputOnlyDriver::new_boot_keyboard();
    let d = DeviceDescriptor::from_bytes(&device_descriptor_bytes());
    driver.add_device(d, 1).unwrap();
    let dev = driver.devices[0].as_mut().unwrap();
    assert!(dev.answer_ok(0, &[]));
    dev.on_success(0, &[]).unwrap();
    // still settling at time 1: any answer; after it, 18 bytes are wanted
    assert!(dev.answer_ok(1, &[]));
    assert!(!dev.answer_ok(5, &[1, 2, 3]));
    assert!(dev.answer_ok(5, &device_descriptor_bytes()));
    let mut hub = HubDevice::new(4, 64);
    hub.on_success(&[]).unwrap();
    assert_eq!(hub.state, HubState::GetConfig);
    assert!(!hub.answer_ok(&[0; 8]));
    assert!(hub.answer_ok(&[9, 2, 25, 0, 1, 1, 0, 0, 0]));
}
