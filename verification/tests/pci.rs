use std::cell::RefCell;
use std::collections::HashMap;
use std::rc::Rc;

use lemola::pci::{configure_msi_fixed_destination, InterruptVector, MSIDeliveryMode, MSITriggerMode, MsiCapabilityNotFound};
use lemola::pci_register::{scan_all_bus, select_xhci, ConfigSpace, Configuration, PciConfigAddress, PciDevice};

/// Configuration space held in a table; absent registers read all ones.
#[derive(Default)]
struct Registers {
    values: HashMap<u32, u32>,
    reads: Vec<u32>,
    writes: Vec<(u32, u32)>,
}

#[derive(Clone, Default)]
struct FakePorts(Rc<RefCell<Registers>>);

impl ConfigSpace for FakePorts {
    fn read_data(&mut self, address: PciConfigAddress) -> u32 {
        let mut r = self.0.borrow_mut();
        r.reads.push(address.value());
        *r.values.get(&address.value()).unwrap_or(&0xffff_ffff)
    }

    fn write_data(&mut self, address: PciConfigAddress, data: u32) {
        let mut r = self.0.borrow_mut();
        r.writes.push((address.value(), data));
        r.values.insert(address.value(), data);
    }
}

fn addr(bus: u8, device: u8, function: u8, register: u8) -> u32 {
    0x8000_0000 | (bus as u32) << 16 | (device as u32) << 11 | (function as u32) << 8 | (register as u32 & 0xfc)
}

/// A host bridge at 0:0.0 and an xHCI controller at 0:3.0.
fn two_functions() -> FakePorts {
    let ports = FakePorts::default();
    {
        let mut r = ports.0.borrow_mut();
        r.values.insert(addr(0, 0, 0, 0), 0x1234_8086);
        r.values.insert(addr(0, 0, 0, 0x08), 0x0600_0000);
        r.values.insert(addr(0, 0, 0, 0x0c), 0);
        r.values.insert(addr(0, 3, 0, 0), 0x000d_1b36);
        r.values.insert(addr(0, 3, 0, 0x08), 0x0c03_3001);
        r.values.insert(addr(0, 3, 0, 0x0c), 0);
    }
    ports
}

#[test]
fn the_scan_finds_every_answering_function_in_order() {
    let ports = two_functions();
    let mut config = Configuration::new(ports.clone());
    let devices = scan_all_bus(&mut config);
    assert_eq!(devices.len(), 2);
    assert_eq!((devices[0].bus(), devices[0].device(), devices[0].function()), (0, 0, 0));
    assert!(devices[0].vendor_id().is_intel());
    assert_eq!((devices[1].bus(), devices[1].device(), devices[1].function()), (0, 3, 0));
    assert!(devices[1].class_code().is_xhci_controller());
    let reads = ports.0.borrow().reads.clone();
    assert_eq!(reads[0], addr(0, 0, 0, 0x0c));
    assert_eq!(reads[1], addr(0, 0, 0, 0));
    // the host bridge header, then 0x00, 0x0c and 0x08 of 0:0.0; 32 vendor
    // reads; and four reads for 0:3.0
    assert_eq!(reads.len(), 1 + 32 + 4 + 4);
}

#[test]
fn msi_is_routed_to_the_local_apic() {
    let ports = two_functions();
    {
        let mut r = ports.0.borrow_mut();
        r.values.insert(addr(0, 3, 0, 0x34), 0x50);
        // MSI capability, no next pointer, 64-bit address
        r.values.insert(addr(0, 3, 0, 0x50), 0x0080_0005);
    }
    let mut config = Configuration::new(ports.clone());
    let device = PciDevice::new(&mut config, 0, 3, 0);
    let r = configure_msi_fixed_destination(
        &mut config,
        &device,
        2,
        MSITriggerMode::Level,
        MSIDeliveryMode::Fixed,
        InterruptVector::Xhci,
        0,
    );
    assert_eq!(r, Ok(()));
    let writes = ports.0.borrow().writes.clone();
    assert_eq!(writes.len(), 4);
    assert_eq!(writes[0], (addr(0, 3, 0, 0x50), 0x0081_0005));
    assert_eq!(writes[1], (addr(0, 3, 0, 0x54), 0xfee0_2000));
    assert_eq!(writes[2], (addr(0, 3, 0, 0x58), 0));
    assert_eq!(writes[3], (addr(0, 3, 0, 0x5c), 0xc040));
}

#[test]
fn an_msi_capability_at_the_top_of_the_configuration_space_is_programmed() {
    let ports = two_functions();
    {
        let mut r = ports.0.borrow_mut();
        r.values.insert(addr(0, 3, 0, 0x34), 0x50);
        // power management capability pointing at 0xf0
        r.values.insert(addr(0, 3, 0, 0x50), 0x0000_f001);
        // MSI capability, 32-bit address, no masking: ends at 0xf8
        r.values.insert(addr(0, 3, 0, 0xf0), 0x0000_0005);
    }
    let mut config = Configuration::new(ports.clone());
    let device = PciDevice::new(&mut config, 0, 3, 0);
    let r = configure_msi_fixed_destination(
        &mut config,
        &device,
        2,
        MSITriggerMode::Level,
        MSIDeliveryMode::Fixed,
        InterruptVector::Xhci,
        0,
    );
    assert_eq!(r, Ok(()));
    let writes = ports.0.borrow().writes.clone();
    assert_eq!(writes.len(), 3);
    assert_eq!(writes[0], (addr(0, 3, 0, 0xf0), 0x0001_0005));
    assert_eq!(writes[1], (addr(0, 3, 0, 0xf4), 0xfee0_2000));
    assert_eq!(writes[2], (addr(0, 3, 0, 0xf8), 0xc040));
}

#[test]
fn a_capability_whose_registers_pass_the_end_of_the_space_ends_the_search() {
    let ports = two_functions();
    {
        let mut r = ports.0.borrow_mut();
        r.values.insert(addr(0, 3, 0, 0x34), 0xf4);
        // MSI capability with a 64-bit address at 0xf4: its data would be at 0x100
        r.values.insert(addr(0, 3, 0, 0xf4), 0x0080_0005);
    }
    let mut config = Configuration::new(ports.clone());
    let device = PciDevice::new(&mut config, 0, 3, 0);
    let reads_before = ports.0.borrow().reads.len();
    let r = configure_msi_fixed_destination(
        &mut config,
        &device,
        0,
        MSITriggerMode::Edge,
        MSIDeliveryMode::Fixed,
        InterruptVector::Xhci,
        0,
    );
    assert_eq!(r, Err(MsiCapabilityNotFound));
    assert!(ports.0.borrow().writes.is_empty());
    let reads = ports.0.borrow().reads.clone();
    // the capabilities pointer, then the header alone
    assert_eq!(reads.len(), reads_before + 2);
    assert_eq!(reads[reads_before + 1], addr(0, 3, 0, 0xf4));
}

#[test]
fn a_device_without_msi_is_refused() {
    let ports = two_functions();
    ports.0.borrow_mut().values.insert(addr(0, 3, 0, 0x34), 0);
    let mut config = Configuration::new(ports.clone());
    let device = PciDevice::new(&mut config, 0, 3, 0);
    let r = configure_msi_fixed_destination(
        &mut config,
        &device,
        0,
        MSITriggerMode::Edge,
        MSIDeliveryMode::Fixed,
        InterruptVector::Xhci,
        0,
    );
    assert_eq!(r, Err(MsiCapabilityNotFound));
    assert!(ports.0.borrow().writes.is_empty());
}

#[test]
fn an_intel_xhci_controller_is_chosen_first() {
    let ports = two_functions();
    {
        let mut r = ports.0.borrow_mut();
        r.values.insert(addr(0, 5, 0, 0), 0x1e31_8086);
        r.values.insert(addr(0, 5, 0, 0x08), 0x0c03_3000);
        r.values.insert(addr(0, 5, 0, 0x0c), 0);
    }
    let mut config = Configuration::new(ports.clone());
    let devices = scan_all_bus(&mut config);
    assert_eq!(select_xhci(&devices), Some(2));
    assert_eq!(select_xhci(&devices[..2].to_vec()), Some(1));
    assert_eq!(select_xhci(&devices[..1].to_vec()), None);
}
