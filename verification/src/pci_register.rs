//! PCI configuration space: addresses, identification registers and the bus
//! scan.
use vstd::prelude::*;

verus! {

/// Access to PCI configuration space (ports 0xCF8 / 0xCFC on x86).
pub trait ConfigSpace {
    /// Reads the 32-bit register at `address`.
    fn read_data(&mut self, address: PciConfigAddress) -> u32;

    /// Writes the 32-bit register at `address`.
    fn write_data(&mut self, address: PciConfigAddress, data: u32);
}

/// One access to configuration space: the CONFIG_ADDRESS value that selected
/// the register, and the data read from it or written to it.
#[derive(Clone, Copy, Debug, PartialEq, Eq, Structural)]
pub enum ConfigAccess {
    Read { address: u32, data: u32 },
    Write { address: u32, data: u32 },
}

/// `after` is `before` followed by `n` more accesses.
pub open spec fn appended(before: Seq<ConfigAccess>, after: Seq<ConfigAccess>, n: int) -> bool {
    &&& after.len() == before.len() + n
    &&& after.subrange(0, before.len() as int) == before
}

/// Pushing an access appends one.
pub proof fn lemma_appended_push(before: Seq<ConfigAccess>, a: ConfigAccess)
    ensures
        appended(before, before.push(a), 1),
{
    assert(before.push(a).subrange(0, before.len() as int) =~= before);
}

/// Appending `n` and then `m` accesses appends `n + m`, and keeps every
/// access made before.
pub proof fn lemma_appended_trans(a: Seq<ConfigAccess>, b: Seq<ConfigAccess>, c: Seq<ConfigAccess>, n: int, m: int)
    requires
        n >= 0,
        m >= 0,
        appended(a, b, n),
        appended(b, c, m),
    ensures
        appended(a, c, n + m),
        forall|i: int| 0 <= i < b.len() ==> #[trigger] c[i] == b[i],
{
    assert forall|i: int| 0 <= i < b.len() implies #[trigger] c[i] == b[i] by {
        assert(c.subrange(0, b.len() as int)[i] == c[i]);
    }
    assert forall|i: int| 0 <= i < a.len() implies #[trigger] c.subrange(0, a.len() as int)[i] == a[i] by {
        assert(b.subrange(0, a.len() as int)[i] == b[i]);
    }
    assert(c.subrange(0, a.len() as int) =~= a);
}

/// Access `i` of `log` reads the register selected by `address`.
pub open spec fn reads_at(log: Seq<ConfigAccess>, i: int, address: u32) -> bool {
    &&& 0 <= i < log.len()
    &&& log[i] matches ConfigAccess::Read { address: a, .. }
    &&& a == address
}

/// Access `i` of `log` writes `data` to the register selected by `address`.
pub open spec fn writes_at(log: Seq<ConfigAccess>, i: int, address: u32, data: u32) -> bool {
    &&& 0 <= i < log.len()
    &&& log[i] == ConfigAccess::Write { address, data }
}

/// The data of access `i` of `log`.
pub open spec fn data_at(log: Seq<ConfigAccess>, i: int) -> u32 {
    match log[i] {
        ConfigAccess::Read { data, .. } => data,
        ConfigAccess::Write { data, .. } => data,
    }
}

/// Configuration space through the kernel's ports, with the record of every
/// access made through it, in order.
pub struct Configuration<C: ConfigSpace> {
    ports: C,
    accesses: Ghost<Seq<ConfigAccess>>,
}

impl<C: ConfigSpace> Configuration<C> {
    /// The accesses made so far.
    pub closed spec fn accesses(&self) -> Seq<ConfigAccess> {
        self.accesses@
    }

    /// Configuration space through `ports`, with no access made yet.
    pub fn new(ports: C) -> (r: Self)
        ensures
            r.accesses() == Seq::<ConfigAccess>::empty(),
    {
        Configuration { ports, accesses: Ghost(Seq::empty()) }
    }

    /// Reads the register at `address`.
    pub fn read(&mut self, address: PciConfigAddress) -> (data: u32)
        ensures
            final(self).accesses() == old(self).accesses().push(ConfigAccess::Read { address: address.spec_value(), data }),
            appended(old(self).accesses(), final(self).accesses(), 1),
    {
        let data = self.ports.read_data(address);
        proof {
            lemma_appended_push(self.accesses@, ConfigAccess::Read { address: address.spec_value(), data });
        }
        self.accesses = Ghost(self.accesses@.push(ConfigAccess::Read { address: address.spec_value(), data }));
        data
    }

    /// Writes `data` to the register at `address`.
    pub fn write(&mut self, address: PciConfigAddress, data: u32)
        ensures
            final(self).accesses() == old(self).accesses().push(ConfigAccess::Write { address: address.spec_value(), data }),
            appended(old(self).accesses(), final(self).accesses(), 1),
    {
        self.ports.write_data(address, data);
        proof {
            lemma_appended_push(self.accesses@, ConfigAccess::Write { address: address.spec_value(), data });
        }
        self.accesses = Ghost(self.accesses@.push(ConfigAccess::Write { address: address.spec_value(), data }));
    }
}

/// The value written to CONFIG_ADDRESS to select a configuration register.
#[derive(Copy, Clone, Debug, PartialEq, Eq, Structural)]
pub struct PciConfigAddress(u32);

/// The CONFIG_ADDRESS value for a register: the enable bit, the bus, device
/// and function numbers, and the register offset rounded down to 4 bytes.
pub open spec fn config_address(bus: u8, device: u8, function: u8, register: u8) -> u32 {
    (1u32 << 31u32) | ((bus as u32) << 16u32) | ((device as u32) << 11u32) | ((function as u32) << 8u32)
        | ((register & 0b1111_1100u8) as u32)
}

impl PciConfigAddress {
    pub closed spec fn spec_value(&self) -> u32 {
        self.0
    }

    pub fn new(bus: u8, device: u8, function: u8, register: u8) -> (r: Self)
        ensures
            r.spec_value() == config_address(bus, device, function, register),
    {
        let mut address: u32 = 0;
        address = address | (1 << 31);
        address = address | ((bus as u32) << 16);
        address = address | ((device as u32) << 11);
        address = address | ((function as u32) << 8);
        address = address | ((register & 0b1111_1100) as u32);
        proof {
            assert(0u32 | (1u32 << 31u32) == (1u32 << 31u32)) by (bit_vector);
        }
        Self(address)
    }

    /// The address of base address register `bar_index` (there are six).
    pub fn new_from_bar_index(bus: u8, device: u8, function: u8, bar_index: u8) -> (r: Option<Self>)
        ensures
            bar_index >= 6 ==> r is None,
            bar_index < 6 ==> (r matches Some(a) && a.spec_value() == config_address(bus, device, function, (0x10 + bar_index * 4) as u8)),
    {
        if bar_index >= 6 {
            return None;
        }
        Some(Self::new(bus, device, function, 0x10 + bar_index * 4))
    }

    /// The raw CONFIG_ADDRESS value.
    pub fn value(&self) -> (r: u32)
        ensures
            r == self.spec_value(),
    {
        self.0
    }
}

/// The class of a function (register 0x08).
#[derive(Copy, Clone, Debug, PartialEq, Eq, Structural)]
pub struct ClassCode {
    base: u8,
    sub: u8,
    interface: u8,
}

impl ClassCode {
    pub closed spec fn spec_base(&self) -> u8 {
        self.base
    }

    pub closed spec fn spec_sub(&self) -> u8 {
        self.sub
    }

    pub closed spec fn spec_interface(&self) -> u8 {
        self.interface
    }

    /// Reads register 0x08 of the function.
    pub fn new<C: ConfigSpace>(config: &mut Configuration<C>, bus: u8, device: u8, function: u8) -> (r: Self)
        ensures
            appended(old(config).accesses(), final(config).accesses(), 1),
            reads_at(final(config).accesses(), old(config).accesses().len() as int, config_address(bus, device, function, 0x08)),
            ({
                let v = data_at(final(config).accesses(), old(config).accesses().len() as int);
                &&& r.spec_base() == ((v >> 24u32) & 0xff) as u8
                &&& r.spec_sub() == ((v >> 16u32) & 0xff) as u8
                &&& r.spec_interface() == ((v >> 8u32) & 0xff) as u8
            }),
    {
        let raw_data = read_data(config, PciConfigAddress::new(bus, device, function, 0x08));
        Self::from_raw(raw_data)
    }

    /// Decodes register 0x08: base class, subclass and programming interface
    /// in the top three bytes.
    pub fn from_raw(raw_data: u32) -> (r: Self)
        ensures
            r.spec_base() == ((raw_data >> 24u32) & 0xff) as u8,
            r.spec_sub() == ((raw_data >> 16u32) & 0xff) as u8,
            r.spec_interface() == ((raw_data >> 8u32) & 0xff) as u8,
    {
        Self {
            base: ((raw_data >> 24) & 0xff) as u8,
            sub: ((raw_data >> 16) & 0xff) as u8,
            interface: ((raw_data >> 8) & 0xff) as u8,
        }
    }

    pub fn base(&self) -> (r: u8)
        ensures
            r == self.spec_base(),
    {
        self.base
    }

    pub fn sub(&self) -> (r: u8)
        ensures
            r == self.spec_sub(),
    {
        self.sub
    }

    pub fn interface(&self) -> (r: u8)
        ensures
            r == self.spec_interface(),
    {
        self.interface
    }

    pub fn matches(&self, base: u8, sub: u8, interface: u8) -> (r: bool)
        ensures
            r == (self.spec_base() == base && self.spec_sub() == sub && self.spec_interface() == interface),
    {
        self.base == base && self.sub == sub && self.interface == interface
    }

    /// Serial bus controller / USB / xHCI.
    pub fn is_xhci_controller(&self) -> (r: bool)
        ensures
            r == (self.spec_base() == 0x0c && self.spec_sub() == 0x03 && self.spec_interface() == 0x30),
    {
        self.matches(0x0c, 0x03, 0x30)
    }
}

/// The header type of a function (register 0x0c, byte 2).
#[derive(Copy, Clone, Debug, PartialEq, Eq, Structural)]
pub struct HeaderType(u8);

impl HeaderType {
    pub closed spec fn spec_value(&self) -> u8 {
        self.0
    }

    /// Reads register 0x0c of the function.
    pub fn new<C: ConfigSpace>(config: &mut Configuration<C>, bus: u8, device: u8, function: u8) -> (r: Self)
        ensures
            appended(old(config).accesses(), final(config).accesses(), 1),
            reads_at(final(config).accesses(), old(config).accesses().len() as int, config_address(bus, device, function, 0x0c)),
            r.spec_value() == ((data_at(final(config).accesses(), old(config).accesses().len() as int) >> 16u32) & 0xff) as u8,
    {
        let raw_data = read_data(config, PciConfigAddress::new(bus, device, function, 0x0c));
        Self::from_raw(raw_data)
    }

    pub fn from_raw(raw_data: u32) -> (r: Self)
        ensures
            r.spec_value() == ((raw_data >> 16u32) & 0xff) as u8,
    {
        Self(((raw_data >> 16) & 0xff) as u8)
    }

    pub fn is_generic_device(&self) -> (r: bool)
        ensures
            r == (self.spec_value() == 0),
    {
        self.0 == 0
    }

    pub fn is_pci_to_pci_bridge(&self) -> (r: bool)
        ensures
            r == (self.spec_value() == 1),
    {
        self.0 == 1
    }

    pub fn is_multi_function(&self) -> (r: bool)
        ensures
            r == (self.spec_value() & 0x80 != 0),
    {
        self.0 & 0x80 != 0
    }
}

/// The device id (register 0x00, high half).
#[derive(Copy, Clone, Debug, PartialEq, Eq, Structural)]
pub struct DeviceId(u16);

impl DeviceId {
    pub closed spec fn spec_value(&self) -> u16 {
        self.0
    }

    /// Reads register 0x00 of the function.
    pub fn new<C: ConfigSpace>(config: &mut Configuration<C>, bus: u8, device: u8, function: u8) -> (r: Self)
        ensures
            appended(old(config).accesses(), final(config).accesses(), 1),
            reads_at(final(config).accesses(), old(config).accesses().len() as int, config_address(bus, device, function, 0)),
            r.spec_value() == (data_at(final(config).accesses(), old(config).accesses().len() as int) >> 16u32) as u16,
    {
        let raw_data = read_data(config, PciConfigAddress::new(bus, device, function, 0));
        Self::from_raw(raw_data)
    }

    pub fn from_raw(raw_data: u32) -> (r: Self)
        ensures
            r.spec_value() == (raw_data >> 16u32) as u16,
    {
        Self((raw_data >> 16) as u16)
    }
}

/// The vendor id (register 0x00, low half); 0xffff means no function.
#[derive(Copy, Clone, Debug, PartialEq, Eq, Structural)]
pub struct VendorId(u16);

impl VendorId {
    pub closed spec fn spec_value(&self) -> u16 {
        self.0
    }

    /// Reads register 0x00 of the function.
    pub fn new<C: ConfigSpace>(config: &mut Configuration<C>, bus: u8, device: u8, function: u8) -> (r: Self)
        ensures
            appended(old(config).accesses(), final(config).accesses(), 1),
            reads_at(final(config).accesses(), old(config).accesses().len() as int, config_address(bus, device, function, 0)),
            r.spec_value() == data_at(final(config).accesses(), old(config).accesses().len() as int) as u16,
    {
        let raw_data = read_data(config, PciConfigAddress::new(bus, device, function, 0));
        Self::from_raw(raw_data)
    }

    pub fn from_raw(raw_data: u32) -> (r: Self)
        ensures
            r.spec_value() == raw_data as u16,
    {
        Self(raw_data as u16)
    }

    /// A function answers at this address.
    pub fn is_valid(&self) -> (r: bool)
        ensures
            r == (self.spec_value() != 0xffff),
    {
        self.0 != 0xffff
    }

    pub fn is_intel(&self) -> (r: bool)
        ensures
            r == (self.spec_value() == 0x8086),
    {
        self.0 == 0x8086
    }
}

/// Register 0x18 of a PCI-to-PCI bridge.
pub struct BusNumber(u32);

impl BusNumber {
    pub closed spec fn spec_value(&self) -> u32 {
        self.0
    }

    /// Reads register 0x18 of the function.
    pub fn new<C: ConfigSpace>(config: &mut Configuration<C>, bus: u8, device: u8, function: u8) -> (r: Self)
        ensures
            appended(old(config).accesses(), final(config).accesses(), 1),
            reads_at(final(config).accesses(), old(config).accesses().len() as int, config_address(bus, device, function, 0x18)),
            r.spec_value() == data_at(final(config).accesses(), old(config).accesses().len() as int),
    {
        let raw_data = read_data(config, PciConfigAddress::new(bus, device, function, 0x18));
        Self(raw_data)
    }

    pub fn from_raw(raw_data: u32) -> (r: Self)
        ensures
            r.spec_value() == raw_data,
    {
        Self(raw_data)
    }

    /// The bus behind the bridge (byte 1).
    pub fn secondary_bus_number(&self) -> (r: u8)
        ensures
            r == (self.spec_value() >> 8u32) as u8,
    {
        (self.0 >> 8) as u8
    }
}

/// Reads the configuration register at `address`.
pub fn read_data<C: ConfigSpace>(config: &mut Configuration<C>, address: PciConfigAddress) -> (data: u32)
    ensures
        final(config).accesses() == old(config).accesses().push(ConfigAccess::Read { address: address.spec_value(), data }),
        appended(old(config).accesses(), final(config).accesses(), 1),
{
    config.read(address)
}

/// A PCI function and its identification.
#[derive(Copy, Clone, Debug, PartialEq, Eq, Structural)]
pub struct PciDevice {
    vendor_id: VendorId,
    device_id: DeviceId,
    class_code: ClassCode,
    header_type: HeaderType,
    bus: u8,
    device: u8,
    function: u8,
}

impl PciDevice {
    pub closed spec fn spec_vendor_id(&self) -> VendorId {
        self.vendor_id
    }

    pub closed spec fn spec_device_id(&self) -> DeviceId {
        self.device_id
    }

    pub closed spec fn spec_class_code(&self) -> ClassCode {
        self.class_code
    }

    pub closed spec fn spec_header_type(&self) -> HeaderType {
        self.header_type
    }

    pub closed spec fn spec_bus(&self) -> u8 {
        self.bus
    }

    pub closed spec fn spec_device(&self) -> u8 {
        self.device
    }

    pub closed spec fn spec_function(&self) -> u8 {
        self.function
    }

    /// Reads the identification registers of a function.
    pub fn new<C: ConfigSpace>(config: &mut Configuration<C>, bus: u8, device: u8, function: u8) -> (r: Self)
        ensures
            ({
                let log = final(config).accesses();
                let i = old(config).accesses().len() as int;
                &&& appended(old(config).accesses(), log, 3)
                &&& reads_at(log, i, config_address(bus, device, function, 0))
                &&& reads_at(log, i + 1, config_address(bus, device, function, 0x0c))
                &&& reads_at(log, i + 2, config_address(bus, device, function, 0x08))
                &&& r.decoded(bus, device, function, data_at(log, i), data_at(log, i + 2), data_at(log, i + 1))
            }),
    {
        let ghost l0 = config.accesses();
        let raw_data = read_data(config, PciConfigAddress::new(bus, device, function, 0));
        let ghost l1 = config.accesses();
        let header_type = read_data(config, PciConfigAddress::new(bus, device, function, 0x0c));
        let ghost l2 = config.accesses();
        let class_code = read_data(config, PciConfigAddress::new(bus, device, function, 0x08));
        proof {
            lemma_appended_trans(l0, l1, l2, 1, 1);
            lemma_appended_trans(l0, l2, config.accesses(), 2, 1);
        }
        Self::from_raw(bus, device, function, raw_data, class_code, header_type)
    }

    /// This is the function `function` of device `device` on bus `bus`
    /// whose registers 0x00, 0x08 and 0x0c hold `reg00`, `reg08` and `reg0c`.
    pub open spec fn decoded(&self, bus: u8, device: u8, function: u8, reg00: u32, reg08: u32, reg0c: u32) -> bool {
        &&& self.spec_vendor_id().spec_value() == reg00 as u16
        &&& self.spec_device_id().spec_value() == (reg00 >> 16u32) as u16
        &&& self.spec_class_code().spec_base() == ((reg08 >> 24u32) & 0xff) as u8
        &&& self.spec_class_code().spec_sub() == ((reg08 >> 16u32) & 0xff) as u8
        &&& self.spec_class_code().spec_interface() == ((reg08 >> 8u32) & 0xff) as u8
        &&& self.spec_header_type().spec_value() == ((reg0c >> 16u32) & 0xff) as u8
        &&& self.spec_bus() == bus
        &&& self.spec_device() == device
        &&& self.spec_function() == function
    }

    /// A function identified by its registers 0x00, 0x08 and 0x0c.
    pub fn from_raw(bus: u8, device: u8, function: u8, reg00: u32, reg08: u32, reg0c: u32) -> (r: Self)
        ensures
            r.decoded(bus, device, function, reg00, reg08, reg0c),
    {
        Self {
            vendor_id: VendorId::from_raw(reg00),
            device_id: DeviceId::from_raw(reg00),
            class_code: ClassCode::from_raw(reg08),
            header_type: HeaderType::from_raw(reg0c),
            bus,
            device,
            function,
        }
    }

    /// Class 0x06, subclass 0x04.
    pub fn is_standard_pci_pci_bridge(&self) -> (r: bool)
        ensures
            r == (self.spec_class_code().spec_base() == 0x06 && self.spec_class_code().spec_sub() == 0x04),
    {
        self.class_code.base() == 0x06 && self.class_code.sub() == 0x04
    }

    /// Reads the register at offset `addr` of this function.
    pub fn read_configuration_space<C: ConfigSpace>(&self, config: &mut Configuration<C>, addr: u8) -> (data: u32)
        ensures
            final(config).accesses() == old(config).accesses().push(ConfigAccess::Read {
                address: config_address(self.spec_bus(), self.spec_device(), self.spec_function(), addr),
                data,
            }),
            appended(old(config).accesses(), final(config).accesses(), 1),
    {
        read_data(config, PciConfigAddress::new(self.bus, self.device, self.function, addr))
    }

    /// Writes the register at offset `addr` of this function.
    pub fn write_conf_reg<C: ConfigSpace>(&self, config: &mut Configuration<C>, addr: u8, value: u32)
        ensures
            final(config).accesses() == old(config).accesses().push(ConfigAccess::Write {
                address: config_address(self.spec_bus(), self.spec_device(), self.spec_function(), addr),
                data: value,
            }),
            appended(old(config).accesses(), final(config).accesses(), 1),
    {
        config.write(PciConfigAddress::new(self.bus, self.device, self.function, addr), value);
    }

    /// Reads base address register `bar_index`, together with the next one
    /// when the first says the address has 64 bits; `None` when a register
    /// index is past the sixth.
    pub fn read_bar<C: ConfigSpace>(&self, config: &mut Configuration<C>, bar_index: u8) -> (r: Option<u64>)
        ensures
            bar_index >= 6 ==> r is None && final(config).accesses() == old(config).accesses(),
            bar_index < 5 ==> r is Some,
            bar_index < 6 ==> {
                let log = final(config).accesses();
                let i = old(config).accesses().len() as int;
                let bar = data_at(log, i);
                let at = |k: int| config_address(self.spec_bus(), self.spec_device(), self.spec_function(), (0x10 + k * 4) as u8);
                &&& reads_at(log, i, at(bar_index as int))
                &&& if (bar >> 1u32) & 0b11 == 0 {
                    appended(old(config).accesses(), log, 1) && r == Some(bar as u64)
                } else if bar_index < 5 {
                    &&& appended(old(config).accesses(), log, 2)
                    &&& reads_at(log, i + 1, at(bar_index + 1))
                    &&& r == Some((bar as u64) | ((data_at(log, i + 1) as u64) << 32u64))
                } else {
                    appended(old(config).accesses(), log, 1) && r is None
                }
            },
    {
        let address = match PciConfigAddress::new_from_bar_index(self.bus, self.device, self.function, bar_index) {
            Some(a) => a,
            None => return None,
        };
        let ghost l0 = config.accesses();
        let bar = read_data(config, address);
        let ghost l1 = config.accesses();
        let upper_index = bar_index + 1;
        let upper = PciConfigAddress::new_from_bar_index(self.bus, self.device, self.function, upper_index);
        let bar_upper = if (bar >> 1) & 0b11 == 0 {
            None
        } else {
            match upper {
                Some(a) => {
                    let u = read_data(config, a);
                    proof {
                        lemma_appended_trans(l0, l1, config.accesses(), 1, 1);
                    }
                    Some(u)
                },
                None => return None,
            }
        };
        Some(bar_value(bar, bar_upper))
    }

    /// Reads the capabilities pointer (register 0x34, low byte).
    pub fn read_capabilities_pointer<C: ConfigSpace>(&self, config: &mut Configuration<C>) -> (r: u8)
        requires
            self.spec_header_type().spec_value() == 0 || self.spec_header_type().spec_value() == 1,
        ensures
            appended(old(config).accesses(), final(config).accesses(), 1),
            reads_at(final(config).accesses(), old(config).accesses().len() as int,
                config_address(self.spec_bus(), self.spec_device(), self.spec_function(), 0x34)),
            r == (data_at(final(config).accesses(), old(config).accesses().len() as int) & 0xff) as u8,
    {
        let raw_data = read_data(config, PciConfigAddress::new(self.bus, self.device, self.function, 0x34));
        (raw_data & 0xff) as u8
    }

    pub fn vendor_id(&self) -> (r: VendorId)
        ensures
            r == self.spec_vendor_id(),
    {
        self.vendor_id
    }

    pub fn device_id(&self) -> (r: DeviceId)
        ensures
            r == self.spec_device_id(),
    {
        self.device_id
    }

    pub fn class_code(&self) -> (r: ClassCode)
        ensures
            r == self.spec_class_code(),
    {
        self.class_code
    }

    pub fn header_type(&self) -> (r: HeaderType)
        ensures
            r == self.spec_header_type(),
    {
        self.header_type
    }

    pub fn bus(&self) -> (r: u8)
        ensures
            r == self.spec_bus(),
    {
        self.bus
    }

    pub fn device(&self) -> (r: u8)
        ensures
            r == self.spec_device(),
    {
        self.device
    }

    pub fn function(&self) -> (r: u8)
        ensures
            r == self.spec_function(),
    {
        self.function
    }
}

/// The device is an xHCI controller.
pub open spec fn is_xhci(d: PciDevice) -> bool {
    d.spec_class_code().spec_base() == 0x0c && d.spec_class_code().spec_sub() == 0x03
        && d.spec_class_code().spec_interface() == 0x30
}

/// The device is an Intel xHCI controller.
pub open spec fn is_intel_xhci(d: PciDevice) -> bool {
    is_xhci(d) && d.spec_vendor_id().spec_value() == 0x8086
}

/// The xHCI controller the kernel drives: the first Intel one found, else
/// the first one; `None` when there is none.
pub fn select_xhci(devices: &Vec<PciDevice>) -> (r: Option<usize>)
    ensures
        r == if exists|i: int| 0 <= i < devices@.len() && is_intel_xhci(#[trigger] devices@[i]) {
            Some(choose_first(devices@, true))
        } else if exists|i: int| 0 <= i < devices@.len() && is_xhci(#[trigger] devices@[i]) {
            Some(choose_first(devices@, false))
        } else {
            None::<usize>
        },
{
    let mut i: usize = 0;
    while i < devices.len()
        invariant
            i <= devices.len(),
            forall|j: int| 0 <= j < i ==> !is_intel_xhci(#[trigger] devices@[j]),
        decreases devices.len() - i,
    {
        if devices[i].class_code().is_xhci_controller() && devices[i].vendor_id().is_intel() {
            proof {
                lemma_choose_first(devices@, true, i as int);
            }
            return Some(i);
        }
        i = i + 1;
    }
    let mut i: usize = 0;
    while i < devices.len()
        invariant
            i <= devices.len(),
            forall|j: int| 0 <= j < devices.len() ==> !is_intel_xhci(#[trigger] devices@[j]),
            forall|j: int| 0 <= j < i ==> !is_xhci(#[trigger] devices@[j]),
        decreases devices.len() - i,
    {
        if devices[i].class_code().is_xhci_controller() {
            proof {
                lemma_choose_first(devices@, false, i as int);
            }
            return Some(i);
        }
        i = i + 1;
    }
    None
}

/// The first index whose device is an Intel xHCI controller (`intel`) or any
/// xHCI controller.
pub open spec fn choose_first(devices: Seq<PciDevice>, intel: bool) -> usize {
    (choose|i: int| 0 <= i < devices.len() && (if intel { is_intel_xhci(devices[i]) } else { is_xhci(devices[i]) })
        && forall|j: int| 0 <= j < i ==> !(if intel { is_intel_xhci(#[trigger] devices[j]) } else { is_xhci(devices[j]) })) as usize
}

proof fn lemma_choose_first(devices: Seq<PciDevice>, intel: bool, i: int)
    requires
        0 <= i < devices.len() <= usize::MAX,
        if intel { is_intel_xhci(devices[i]) } else { is_xhci(devices[i]) },
        forall|j: int| 0 <= j < i ==> !(if intel { is_intel_xhci(#[trigger] devices[j]) } else { is_xhci(devices[j]) }),
    ensures
        choose_first(devices, intel) == i,
{
    let k = choose|k: int| 0 <= k < devices.len() && (if intel { is_intel_xhci(devices[k]) } else { is_xhci(devices[k]) })
        && forall|j: int| 0 <= j < k ==> !(if intel { is_intel_xhci(#[trigger] devices[j]) } else { is_xhci(devices[j]) });
    assert(0 <= k < devices.len() && (if intel { is_intel_xhci(devices[k]) } else { is_xhci(devices[k]) }));
    if k < i {
    } else if k > i {
        assert(!(if intel { is_intel_xhci(devices[i]) } else { is_xhci(devices[i]) }));
    }
}

/// The address a base address register holds: the register itself for a
/// 32-bit memory BAR (type bits 2..1 zero), else with the next register as the
/// upper half.
pub fn bar_value(bar: u32, bar_upper: Option<u32>) -> (r: u64)
    ensures
        r == match bar_upper {
            None => bar as u64,
            Some(u) => (bar as u64) | ((u as u64) << 32u64),
        },
{
    match bar_upper {
        None => bar as u64,
        Some(u) => bar as u64 | ((u as u64) << 32),
    }
}

} // verus!

verus! {

/// How many bridges deep a scan follows secondary buses. A PCI hierarchy has
/// at most 256 buses, so a well-formed one is scanned completely; the bound
/// only cuts a bridge loop short.
pub const MAX_BRIDGE_DEPTH: usize = 256;

/// Every device in `devices` answered the scan (its vendor id is valid).
pub open spec fn all_present(devices: Seq<PciDevice>) -> bool {
    forall|i: int| 0 <= i < devices.len() ==> (#[trigger] devices[i]).spec_vendor_id().spec_value() != 0xffff
}

/// The devices found so far are kept, in order, ahead of the new ones, and
/// every new one answered.
pub open spec fn scan_extends(old_devices: Seq<PciDevice>, new_devices: Seq<PciDevice>) -> bool {
    &&& old_devices.len() <= new_devices.len()
    &&& new_devices.subrange(0, old_devices.len() as int) == old_devices
    &&& all_present(new_devices.subrange(old_devices.len() as int, new_devices.len() as int))
}

proof fn lemma_scan_extends_trans(a: Seq<PciDevice>, b: Seq<PciDevice>, c: Seq<PciDevice>)
    requires
        scan_extends(a, b),
        scan_extends(b, c),
    ensures
        scan_extends(a, c),
{
    assert(c.subrange(0, a.len() as int) =~= b.subrange(0, a.len() as int));
    assert forall|i: int| 0 <= i < c.len() - a.len() implies
        (#[trigger] c.subrange(a.len() as int, c.len() as int)[i]).spec_vendor_id().spec_value() != 0xffff by {
        if a.len() + i < b.len() {
            assert(c[a.len() + i] == b[a.len() + i]);
            assert(b.subrange(a.len() as int, b.len() as int)[i] == b[a.len() + i]);
        } else {
            assert(c.subrange(b.len() as int, c.len() as int)[a.len() + i - b.len()] == c[a.len() + i]);
        }
    }
}

proof fn lemma_scan_extends_refl(a: Seq<PciDevice>)
    ensures
        scan_extends(a, a),
{
    assert(a.subrange(0, a.len() as int) =~= a);
}

/// `longer` starts with every access of `shorter`.
pub open spec fn log_extends(longer: Seq<ConfigAccess>, shorter: Seq<ConfigAccess>) -> bool {
    &&& longer.len() >= shorter.len()
    &&& longer.subrange(0, shorter.len() as int) == shorter
}

/// A header type register value says the device has several functions.
pub open spec fn multi_function_reg(reg0c: u32) -> bool {
    ((reg0c >> 16u32) & 0xff) as u8 & 0x80 != 0
}

/// A vendor id register value says a function answers.
pub open spec fn present_reg(reg00: u32) -> bool {
    reg00 as u16 != 0xffff
}

/// A class code register value says the function is a PCI-to-PCI bridge.
pub open spec fn bridge_reg(reg08: u32) -> bool {
    ((reg08 >> 24u32) & 0xff) as u8 == 0x06 && ((reg08 >> 16u32) & 0xff) as u8 == 0x04
}

/// A function found by a scan: its address and identification.
#[derive(Clone, Copy, Debug, PartialEq, Eq, Structural)]
pub struct ScannedFunction {
    pub bus: u8,
    pub device: u8,
    pub function: u8,
    pub vendor_id: u16,
    pub device_id: u16,
    pub base: u8,
    pub sub: u8,
    pub interface: u8,
    pub header_type: u8,
}

/// The function at `bus`, `device`, `function` whose registers 0x00, 0x08 and
/// 0x0c hold `reg00`, `reg08` and `reg0c`.
pub open spec fn scanned_from_regs(bus: u8, device: u8, function: u8, reg00: u32, reg08: u32, reg0c: u32) -> ScannedFunction {
    ScannedFunction {
        bus,
        device,
        function,
        vendor_id: reg00 as u16,
        device_id: (reg00 >> 16u32) as u16,
        base: ((reg08 >> 24u32) & 0xff) as u8,
        sub: ((reg08 >> 16u32) & 0xff) as u8,
        interface: ((reg08 >> 8u32) & 0xff) as u8,
        header_type: ((reg0c >> 16u32) & 0xff) as u8,
    }
}

/// The address and identification of `d`.
pub open spec fn scanned_of(d: PciDevice) -> ScannedFunction {
    ScannedFunction {
        bus: d.spec_bus(),
        device: d.spec_device(),
        function: d.spec_function(),
        vendor_id: d.spec_vendor_id().spec_value(),
        device_id: d.spec_device_id().spec_value(),
        base: d.spec_class_code().spec_base(),
        sub: d.spec_class_code().spec_sub(),
        interface: d.spec_class_code().spec_interface(),
        header_type: d.spec_header_type().spec_value(),
    }
}

/// The address and identification of each of `devices`.
pub open spec fn scanned_all(devices: Seq<PciDevice>) -> Seq<ScannedFunction> {
    devices.map_values(|d: PciDevice| scanned_of(d))
}

/// What a scan makes of the accesses from some point on is where its accesses
/// end and the functions it finds, or `None` when the log does not hold the
/// reads it makes. This appends what a second scan finds after what a first
/// one found.
pub open spec fn then_scan(first: Seq<ScannedFunction>, rest: Option<(int, Seq<ScannedFunction>)>) -> Option<(int, Seq<ScannedFunction>)> {
    match rest {
        Some((e, b)) => Some((e, first + b)),
        None => None,
    }
}

proof fn lemma_then_scan_empty(x: Option<(int, Seq<ScannedFunction>)>)
    ensures
        then_scan(Seq::<ScannedFunction>::empty(), x) == x,
{
    if let Some((e, b)) = x {
        assert(Seq::<ScannedFunction>::empty() + b =~= b);
    }
}

proof fn lemma_then_scan_assoc(a: Seq<ScannedFunction>, b: Seq<ScannedFunction>, x: Option<(int, Seq<ScannedFunction>)>)
    ensures
        then_scan(a, then_scan(b, x)) == then_scan(a + b, x),
{
    if let Some((e, c)) = x {
        assert(a + (b + c) =~= (a + b) + c);
    }
}

/// Scanning function `function` of `device` on `bus` from access `i` of
/// `log`: `PciDevice::new` reads its registers 0x00, 0x0c and 0x08; a
/// PCI-to-PCI bridge (class 0x06, subclass 0x04) has its register 0x18 read
/// and its secondary bus (byte 1) scanned one level deeper while `depth` is
/// not 0; then the function is found when its vendor id is not 0xffff.
pub open spec fn scan_function_spec(log: Seq<ConfigAccess>, i: int, bus: u8, device: u8, function: u8, depth: nat) -> Option<(int, Seq<ScannedFunction>)>
    decreases depth, 0nat, 0nat,
{
    if !(reads_at(log, i, config_address(bus, device, function, 0)) && reads_at(log, i + 1, config_address(bus, device,
        function, 0x0c)) && reads_at(log, i + 2, config_address(bus, device, function, 0x08))) {
        None
    } else {
        let v0 = data_at(log, i);
        let v0c = data_at(log, i + 1);
        let v08 = data_at(log, i + 2);
        let behind = if bridge_reg(v08) && depth > 0 {
            if reads_at(log, i + 3, config_address(bus, device, function, 0x18)) {
                scan_bus_spec(log, i + 4, (data_at(log, i + 3) >> 8u32) as u8, 0, (depth - 1) as nat)
            } else {
                None
            }
        } else {
            Some((i + 3, Seq::<ScannedFunction>::empty()))
        };
        match behind {
            Some((e, f)) => Some(
                (e, if present_reg(v0) {
                    f.push(scanned_from_regs(bus, device, function, v0, v08, v0c))
                } else {
                    f
                }),
            ),
            None => None,
        }
    }
}

/// Scanning devices `dev` to 31 of `bus` from access `i` of `log`: for each
/// it reads register 0x00 of function 0 and scans the device when it answers.
pub open spec fn scan_bus_spec(log: Seq<ConfigAccess>, i: int, bus: u8, dev: nat, depth: nat) -> Option<(int, Seq<ScannedFunction>)>
    decreases depth, 2nat, 32 - dev,
{
    if dev >= 32 {
        Some((i, Seq::<ScannedFunction>::empty()))
    } else if !reads_at(log, i, config_address(bus, dev as u8, 0, 0)) {
        None
    } else if present_reg(data_at(log, i)) {
        match scan_device_spec(log, i + 1, bus, dev as u8, depth) {
            Some((m, a)) => then_scan(a, scan_bus_spec(log, m, bus, dev + 1, depth)),
            None => None,
        }
    } else {
        scan_bus_spec(log, i + 1, bus, dev + 1, depth)
    }
}

/// Scanning `device` on `bus` from access `i` of `log`: it reads register
/// 0x0c of function 0, then scans all eight functions when the device has
/// several, else function 0.
pub open spec fn scan_device_spec(log: Seq<ConfigAccess>, i: int, bus: u8, device: u8, depth: nat) -> Option<(int, Seq<ScannedFunction>)>
    decreases depth, 1nat, 9nat,
{
    if !reads_at(log, i, config_address(bus, device, 0, 0x0c)) {
        None
    } else if multi_function_reg(data_at(log, i)) {
        scan_functions_spec(log, i + 1, bus, device, 0, depth)
    } else {
        scan_function_spec(log, i + 1, bus, device, 0, depth)
    }
}

/// Scanning functions `function` to 7 of `device` on `bus`, one after the
/// other, from access `i` of `log`.
pub open spec fn scan_functions_spec(log: Seq<ConfigAccess>, i: int, bus: u8, device: u8, function: nat, depth: nat) -> Option<(int, Seq<ScannedFunction>)>
    decreases depth, 1nat, 8 - function,
{
    if function >= 8 {
        Some((i, Seq::<ScannedFunction>::empty()))
    } else {
        match scan_function_spec(log, i, bus, device, function as u8, depth) {
            Some((m, a)) => then_scan(a, scan_functions_spec(log, m, bus, device, function + 1, depth)),
            None => None,
        }
    }
}

/// Scanning the buses of the host bridge's functions `function` to 7 from
/// access `i` of `log`: for each it reads register 0x00 of that function of
/// device 0 on bus 0, and scans the bus numbered like the function when it
/// answers.
pub open spec fn scan_roots_spec(log: Seq<ConfigAccess>, i: int, function: nat) -> Option<(int, Seq<ScannedFunction>)>
    decreases 8 - function,
{
    if function >= 8 {
        Some((i, Seq::<ScannedFunction>::empty()))
    } else if !reads_at(log, i, config_address(0, 0, function as u8, 0)) {
        None
    } else if present_reg(data_at(log, i)) {
        match scan_bus_spec(log, i + 1, function as u8, 0, MAX_BRIDGE_DEPTH as nat) {
            Some((m, a)) => then_scan(a, scan_roots_spec(log, m, function + 1)),
            None => None,
        }
    } else {
        scan_roots_spec(log, i + 1, function + 1)
    }
}

/// The whole scan from access `i` of `log`: it reads register 0x0c of the
/// host bridge (bus 0, device 0, function 0), then scans bus 0 when the host
/// bridge has one function, else the buses of its functions 1 to 7.
pub open spec fn scan_all_spec(log: Seq<ConfigAccess>, i: int) -> Option<(int, Seq<ScannedFunction>)> {
    if !reads_at(log, i, config_address(0, 0, 0, 0x0c)) {
        None
    } else if multi_function_reg(data_at(log, i)) {
        scan_roots_spec(log, i + 1, 1)
    } else {
        scan_bus_spec(log, i + 1, 0, 0, MAX_BRIDGE_DEPTH as nat)
    }
}

/// Reads stay what they were when more accesses follow.
proof fn lemma_extends_index(longer: Seq<ConfigAccess>, shorter: Seq<ConfigAccess>)
    requires
        log_extends(longer, shorter),
    ensures
        forall|k: int| 0 <= k < shorter.len() ==> #[trigger] longer[k] == shorter[k],
{
    assert forall|k: int| 0 <= k < shorter.len() implies #[trigger] longer[k] == shorter[k] by {
        assert(longer.subrange(0, shorter.len() as int)[k] == longer[k]);
    }
}

proof fn lemma_extends_trans(a: Seq<ConfigAccess>, b: Seq<ConfigAccess>, c: Seq<ConfigAccess>)
    requires
        log_extends(b, a),
        log_extends(c, b),
    ensures
        log_extends(c, a),
{
    lemma_extends_index(c, b);
    lemma_extends_index(b, a);
    assert(c.subrange(0, a.len() as int) =~= a);
}

proof fn lemma_extends_refl(a: Seq<ConfigAccess>)
    ensures
        log_extends(a, a),
{
    assert(a.subrange(0, a.len() as int) =~= a);
}

proof fn lemma_scanned_all_append(a: Seq<PciDevice>, b: Seq<PciDevice>)
    ensures
        scanned_all(a + b) == scanned_all(a) + scanned_all(b),
{
    assert(scanned_all(a + b) =~= scanned_all(a) + scanned_all(b));
}

/// The new devices of a scan, after those found before.
pub open spec fn new_devices(before: Seq<PciDevice>, after: Seq<PciDevice>) -> Seq<PciDevice> {
    after.skip(before.len() as int)
}

/// `devices` grew from `before` by `gained`.
proof fn lemma_new_devices(before: Seq<PciDevice>, mid: Seq<PciDevice>, after: Seq<PciDevice>)
    requires
        scan_extends(before, mid),
        scan_extends(mid, after),
    ensures
        new_devices(before, after) == new_devices(before, mid) + new_devices(mid, after),
        scanned_all(new_devices(before, after)) == scanned_all(new_devices(before, mid)) + scanned_all(new_devices(mid, after)),
{
    assert forall|k: int| 0 <= k < before.len() implies #[trigger] after[k] == before[k] by {
        assert(after.subrange(0, mid.len() as int)[k] == after[k]);
        assert(mid.subrange(0, before.len() as int)[k] == mid[k]);
    }
    assert(new_devices(before, after) =~= new_devices(before, mid) + new_devices(mid, after)) by {
        assert forall|k: int| 0 <= k < mid.len() - before.len() implies new_devices(before, after)[k] == new_devices(before, mid)[k] by {
            assert(after.subrange(0, mid.len() as int)[before.len() + k] == after[before.len() + k]);
        }
    }
    lemma_scanned_all_append(new_devices(before, mid), new_devices(mid, after));
}

/// Scans bus 0, or, when the host bridge is multi-function, the buses of its
/// functions 1 to 7 that answer.
pub fn scan_all_bus<C: ConfigSpace>(config: &mut Configuration<C>) -> (devices: Vec<PciDevice>)
    ensures
        all_present(devices@),
        log_extends(final(config).accesses(), old(config).accesses()),
        forall|l2: Seq<ConfigAccess>|
            #[trigger] log_extends(l2, final(config).accesses()) ==> scan_all_spec(l2, old(config).accesses().len() as int)
                == Some((final(config).accesses().len() as int, scanned_all(devices@))),
{
    let ghost l0 = config.accesses();
    let mut devices: Vec<PciDevice> = Vec::new();
    let header_type = HeaderType::new(config, 0, 0, 0);
    let ghost l1 = config.accesses();
    proof {
        assert(l1.subrange(0, l0.len() as int) =~= l0);
    }
    if !header_type.is_multi_function() {
        scan_bus(config, 0, &mut devices);
        assert(devices@.subrange(0, devices@.len() as int) =~= devices@);
        proof {
            let lf = config.accesses();
            lemma_extends_trans(l0, l1, lf);
            assert(new_devices(Seq::<PciDevice>::empty(), devices@) =~= devices@);
            assert forall|l2: Seq<ConfigAccess>| #[trigger] log_extends(l2, lf) implies scan_all_spec(l2, l0.len() as int)
                == Some((lf.len() as int, scanned_all(devices@))) by {
                lemma_extends_trans(l1, lf, l2);
                lemma_extends_index(l2, l1);
            }
        }
        return devices;
    }
    let mut function: u8 = 1;
    proof {
        lemma_extends_refl(l1);
        assert(scanned_all(devices@) =~= Seq::<ScannedFunction>::empty());
        assert forall|l2: Seq<ConfigAccess>| #[trigger] log_extends(l2, l1) implies scan_roots_spec(l2, l1.len() as int, 1)
            == then_scan(scanned_all(devices@), scan_roots_spec(l2, l1.len() as int, 1)) by {
            lemma_then_scan_empty(scan_roots_spec(l2, l1.len() as int, 1));
        }
    }
    while function < 8
        invariant
            1 <= function <= 8,
            all_present(devices@),
            l0 == old(config).accesses(),
            appended(l0, l1, 1),
            reads_at(l1, l0.len() as int, config_address(0, 0, 0, 0x0c)),
            multi_function_reg(data_at(l1, l0.len() as int)),
            log_extends(config.accesses(), l1),
            forall|l2: Seq<ConfigAccess>|
                #[trigger] log_extends(l2, config.accesses()) ==> scan_roots_spec(l2, l1.len() as int, 1) == then_scan(
                    scanned_all(devices@),
                    scan_roots_spec(l2, config.accesses().len() as int, function as nat),
                ),
        decreases 8 - function,
    {
        let ghost la = config.accesses();
        let ghost da = devices@;
        let vendor_id = VendorId::new(config, 0, 0, function);
        let ghost lb = config.accesses();
        proof {
            assert(lb.subrange(0, la.len() as int) =~= la);
        }
        if vendor_id.is_valid() {
            let ghost before = devices@;
            scan_bus(config, function, &mut devices);
            proof {
                assert forall|i: int| 0 <= i < devices@.len() implies (#[trigger] devices@[i]).spec_vendor_id().spec_value() != 0xffff by {
                    if i < before.len() {
                        assert(devices@.subrange(0, before.len() as int)[i] == devices@[i]);
                    } else {
                        assert(devices@.subrange(before.len() as int, devices@.len() as int)[i - before.len()] == devices@[i]);
                    }
                }
                let lc = config.accesses();
                let nd = new_devices(da, devices@);
                assert(devices@ =~= da + nd) by {
                    assert forall|k: int| 0 <= k < da.len() implies devices@[k] == da[k] by {
                        assert(devices@.subrange(0, da.len() as int)[k] == devices@[k]);
                    }
                }
                lemma_scanned_all_append(da, nd);
                lemma_extends_trans(la, lb, lc);
                lemma_extends_trans(l1, la, lc);
                assert forall|l2: Seq<ConfigAccess>| #[trigger] log_extends(l2, lc) implies scan_roots_spec(l2, l1.len() as int, 1)
                    == then_scan(scanned_all(devices@), scan_roots_spec(l2, lc.len() as int, (function + 1) as nat)) by {
                    lemma_extends_trans(lb, lc, l2);
                    lemma_extends_trans(la, lc, l2);
                    lemma_extends_index(l2, lb);
                    let rest = scan_roots_spec(l2, lc.len() as int, (function + 1) as nat);
                    assert(scan_bus_spec(l2, lb.len() as int, function, 0, MAX_BRIDGE_DEPTH as nat) == Some((lc.len() as int, scanned_all(nd))));
                    assert(scan_roots_spec(l2, la.len() as int, function as nat) == then_scan(scanned_all(nd), rest));
                    lemma_then_scan_assoc(scanned_all(da), scanned_all(nd), rest);
                }
            }
        } else {
            proof {
                lemma_extends_trans(l1, la, lb);
                assert forall|l2: Seq<ConfigAccess>| #[trigger] log_extends(l2, lb) implies scan_roots_spec(l2, l1.len() as int, 1)
                    == then_scan(scanned_all(devices@), scan_roots_spec(l2, lb.len() as int, (function + 1) as nat)) by {
                    lemma_extends_trans(la, lb, l2);
                    lemma_extends_index(l2, lb);
                    assert(scan_roots_spec(l2, la.len() as int, function as nat) == scan_roots_spec(l2, lb.len() as int, (function + 1) as nat));
                }
            }
        }
        function = function + 1;
    }
    proof {
        let lf = config.accesses();
        assert(scanned_all(devices@) + Seq::<ScannedFunction>::empty() =~= scanned_all(devices@));
        lemma_extends_trans(l0, l1, lf);
        assert forall|l2: Seq<ConfigAccess>| #[trigger] log_extends(l2, lf) implies scan_all_spec(l2, l0.len() as int)
            == Some((lf.len() as int, scanned_all(devices@))) by {
            assert(scan_roots_spec(l2, lf.len() as int, 8) == Some((lf.len() as int, Seq::<ScannedFunction>::empty())));
            lemma_extends_trans(l1, lf, l2);
            lemma_extends_index(l2, l1);
        }
    }
    devices
}

/// Scans the 32 devices of `bus`, appending every function that answers.
pub fn scan_bus<C: ConfigSpace>(config: &mut Configuration<C>, bus: u8, devices: &mut Vec<PciDevice>)
    ensures
        scan_extends(old(devices)@, final(devices)@),
        log_extends(final(config).accesses(), old(config).accesses()),
        forall|l2: Seq<ConfigAccess>|
            #[trigger] log_extends(l2, final(config).accesses()) ==> scan_bus_spec(l2, old(config).accesses().len() as int,
                bus, 0, MAX_BRIDGE_DEPTH as nat) == Some(
                (final(config).accesses().len() as int, scanned_all(new_devices(old(devices)@, final(devices)@))),
            ),
{
    scan_bus_within(config, bus, devices, MAX_BRIDGE_DEPTH)
}

/// Scans the functions of one device: all eight when it is multi-function,
/// else function 0.
pub fn scan_device<C: ConfigSpace>(config: &mut Configuration<C>, bus: u8, device: u8, devices: &mut Vec<PciDevice>)
    ensures
        scan_extends(old(devices)@, final(devices)@),
        log_extends(final(config).accesses(), old(config).accesses()),
        forall|l2: Seq<ConfigAccess>|
            #[trigger] log_extends(l2, final(config).accesses()) ==> scan_device_spec(l2, old(config).accesses().len() as int,
                bus, device, MAX_BRIDGE_DEPTH as nat) == Some(
                (final(config).accesses().len() as int, scanned_all(new_devices(old(devices)@, final(devices)@))),
            ),
{
    scan_device_within(config, bus, device, devices, MAX_BRIDGE_DEPTH)
}

/// Scans one function: the bus behind it when it is a PCI-to-PCI bridge, then
/// the function itself when it answers.
pub fn scan_function<C: ConfigSpace>(config: &mut Configuration<C>, bus: u8, device: u8, function: u8, devices: &mut Vec<PciDevice>)
    ensures
        scan_extends(old(devices)@, final(devices)@),
        log_extends(final(config).accesses(), old(config).accesses()),
        forall|l2: Seq<ConfigAccess>|
            #[trigger] log_extends(l2, final(config).accesses()) ==> scan_function_spec(l2, old(config).accesses().len() as int,
                bus, device, function, MAX_BRIDGE_DEPTH as nat) == Some(
                (final(config).accesses().len() as int, scanned_all(new_devices(old(devices)@, final(devices)@))),
            ),
{
    scan_function_within(config, bus, device, function, devices, MAX_BRIDGE_DEPTH)
}

fn scan_bus_within<C: ConfigSpace>(config: &mut Configuration<C>, bus: u8, devices: &mut Vec<PciDevice>, depth: usize)
    ensures
        scan_extends(old(devices)@, final(devices)@),
        log_extends(final(config).accesses(), old(config).accesses()),
        forall|l2: Seq<ConfigAccess>|
            #[trigger] log_extends(l2, final(config).accesses()) ==> scan_bus_spec(l2, old(config).accesses().len() as int,
                bus, 0, depth as nat) == Some(
                (final(config).accesses().len() as int, scanned_all(new_devices(old(devices)@, final(devices)@))),
            ),
    decreases depth, 2nat,
{
    let ghost l0 = config.accesses();
    let ghost d0 = devices@;
    proof {
        lemma_scan_extends_refl(devices@);
        lemma_extends_refl(l0);
        assert(new_devices(d0, devices@) =~= Seq::<PciDevice>::empty());
        assert(scanned_all(new_devices(d0, devices@)) =~= Seq::<ScannedFunction>::empty());
        assert forall|l2: Seq<ConfigAccess>| #[trigger] log_extends(l2, l0) implies scan_bus_spec(l2, l0.len() as int, bus, 0,
            depth as nat) == then_scan(scanned_all(new_devices(d0, devices@)), scan_bus_spec(l2, l0.len() as int, bus, 0, depth as nat)) by {
            lemma_then_scan_empty(scan_bus_spec(l2, l0.len() as int, bus, 0, depth as nat));
        }
    }
    let mut device: u8 = 0;
    while device < 32
        invariant
            device <= 32,
            l0 == old(config).accesses(),
            d0 == old(devices)@,
            scan_extends(d0, devices@),
            log_extends(config.accesses(), l0),
            forall|l2: Seq<ConfigAccess>|
                #[trigger] log_extends(l2, config.accesses()) ==> scan_bus_spec(l2, l0.len() as int, bus, 0, depth as nat)
                    == then_scan(scanned_all(new_devices(d0, devices@)), scan_bus_spec(l2, config.accesses().len() as int, bus,
                    device as nat, depth as nat)),
        decreases 32 - device,
    {
        let ghost la = config.accesses();
        let ghost da = devices@;
        let vendor_id = VendorId::new(config, bus, device, 0);
        let ghost lb = config.accesses();
        proof {
            assert(lb.subrange(0, la.len() as int) =~= la);
        }
        if vendor_id.is_valid() {
            scan_device_within(config, bus, device, devices, depth);
            proof {
                lemma_new_devices(d0, da, devices@);
                lemma_scan_extends_trans(d0, da, devices@);
                let lc = config.accesses();
                let nd = new_devices(da, devices@);
                lemma_extends_trans(la, lb, lc);
                lemma_extends_trans(l0, la, lc);
                assert forall|l2: Seq<ConfigAccess>| #[trigger] log_extends(l2, lc) implies scan_bus_spec(l2, l0.len() as int, bus, 0,
                    depth as nat) == then_scan(scanned_all(new_devices(d0, devices@)), scan_bus_spec(l2, lc.len() as int, bus,
                    (device + 1) as nat, depth as nat)) by {
                    lemma_extends_trans(lb, lc, l2);
                    lemma_extends_trans(la, lc, l2);
                    lemma_extends_index(l2, lb);
                    let rest = scan_bus_spec(l2, lc.len() as int, bus, (device + 1) as nat, depth as nat);
                    assert(scan_device_spec(l2, lb.len() as int, bus, device, depth as nat) == Some((lc.len() as int, scanned_all(nd))));
                    assert(scan_bus_spec(l2, la.len() as int, bus, device as nat, depth as nat) == then_scan(scanned_all(nd), rest));
                    lemma_then_scan_assoc(scanned_all(new_devices(d0, da)), scanned_all(nd), rest);
                }
            }
        } else {
            proof {
                lemma_extends_trans(l0, la, lb);
                assert forall|l2: Seq<ConfigAccess>| #[trigger] log_extends(l2, lb) implies scan_bus_spec(l2, l0.len() as int, bus, 0,
                    depth as nat) == then_scan(scanned_all(new_devices(d0, devices@)), scan_bus_spec(l2, lb.len() as int, bus,
                    (device + 1) as nat, depth as nat)) by {
                    lemma_extends_trans(la, lb, l2);
                    lemma_extends_index(l2, lb);
                    assert(scan_bus_spec(l2, la.len() as int, bus, device as nat, depth as nat) == scan_bus_spec(l2, lb.len() as int,
                        bus, (device + 1) as nat, depth as nat));
                }
            }
        }
        device = device + 1;
    }
    proof {
        let lf = config.accesses();
        assert forall|l2: Seq<ConfigAccess>| #[trigger] log_extends(l2, lf) implies scan_bus_spec(l2, l0.len() as int,
            bus, 0, depth as nat) == Some((lf.len() as int, scanned_all(new_devices(d0, devices@)))) by {
            assert(scan_bus_spec(l2, lf.len() as int, bus, 32, depth as nat) == Some((lf.len() as int, Seq::<ScannedFunction>::empty())));
            assert(scanned_all(new_devices(d0, devices@)) + Seq::<ScannedFunction>::empty() =~= scanned_all(new_devices(d0, devices@)));
        }
    }
}

fn scan_device_within<C: ConfigSpace>(config: &mut Configuration<C>, bus: u8, device: u8, devices: &mut Vec<PciDevice>, depth: usize)
    ensures
        scan_extends(old(devices)@, final(devices)@),
        log_extends(final(config).accesses(), old(config).accesses()),
        forall|l2: Seq<ConfigAccess>|
            #[trigger] log_extends(l2, final(config).accesses()) ==> scan_device_spec(l2, old(config).accesses().len() as int,
                bus, device, depth as nat) == Some(
                (final(config).accesses().len() as int, scanned_all(new_devices(old(devices)@, final(devices)@))),
            ),
    decreases depth, 1nat,
{
    let ghost l0 = config.accesses();
    let ghost d0 = devices@;
    let header_type = HeaderType::new(config, bus, device, 0);
    let ghost l1 = config.accesses();
    proof {
        assert(l1.subrange(0, l0.len() as int) =~= l0);
    }
    if header_type.is_multi_function() {
        proof {
            lemma_scan_extends_refl(devices@);
            lemma_extends_refl(l1);
            assert(new_devices(d0, devices@) =~= Seq::<PciDevice>::empty());
            assert(scanned_all(new_devices(d0, devices@)) =~= Seq::<ScannedFunction>::empty());
            assert forall|l2: Seq<ConfigAccess>| #[trigger] log_extends(l2, l1) implies scan_functions_spec(l2, l1.len() as int,
                bus, device, 0, depth as nat) == then_scan(scanned_all(new_devices(d0, devices@)), scan_functions_spec(l2,
                l1.len() as int, bus, device, 0, depth as nat)) by {
                lemma_then_scan_empty(scan_functions_spec(l2, l1.len() as int, bus, device, 0, depth as nat));
            }
        }
        let mut function: u8 = 0;
        while function < 8
            invariant
                function <= 8,
                l0 == old(config).accesses(),
                d0 == old(devices)@,
                appended(l0, l1, 1),
                reads_at(l1, l0.len() as int, config_address(bus, device, 0, 0x0c)),
                multi_function_reg(data_at(l1, l0.len() as int)),
                scan_extends(d0, devices@),
                log_extends(config.accesses(), l1),
                forall|l2: Seq<ConfigAccess>|
                    #[trigger] log_extends(l2, config.accesses()) ==> scan_functions_spec(l2, l1.len() as int, bus, device, 0,
                        depth as nat) == then_scan(scanned_all(new_devices(d0, devices@)), scan_functions_spec(l2,
                        config.accesses().len() as int, bus, device, function as nat, depth as nat)),
            decreases 8 - function,
        {
            let ghost la = config.accesses();
            let ghost da = devices@;
            scan_function_within(config, bus, device, function, devices, depth);
            proof {
                lemma_new_devices(d0, da, devices@);
                lemma_scan_extends_trans(d0, da, devices@);
                let lc = config.accesses();
                let nd = new_devices(da, devices@);
                lemma_extends_trans(l1, la, lc);
                assert forall|l2: Seq<ConfigAccess>| #[trigger] log_extends(l2, lc) implies scan_functions_spec(l2, l1.len() as int,
                    bus, device, 0, depth as nat) == then_scan(scanned_all(new_devices(d0, devices@)), scan_functions_spec(l2,
                    lc.len() as int, bus, device, (function + 1) as nat, depth as nat)) by {
                    lemma_extends_trans(la, lc, l2);
                    let rest = scan_functions_spec(l2, lc.len() as int, bus, device, (function + 1) as nat, depth as nat);
                    assert(scan_function_spec(l2, la.len() as int, bus, device, function, depth as nat) == Some((lc.len() as int, scanned_all(nd))));
                    assert(scan_functions_spec(l2, la.len() as int, bus, device, function as nat, depth as nat) == then_scan(scanned_all(nd), rest));
                    lemma_then_scan_assoc(scanned_all(new_devices(d0, da)), scanned_all(nd), rest);
                }
            }
            function = function + 1;
        }
        proof {
            let lf = config.accesses();
            lemma_extends_trans(l0, l1, lf);
            assert forall|l2: Seq<ConfigAccess>| #[trigger] log_extends(l2, lf) implies scan_device_spec(l2, l0.len() as int,
                bus, device, depth as nat) == Some((lf.len() as int, scanned_all(new_devices(d0, devices@)))) by {
                assert(scan_functions_spec(l2, lf.len() as int, bus, device, 8, depth as nat) == Some((lf.len() as int, Seq::<ScannedFunction>::empty())));
                assert(scanned_all(new_devices(d0, devices@)) + Seq::<ScannedFunction>::empty() =~= scanned_all(new_devices(d0, devices@)));
                lemma_extends_trans(l1, lf, l2);
                lemma_extends_index(l2, l1);
            }
        }
    } else {
        scan_function_within(config, bus, device, 0, devices, depth);
        proof {
            let lf = config.accesses();
            lemma_extends_trans(l0, l1, lf);
            assert forall|l2: Seq<ConfigAccess>| #[trigger] log_extends(l2, lf) implies scan_device_spec(l2, l0.len() as int,
                bus, device, depth as nat) == Some((lf.len() as int, scanned_all(new_devices(d0, devices@)))) by {
                lemma_extends_trans(l1, lf, l2);
                lemma_extends_index(l2, l1);
            }
        }
    }
}

fn scan_function_within<C: ConfigSpace>(config: &mut Configuration<C>, bus: u8, device: u8, function: u8, devices: &mut Vec<PciDevice>, depth: usize)
    ensures
        scan_extends(old(devices)@, final(devices)@),
        log_extends(final(config).accesses(), old(config).accesses()),
        forall|l2: Seq<ConfigAccess>|
            #[trigger] log_extends(l2, final(config).accesses()) ==> scan_function_spec(l2, old(config).accesses().len() as int,
                bus, device, function, depth as nat) == Some(
                (final(config).accesses().len() as int, scanned_all(new_devices(old(devices)@, final(devices)@))),
            ),
    decreases depth, 0nat,
{
    let ghost l0 = config.accesses();
    let ghost d0 = devices@;
    let pci_device = PciDevice::new(config, bus, device, function);
    let ghost l1 = config.accesses();
    proof {
        lemma_scan_extends_refl(devices@);
        lemma_extends_refl(l1);
    }
    let ghost lm = l1;
    let ghost dm = devices@;
    let ghost behind_end = l1.len() as int;
    if pci_device.is_standard_pci_pci_bridge() && depth > 0 {
        let bus_number = BusNumber::new(config, bus, device, function);
        let ghost l2b = config.accesses();
        let secondary_bus_number = bus_number.secondary_bus_number();
        scan_bus_within(config, secondary_bus_number, devices, depth - 1);
        proof {
            lm = config.accesses();
            dm = devices@;
            behind_end = lm.len() as int;
            lemma_appended_trans(l0, l1, l2b, 3, 1);
            assert(l2b.subrange(0, l1.len() as int) =~= l1);
            lemma_extends_trans(l1, l2b, lm);
        }
    }
    if pci_device.vendor_id().is_valid() {
        let ghost before = devices@;
        devices.push(pci_device);
        proof {
            assert(scan_extends(before, devices@)) by {
                assert(devices@.subrange(0, before.len() as int) =~= before);
                assert(devices@.subrange(before.len() as int, devices@.len() as int) =~= seq![pci_device]);
            }
            lemma_scan_extends_trans(old(devices)@, before, devices@);
        }
    }
    proof {
        let lf = config.accesses();
        let nd = new_devices(d0, devices@);
        let i = l0.len() as int;
        assert(lf == lm);
        lemma_extends_refl(lm);
        lemma_extends_trans(l1, lm, lf);
        lemma_appended_trans(l0, l1, l1, 3, 0);
        assert(lf.subrange(0, l0.len() as int) =~= l0) by {
            lemma_extends_index(lf, l1);
        }
        let entry = scanned_from_regs(bus, device, function, data_at(l1, i), data_at(l1, i + 2), data_at(l1, i + 1));
        assert(scanned_of(pci_device) == entry);
        if present_reg(data_at(l1, i)) {
            assert(scanned_all(nd) =~= scanned_all(new_devices(d0, dm)).push(entry)) by {
                assert(nd =~= new_devices(d0, dm).push(pci_device));
            }
        } else {
            assert(scanned_all(nd) =~= scanned_all(new_devices(d0, dm))) by {
                assert(nd =~= new_devices(d0, dm));
            }
        }
        assert forall|l2: Seq<ConfigAccess>| #[trigger] log_extends(l2, lf) implies scan_function_spec(l2, l0.len() as int,
            bus, device, function, depth as nat) == Some((lf.len() as int, scanned_all(nd))) by {
            lemma_extends_trans(l1, lf, l2);
            lemma_extends_index(l2, l1);
            if bridge_reg(data_at(l1, i + 2)) && depth > 0 {
                lemma_extends_trans(lm, lf, l2);
                assert(scan_bus_spec(l2, i + 4, (data_at(l2, i + 3) >> 8u32) as u8, 0, ((depth as nat) - 1) as nat)
                    == Some((lm.len() as int, scanned_all(new_devices(d0, dm)))));
            } else {
                assert(new_devices(d0, dm) =~= Seq::<PciDevice>::empty());
                assert(scanned_all(new_devices(d0, dm)) =~= Seq::<ScannedFunction>::empty());
            }
        }
    }
}

} // verus!
