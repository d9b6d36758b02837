//! USB descriptors (USB 2.0 §9.5, §9.6) decoded from the bytes a device sends.
use vstd::prelude::*;
use usb_host::DescriptorType;

verus! {

/// The descriptor types of USB 2.0 table 9-5.
#[derive(Clone, Copy, Debug, PartialEq, Eq, Structural)]
pub enum DescriptorKind {
    Device,
    Configuration,
    String,
    Interface,
    Endpoint,
    DeviceQualifier,
    OtherSpeed,
    InterfacePower,
}

/// The descriptor type that the type byte `b` names.
pub open spec fn descriptor_kind_spec(b: u8) -> Option<DescriptorKind> {
    if b == 1 {
        Some(DescriptorKind::Device)
    } else if b == 2 {
        Some(DescriptorKind::Configuration)
    } else if b == 3 {
        Some(DescriptorKind::String)
    } else if b == 4 {
        Some(DescriptorKind::Interface)
    } else if b == 5 {
        Some(DescriptorKind::Endpoint)
    } else if b == 6 {
        Some(DescriptorKind::DeviceQualifier)
    } else if b == 7 {
        Some(DescriptorKind::OtherSpeed)
    } else if b == 8 {
        Some(DescriptorKind::InterfacePower)
    } else {
        None
    }
}

/// `DescriptorType::try_from` of `usb_host`: it maps the bytes 1 to 8 to the
/// eight descriptor types in the order of table 9-5 and refuses every other
/// byte.
#[verifier::external_body]
fn descriptor_kind_of(b: u8) -> (r: Option<DescriptorKind>)
    ensures
        r == descriptor_kind_spec(b),
{
    match DescriptorType::try_from(b) {
        Ok(DescriptorType::Device) => Some(DescriptorKind::Device),
        Ok(DescriptorType::Configuration) => Some(DescriptorKind::Configuration),
        Ok(DescriptorType::String) => Some(DescriptorKind::String),
        Ok(DescriptorType::Interface) => Some(DescriptorKind::Interface),
        Ok(DescriptorType::Endpoint) => Some(DescriptorKind::Endpoint),
        Ok(DescriptorType::DeviceQualifier) => Some(DescriptorKind::DeviceQualifier),
        Ok(DescriptorType::OtherSpeed) => Some(DescriptorKind::OtherSpeed),
        Ok(DescriptorType::InterfacePower) => Some(DescriptorKind::InterfacePower),
        Err(_) => None,
    }
}

/// A little-endian 16-bit field.
pub open spec fn le16(lo: u8, hi: u8) -> u16 {
    (lo as int + 256 * hi as int) as u16
}

fn read_le16(lo: u8, hi: u8) -> (r: u16)
    ensures
        r == le16(lo, hi),
{
    (lo as u16) + (hi as u16) * 256
}

/// The device descriptor (18 bytes).
#[derive(Clone, Copy, Debug, PartialEq, Eq, Structural)]
pub struct DeviceDescriptor {
    pub b_length: u8,
    pub bcd_usb: u16,
    pub b_device_class: u8,
    pub b_device_sub_class: u8,
    pub b_device_protocol: u8,
    pub b_max_packet_size: u8,
    pub id_vendor: u16,
    pub id_product: u16,
    pub bcd_device: u16,
    pub i_manufacturer: u8,
    pub i_product: u8,
    pub i_serial_number: u8,
    pub b_num_configurations: u8,
}

/// The configuration descriptor (9 bytes).
#[derive(Clone, Copy, Debug, PartialEq, Eq, Structural)]
pub struct ConfigurationDescriptor {
    pub b_length: u8,
    pub w_total_length: u16,
    pub b_num_interfaces: u8,
    pub b_configuration_value: u8,
    pub i_configuration: u8,
    pub bm_attributes: u8,
    pub b_max_power: u8,
}

/// The interface descriptor (9 bytes).
#[derive(Clone, Copy, Debug, PartialEq, Eq, Structural)]
pub struct InterfaceDescriptor {
    pub b_length: u8,
    pub b_interface_number: u8,
    pub b_alternate_setting: u8,
    pub b_num_endpoints: u8,
    pub b_interface_class: u8,
    pub b_interface_sub_class: u8,
    pub b_interface_protocol: u8,
    pub i_interface: u8,
}

/// The endpoint descriptor (7 bytes).
#[derive(Clone, Copy, Debug, PartialEq, Eq, Structural)]
pub struct EndpointDescriptor {
    pub b_length: u8,
    pub b_endpoint_address: u8,
    pub bm_attributes: u8,
    pub w_max_packet_size: u16,
    pub b_interval: u8,
}

/// One descriptor of a configuration; the types the drivers do not read are
/// `Unknown`.
#[derive(Clone, Copy, Debug, PartialEq, Eq, Structural)]
pub enum Descriptor {
    Configuration(ConfigurationDescriptor),
    Interface(InterfaceDescriptor),
    Endpoint(EndpointDescriptor),
    Unknown,
}

pub open spec fn device_descriptor_spec(d: Seq<u8>) -> DeviceDescriptor {
    DeviceDescriptor {
        b_length: d[0],
        bcd_usb: le16(d[2], d[3]),
        b_device_class: d[4],
        b_device_sub_class: d[5],
        b_device_protocol: d[6],
        b_max_packet_size: d[7],
        id_vendor: le16(d[8], d[9]),
        id_product: le16(d[10], d[11]),
        bcd_device: le16(d[12], d[13]),
        i_manufacturer: d[14],
        i_product: d[15],
        i_serial_number: d[16],
        b_num_configurations: d[17],
    }
}

pub open spec fn configuration_spec(d: Seq<u8>) -> ConfigurationDescriptor {
    ConfigurationDescriptor {
        b_length: d[0],
        w_total_length: le16(d[2], d[3]),
        b_num_interfaces: d[4],
        b_configuration_value: d[5],
        i_configuration: d[6],
        bm_attributes: d[7],
        b_max_power: d[8],
    }
}

pub open spec fn interface_spec(d: Seq<u8>) -> InterfaceDescriptor {
    InterfaceDescriptor {
        b_length: d[0],
        b_interface_number: d[2],
        b_alternate_setting: d[3],
        b_num_endpoints: d[4],
        b_interface_class: d[5],
        b_interface_sub_class: d[6],
        b_interface_protocol: d[7],
        i_interface: d[8],
    }
}

pub open spec fn endpoint_spec(d: Seq<u8>) -> EndpointDescriptor {
    EndpointDescriptor {
        b_length: d[0],
        b_endpoint_address: d[2],
        bm_attributes: d[3],
        w_max_packet_size: le16(d[4], d[5]),
        b_interval: d[6],
    }
}

/// The bytes `d` hold a whole descriptor of the type their second byte
/// names: at least the type byte, and the full structure for the three types
/// that are decoded.
pub open spec fn descriptor_fits(d: Seq<u8>) -> bool {
    &&& d.len() >= 2
    &&& descriptor_kind_spec(d[1]) == Some(DescriptorKind::Configuration) ==> d.len() >= 9
    &&& descriptor_kind_spec(d[1]) == Some(DescriptorKind::Interface) ==> d.len() >= 9
    &&& descriptor_kind_spec(d[1]) == Some(DescriptorKind::Endpoint) ==> d.len() >= 7
}

/// The descriptor that the bytes `d` hold.
pub open spec fn descriptor_spec(d: Seq<u8>) -> Descriptor {
    match descriptor_kind_spec(d[1]) {
        Some(DescriptorKind::Configuration) => Descriptor::Configuration(configuration_spec(d)),
        Some(DescriptorKind::Interface) => Descriptor::Interface(interface_spec(d)),
        Some(DescriptorKind::Endpoint) => Descriptor::Endpoint(endpoint_spec(d)),
        _ => Descriptor::Unknown,
    }
}

impl DeviceDescriptor {
    /// Decodes the 18 bytes of a device descriptor.
    pub fn from_bytes(data: &[u8]) -> (r: Self)
        requires
            data@.len() >= 18,
        ensures
            r == device_descriptor_spec(data@),
    {
        DeviceDescriptor {
            b_length: data[0],
            bcd_usb: read_le16(data[2], data[3]),
            b_device_class: data[4],
            b_device_sub_class: data[5],
            b_device_protocol: data[6],
            b_max_packet_size: data[7],
            id_vendor: read_le16(data[8], data[9]),
            id_product: read_le16(data[10], data[11]),
            bcd_device: read_le16(data[12], data[13]),
            i_manufacturer: data[14],
            i_product: data[15],
            i_serial_number: data[16],
            b_num_configurations: data[17],
        }
    }
}

impl ConfigurationDescriptor {
    /// Decodes the 9 bytes of a configuration descriptor.
    pub fn from_bytes(data: &[u8]) -> (r: Self)
        requires
            data@.len() >= 9,
        ensures
            r == configuration_spec(data@),
    {
        ConfigurationDescriptor {
            b_length: data[0],
            w_total_length: read_le16(data[2], data[3]),
            b_num_interfaces: data[4],
            b_configuration_value: data[5],
            i_configuration: data[6],
            bm_attributes: data[7],
            b_max_power: data[8],
        }
    }
}

impl Descriptor {
    /// Decodes one descriptor; `data` is exactly its bytes.
    pub fn new(data: &[u8]) -> (r: Self)
        requires
            descriptor_fits(data@),
        ensures
            r == descriptor_spec(data@),
    {
        match descriptor_kind_of(data[1]) {
            Some(DescriptorKind::Configuration) => Descriptor::Configuration(
                ConfigurationDescriptor::from_bytes(data),
            ),
            Some(DescriptorKind::Interface) => Descriptor::Interface(
                InterfaceDescriptor {
                    b_length: data[0],
                    b_interface_number: data[2],
                    b_alternate_setting: data[3],
                    b_num_endpoints: data[4],
                    b_interface_class: data[5],
                    b_interface_sub_class: data[6],
                    b_interface_protocol: data[7],
                    i_interface: data[8],
                },
            ),
            Some(DescriptorKind::Endpoint) => Descriptor::Endpoint(
                EndpointDescriptor {
                    b_length: data[0],
                    b_endpoint_address: data[2],
                    bm_attributes: data[3],
                    w_max_packet_size: read_le16(data[4], data[5]),
                    b_interval: data[6],
                },
            ),
            _ => Descriptor::Unknown,
        }
    }
}

/// From offset `pos` on, `data` is a chain of whole descriptors, each
/// starting with its length byte (at least 2) and ending inside `data`.
pub open spec fn chain_ok(data: Seq<u8>, pos: nat) -> bool
    decreases data.len() - pos,
{
    if pos >= data.len() {
        true
    } else {
        let len = data[pos as int] as nat;
        if len < 2 || pos + len > data.len() {
            false
        } else {
            descriptor_fits(data.subrange(pos as int, (pos + len) as int)) && chain_ok(
                data,
                pos + len,
            )
        }
    }
}

/// The descriptors of the chain that starts at offset `pos`.
pub open spec fn chain_from(data: Seq<u8>, pos: nat) -> Seq<Descriptor>
    decreases data.len() - pos,
{
    if pos >= data.len() {
        seq![]
    } else {
        let len = data[pos as int] as nat;
        if len < 2 || pos + len > data.len() {
            seq![]
        } else {
            seq![descriptor_spec(data.subrange(pos as int, (pos + len) as int))] + chain_from(
                data,
                pos + len,
            )
        }
    }
}

/// Walks the descriptors of a configuration transfer one by one.
pub struct DescriptorIter<'a> {
    pub data: &'a [u8],
    read_bytes: usize,
}

impl<'a> DescriptorIter<'a> {
    /// The bytes walked.
    pub closed spec fn bytes(&self) -> Seq<u8> {
        self.data@
    }

    /// The descriptors not handed out yet.
    pub closed spec fn remaining(&self) -> Seq<Descriptor> {
        chain_from(self.data@, self.read_bytes as nat)
    }

    /// What is left is a chain of whole descriptors.
    pub closed spec fn well_formed(&self) -> bool {
        chain_ok(self.data@, self.read_bytes as nat)
    }

    pub fn new(data: &'a [u8]) -> (r: Self)
        ensures
            r.bytes() == data@,
            r.remaining() == chain_from(data@, 0),
            r.well_formed() == chain_ok(data@, 0),
    {
        DescriptorIter { data, read_bytes: 0 }
    }

    /// The next descriptor, `None` once the data is used up.
    pub fn next(&mut self) -> (r: Option<Descriptor>)
        requires
            old(self).well_formed(),
        ensures
            final(self).well_formed(),
            final(self).bytes() == old(self).bytes(),
            match r {
                None => old(self).remaining() == Seq::<Descriptor>::empty()
                    && final(self).remaining() == Seq::<Descriptor>::empty(),
                Some(d) => old(self).remaining() == seq![d] + final(self).remaining(),
            },
    {
        if self.read_bytes >= self.data.len() {
            return None;
        }
        let start = self.read_bytes;
        let len = self.data[start] as usize;
        let d = Descriptor::new(&self.data[start..start + len]);
        self.read_bytes = start + len;
        Some(d)
    }
}

/// Whether `data` is a chain of whole descriptors.
pub fn is_descriptor_chain(data: &[u8]) -> (r: bool)
    ensures
        r == chain_ok(data@, 0),
{
    let mut pos: usize = 0;
    while pos < data.len()
        invariant
            pos <= data@.len(),
            chain_ok(data@, 0) == chain_ok(data@, pos as nat),
        decreases data@.len() - pos,
    {
        let len = data[pos] as usize;
        if len < 2 || len > data.len() - pos {
            return false;
        }
        if !descriptor_fits_exec(&data[pos..pos + len]) {
            return false;
        }
        pos = pos + len;
    }
    true
}

fn descriptor_fits_exec(d: &[u8]) -> (r: bool)
    ensures
        r == descriptor_fits(d@),
{
    if d.len() < 2 {
        return false;
    }
    match descriptor_kind_of(d[1]) {
        Some(DescriptorKind::Configuration) => d.len() >= 9,
        Some(DescriptorKind::Interface) => d.len() >= 9,
        Some(DescriptorKind::Endpoint) => d.len() >= 7,
        _ => true,
    }
}

/// All descriptors of a configuration transfer, in order.
pub fn collect_descriptors(data: &[u8]) -> (r: Vec<Descriptor>)
    requires
        chain_ok(data@, 0),
    ensures
        r@ == chain_from(data@, 0),
{
    let mut it = DescriptorIter::new(data);
    let mut out: Vec<Descriptor> = Vec::new();
    loop
        invariant
            it.well_formed(),
            out@ + it.remaining() == chain_from(data@, 0),
        decreases it.remaining().len(),
    {
        let ghost before = it.remaining();
        match it.next() {
            None => {
                assert(out@ + it.remaining() == out@);
                return out;
            },
            Some(d) => {
                out.push(d);
                assert(out@ + it.remaining() == (out@.drop_last() + seq![d]) + it.remaining());
                assert(before == seq![d] + it.remaining());
            },
        }
    }
}

/// The hub descriptor of USB 2.0 §11.23.2.1, without its variable-length
/// port bitmaps.
#[derive(Clone, Copy, Debug, PartialEq, Eq, Structural)]
pub struct HubDescriptor {
    /// Number of bytes in this descriptor, including this byte.
    pub b_desc_length: u8,
    /// Descriptor type: 29H for a hub descriptor.
    pub b_descriptor_type: u8,
    /// Number of downstream facing ports that this hub supports.
    pub b_nbr_ports: u8,
    /// Power switching, compound device, over-current protection, TT think
    /// time and port indicator bits.
    pub w_hub_characteristics: u16,
    /// Time, in 2 ms intervals, from the start of the power-on sequence on a
    /// port until power is good on it.
    pub b_pwr_on_2_pwr_good: u8,
    /// Maximum current requirement of the hub controller, in mA.
    pub b_hub_contr_current: u8,
}

pub open spec fn hub_descriptor_spec(d: Seq<u8>) -> HubDescriptor {
    HubDescriptor {
        b_desc_length: d[0],
        b_descriptor_type: d[1],
        b_nbr_ports: d[2],
        w_hub_characteristics: le16(d[3], d[4]),
        b_pwr_on_2_pwr_good: d[5],
        b_hub_contr_current: d[6],
    }
}

/// The number of bytes a request for the hub descriptor asks for.
pub const HUB_DESCRIPTOR_REQUEST_LEN: u16 = 8;

impl HubDescriptor {
    /// The all-zero hub descriptor.
    pub fn default() -> (r: Self)
        ensures
            r == (HubDescriptor {
                b_desc_length: 0,
                b_descriptor_type: 0,
                b_nbr_ports: 0,
                w_hub_characteristics: 0,
                b_pwr_on_2_pwr_good: 0,
                b_hub_contr_current: 0,
            }),
    {
        HubDescriptor {
            b_desc_length: 0,
            b_descriptor_type: 0,
            b_nbr_ports: 0,
            w_hub_characteristics: 0,
            b_pwr_on_2_pwr_good: 0,
            b_hub_contr_current: 0,
        }
    }

    /// Decodes the fixed part (7 bytes) of a hub descriptor.
    pub fn from_bytes(data: &[u8]) -> (r: Self)
        requires
            data@.len() >= 7,
        ensures
            r == hub_descriptor_spec(data@),
    {
        HubDescriptor {
            b_desc_length: data[0],
            b_descriptor_type: data[1],
            b_nbr_ports: data[2],
            w_hub_characteristics: read_le16(data[3], data[4]),
            b_pwr_on_2_pwr_good: data[5],
            b_hub_contr_current: data[6],
        }
    }
}

} // verus!
