//! Setup packets of control transfers (USB 2.0 §9.3).
use vstd::prelude::*;
use crate::usb::descriptor::DescriptorKind;

verus! {

/// Bit 7 of `bmRequestType`.
#[derive(Clone, Copy, Debug, PartialEq, Eq, Structural)]
pub enum RequestDirection {
    HostToDevice,
    DeviceToHost,
}

/// Bits 5 and 6 of `bmRequestType`.
#[derive(Clone, Copy, Debug, PartialEq, Eq, Structural)]
pub enum RequestKind {
    Standard,
    Class,
    Vendor,
}

/// Bits 0 to 4 of `bmRequestType`.
#[derive(Clone, Copy, Debug, PartialEq, Eq, Structural)]
pub enum RequestRecipient {
    Device,
    Interface,
    Endpoint,
    Other,
}

/// The standard requests of USB 2.0 table 9-4.
#[derive(Clone, Copy, Debug, PartialEq, Eq, Structural)]
pub enum RequestCode {
    GetStatus,
    ClearFeature,
    SetFeature,
    SetAddress,
    GetDescriptor,
    SetDescriptor,
    GetConfiguration,
    SetConfiguration,
    GetInterface,
    SetInterface,
    SynchFrame,
}

pub open spec fn direction_bits(d: RequestDirection) -> u8 {
    match d {
        RequestDirection::HostToDevice => 0x00,
        RequestDirection::DeviceToHost => 0x80,
    }
}

pub open spec fn kind_bits(k: RequestKind) -> u8 {
    match k {
        RequestKind::Standard => 0x00,
        RequestKind::Class => 0x20,
        RequestKind::Vendor => 0x40,
    }
}

pub open spec fn recipient_bits(r: RequestRecipient) -> u8 {
    match r {
        RequestRecipient::Device => 0x00,
        RequestRecipient::Interface => 0x01,
        RequestRecipient::Endpoint => 0x02,
        RequestRecipient::Other => 0x03,
    }
}

/// The `bmRequestType` byte: the three fields occupy disjoint bits, so the
/// byte is their sum.
pub open spec fn request_type_spec(d: RequestDirection, k: RequestKind, r: RequestRecipient) -> u8 {
    (direction_bits(d) + kind_bits(k) + recipient_bits(r)) as u8
}

pub open spec fn request_code_spec(c: RequestCode) -> u8 {
    match c {
        RequestCode::GetStatus => 0,
        RequestCode::ClearFeature => 1,
        RequestCode::SetFeature => 3,
        RequestCode::SetAddress => 5,
        RequestCode::GetDescriptor => 6,
        RequestCode::SetDescriptor => 7,
        RequestCode::GetConfiguration => 8,
        RequestCode::SetConfiguration => 9,
        RequestCode::GetInterface => 10,
        RequestCode::SetInterface => 11,
        RequestCode::SynchFrame => 12,
    }
}

pub open spec fn descriptor_type_byte_spec(k: DescriptorKind) -> u8 {
    match k {
        DescriptorKind::Device => 1,
        DescriptorKind::Configuration => 2,
        DescriptorKind::String => 3,
        DescriptorKind::Interface => 4,
        DescriptorKind::Endpoint => 5,
        DescriptorKind::DeviceQualifier => 6,
        DescriptorKind::OtherSpeed => 7,
        DescriptorKind::InterfacePower => 8,
    }
}

/// `wValue` from its low and high byte.
pub open spec fn w_value_spec(lo: u8, hi: u8) -> u16 {
    (lo as int + 256 * hi as int) as u16
}

/// The `bmRequestType` byte for a direction, a kind and a recipient.
pub fn request_type(d: RequestDirection, k: RequestKind, r: RequestRecipient) -> (b: u8)
    ensures
        b == request_type_spec(d, k, r),
        b & 0x80 == direction_bits(d),
{
    let db: u8 = match d {
        RequestDirection::HostToDevice => 0x00,
        RequestDirection::DeviceToHost => 0x80,
    };
    let kb: u8 = match k {
        RequestKind::Standard => 0x00,
        RequestKind::Class => 0x20,
        RequestKind::Vendor => 0x40,
    };
    let rb: u8 = match r {
        RequestRecipient::Device => 0x00,
        RequestRecipient::Interface => 0x01,
        RequestRecipient::Endpoint => 0x02,
        RequestRecipient::Other => 0x03,
    };
    let b = db + kb + rb;
    assert((db == 0 || db == 0x80) && (kb == 0 || kb == 0x20 || kb == 0x40) && rb <= 3 ==> (
    db + kb + rb) as u8 & 0x80 == db) by (bit_vector);
    b
}

/// The `bRequest` byte of a standard request.
pub fn request_code(c: RequestCode) -> (b: u8)
    ensures
        b == request_code_spec(c),
{
    match c {
        RequestCode::GetStatus => 0,
        RequestCode::ClearFeature => 1,
        RequestCode::SetFeature => 3,
        RequestCode::SetAddress => 5,
        RequestCode::GetDescriptor => 6,
        RequestCode::SetDescriptor => 7,
        RequestCode::GetConfiguration => 8,
        RequestCode::SetConfiguration => 9,
        RequestCode::GetInterface => 10,
        RequestCode::SetInterface => 11,
        RequestCode::SynchFrame => 12,
    }
}

/// The type byte of a descriptor type.
pub fn descriptor_type_byte(k: DescriptorKind) -> (b: u8)
    ensures
        b == descriptor_type_byte_spec(k),
{
    match k {
        DescriptorKind::Device => 1,
        DescriptorKind::Configuration => 2,
        DescriptorKind::String => 3,
        DescriptorKind::Interface => 4,
        DescriptorKind::Endpoint => 5,
        DescriptorKind::DeviceQualifier => 6,
        DescriptorKind::OtherSpeed => 7,
        DescriptorKind::InterfacePower => 8,
    }
}

/// `wValue` from its low and high byte.
pub fn w_value(lo: u8, hi: u8) -> (v: u16)
    ensures
        v == w_value_spec(lo, hi),
{
    (lo as u16) + (hi as u16) * 256
}

/// The eight bytes of a setup packet, field by field.
#[derive(Clone, Copy, Debug, PartialEq, Eq, Structural)]
pub struct SetupPacketRaw {
    pub bm_request_type: u8,
    pub b_request: u8,
    pub w_value: u16,
    pub w_index: u16,
    pub w_length: u16,
}

impl SetupPacketRaw {
    /// A request of the given type.
    pub fn new(
        d: RequestDirection,
        k: RequestKind,
        r: RequestRecipient,
        code: RequestCode,
        w_value: u16,
        w_index: u16,
        w_length: u16,
    ) -> (p: Self)
        ensures
            p == (SetupPacketRaw {
                bm_request_type: request_type_spec(d, k, r),
                b_request: request_code_spec(code),
                w_value,
                w_index,
                w_length,
            }),
    {
        SetupPacketRaw {
            bm_request_type: request_type(d, k, r),
            b_request: request_code(code),
            w_value,
            w_index,
            w_length,
        }
    }

    /// GET_DESCRIPTOR for the descriptor of type `descriptor_type` and index
    /// `descriptor_index`, reading `len` bytes.
    pub fn descriptor(descriptor_type: DescriptorKind, descriptor_index: u8, len: u16) -> (p: Self)
        ensures
            p == (SetupPacketRaw {
                bm_request_type: 0x80,
                b_request: 6,
                w_value: w_value_spec(descriptor_index, descriptor_type_byte_spec(descriptor_type)),
                w_index: 0,
                w_length: len,
            }),
    {
        let v = w_value(descriptor_index, descriptor_type_byte(descriptor_type));
        SetupPacketRaw::new(
            RequestDirection::DeviceToHost,
            RequestKind::Standard,
            RequestRecipient::Device,
            RequestCode::GetDescriptor,
            v,
            0,
            len,
        )
    }

    /// Whether the data stage, if any, goes from the device to the host.
    pub fn is_device_to_host(&self) -> (b: bool)
        ensures
            b == (self.bm_request_type & 0x80 != 0),
    {
        self.bm_request_type & 0x80 != 0
    }
}

} // verus!
