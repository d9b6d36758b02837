//! Per-device decisions of the xHCI USB host: endpoint indices, which class
//! driver a configuration asks for, and how transfer results are read.
use vstd::prelude::*;
use crate::bits::u8_get_bit;
use crate::usb::descriptor::{Descriptor, EndpointDescriptor, InterfaceDescriptor};
use crate::xhci::{next_route, next_route_spec};
use crate::xhci::user_event_ring::InitPortDevice;

verus! {

/// The direction of an endpoint.
#[derive(Clone, Copy, Debug, PartialEq, Eq, Structural)]
pub enum Direction {
    Out,
    In,
}

/// An error of a USB transfer: `Retry` may succeed when repeated,
/// `Permanent` will not.
#[derive(Clone, Copy, Debug, PartialEq, Eq)]
pub enum TransferError {
    Retry(&'static str),
    Permanent(&'static str),
}

/// The Device Context Index of an endpoint: `2 * number + 1` for IN
/// endpoints and for the default control endpoint, `2 * number` for OUT
/// endpoints.
pub open spec fn dci_spec(endpoint_number: u8, direction: Direction) -> int {
    2 * endpoint_number + if endpoint_number == 0 || direction == Direction::In {
        1int
    } else {
        0int
    }
}

/// Distinct endpoints have distinct Device Context Indexes, so that each
/// has a context of its own; the default control endpoint (number 0) has
/// index 1 in both directions, and the index gives back the number.
pub proof fn lemma_dci_distinct(n1: u8, d1: Direction, n2: u8, d2: Direction)
    ensures
        dci_spec(n1, d1) == dci_spec(n2, d2) ==> n1 == n2 && (n1 == 0 || d1 == d2),
        dci_spec(n1, d1) / 2 == n1,
        n1 == 0 ==> dci_spec(n1, d1) == 1,
{
}

/// The Device Context Index of an endpoint number and direction.
pub fn calc_dci(endpoint_number: u8, direction: Direction) -> (dci: u8)
    requires
        endpoint_number < 128,
    ensures
        dci == dci_spec(endpoint_number, direction),
{
    endpoint_number * 2 + if endpoint_number == 0 {
        1
    } else if let Direction::In = direction {
        1
    } else {
        0
    }
}

/// A Device Context Index, below 32.
#[derive(Clone, Copy, Debug, PartialEq, Eq, Structural)]
pub struct DeviceContextIndex(u8);

impl View for DeviceContextIndex {
    type V = u8;

    closed spec fn view(&self) -> u8 {
        self.0
    }
}

impl DeviceContextIndex {
    #[verifier::type_invariant]
    closed spec fn below_32(&self) -> bool {
        self.0 < 32
    }

    pub fn checked_new(dci: u8) -> (r: Self)
        requires
            dci < 32,
        ensures
            r@ == dci,
    {
        DeviceContextIndex(dci)
    }

    /// The index of an endpoint number (below 16) and direction.
    pub fn new(endpoint_number: u8, direction: Direction) -> (r: Self)
        requires
            endpoint_number < 16,
        ensures
            r@ == dci_spec(endpoint_number, direction),
    {
        DeviceContextIndex(calc_dci(endpoint_number, direction))
    }

    /// The index of the endpoint with address `endpoint_address`: its number
    /// is in bits 0 to 3, its direction in bit 7.
    pub fn from_endpoint_address(endpoint_address: u8) -> (r: Self)
        ensures
            r@ == (endpoint_address & 0xf) * 2 + (endpoint_address >> 7),
    {
        let n = endpoint_address & 0xf;
        let d = endpoint_address >> 7;
        assert(n <= 15 && d <= 1) by (bit_vector)
            requires
                n == endpoint_address & 0xf,
                d == endpoint_address >> 7,
        ;
        DeviceContextIndex(n * 2 + d)
    }

    /// The index of the endpoint that `descriptor` describes.
    pub fn from_descriptor(descriptor: &EndpointDescriptor) -> (r: Self)
        ensures
            r@ == (descriptor.b_endpoint_address & 0xf) * 2 + (descriptor.b_endpoint_address
                >> 7),
    {
        Self::from_endpoint_address(descriptor.b_endpoint_address)
    }

    pub fn address(&self) -> (r: u8)
        ensures
            r == self@,
            r < 32,
    {
        proof {
            use_type_invariant(self);
        }
        self.0
    }

    /// The default control endpoint.
    pub fn ep0() -> (r: Self)
        ensures
            r@ == 1,
    {
        DeviceContextIndex(1)
    }
}

/// An endpoint number (below 16) with a direction.
#[derive(Clone, Copy, Debug, PartialEq, Eq, Structural)]
pub struct EndpointId {
    endpoint_number: u8,
    direct: Direction,
}

impl EndpointId {
    #[verifier::type_invariant]
    closed spec fn below_16(&self) -> bool {
        self.endpoint_number < 16
    }

    pub closed spec fn number(&self) -> u8 {
        self.endpoint_number
    }

    pub closed spec fn direction(&self) -> Direction {
        self.direct
    }

    pub fn new(endpoint_number: u8, direct: Direction) -> (r: Self)
        requires
            endpoint_number < 16,
        ensures
            r.number() == endpoint_number,
            r.direction() == direct,
    {
        EndpointId { endpoint_number, direct }
    }

    /// The Device Context Index of the endpoint.
    pub fn address(&self) -> (r: DeviceContextIndex)
        ensures
            r@ == dci_spec(self.number(), self.direction()),
    {
        proof {
            use_type_invariant(self);
        }
        DeviceContextIndex::new(self.endpoint_number, self.direct)
    }

    /// The default control pipe, endpoint 0.
    pub fn default_control_pipe() -> (r: Self)
        ensures
            r.number() == 0,
            r.direction() == Direction::Out,
    {
        EndpointId { endpoint_number: 0, direct: Direction::Out }
    }
}

/// The interfaces of a configuration that a class driver takes, and the
/// endpoint that the keyboard or mouse driver reads.
#[derive(Clone, Copy, Debug, PartialEq, Eq, Structural)]
pub struct InterfaceSelection {
    pub boot_keyboard: Option<InterfaceDescriptor>,
    pub mouse: Option<InterfaceDescriptor>,
    pub hub: Option<InterfaceDescriptor>,
    pub endpoint: Option<EndpointDescriptor>,
}

/// A HID boot-protocol keyboard interface: class 3, subclass 1, protocol 1.
pub open spec fn is_boot_keyboard_interface(i: InterfaceDescriptor) -> bool {
    i.b_interface_class == 3 && i.b_interface_sub_class == 1 && i.b_interface_protocol == 1
}

/// A HID boot-protocol mouse interface: class 3, subclass 1, protocol 2.
pub open spec fn is_mouse_interface(i: InterfaceDescriptor) -> bool {
    i.b_interface_class == 3 && i.b_interface_sub_class == 1 && i.b_interface_protocol == 2
}

/// A hub interface: class 9, subclass 0, any protocol.
pub open spec fn is_hub_interface(i: InterfaceDescriptor) -> bool {
    i.b_interface_class == 9 && i.b_interface_sub_class == 0
}

/// How one more descriptor changes the selection: a later interface of a
/// kind replaces an earlier one; the endpoint is the first endpoint
/// descriptor seen once a keyboard or mouse interface has been seen.
pub open spec fn select_step(s: InterfaceSelection, d: Descriptor) -> InterfaceSelection {
    match d {
        Descriptor::Interface(i) => {
            if is_boot_keyboard_interface(i) {
                InterfaceSelection { boot_keyboard: Some(i), ..s }
            } else if is_mouse_interface(i) {
                InterfaceSelection { mouse: Some(i), ..s }
            } else if is_hub_interface(i) {
                InterfaceSelection { hub: Some(i), ..s }
            } else {
                s
            }
        },
        Descriptor::Endpoint(e) => {
            if (s.boot_keyboard is Some || s.mouse is Some) && s.endpoint is None {
                InterfaceSelection { endpoint: Some(e), ..s }
            } else {
                s
            }
        },
        _ => s,
    }
}

pub open spec fn empty_selection() -> InterfaceSelection {
    InterfaceSelection { boot_keyboard: None, mouse: None, hub: None, endpoint: None }
}

/// The selection after reading the descriptors `ds` in order.
pub open spec fn select_spec(ds: Seq<Descriptor>) -> InterfaceSelection
    decreases ds.len(),
{
    if ds.len() == 0 {
        empty_selection()
    } else {
        select_step(select_spec(ds.drop_last()), ds.last())
    }
}

/// Reads the descriptors of a configuration and picks the interfaces that
/// the keyboard, mouse and hub drivers take.
pub fn select_interfaces(descriptors: &Vec<Descriptor>) -> (s: InterfaceSelection)
    ensures
        s == select_spec(descriptors@),
{
    let mut s = InterfaceSelection { boot_keyboard: None, mouse: None, hub: None, endpoint: None };
    let mut i: usize = 0;
    while i < descriptors.len()
        invariant
            i <= descriptors@.len(),
            s == select_spec(descriptors@.take(i as int)),
        decreases descriptors@.len() - i,
    {
        let d = descriptors[i];
        match d {
            Descriptor::Interface(iface) => {
                if iface.b_interface_class == 3 && iface.b_interface_sub_class == 1
                    && iface.b_interface_protocol == 1 {
                    s.boot_keyboard = Some(iface);
                } else if iface.b_interface_class == 3 && iface.b_interface_sub_class == 1
                    && iface.b_interface_protocol == 2 {
                    s.mouse = Some(iface);
                } else if iface.b_interface_class == 9 && iface.b_interface_sub_class == 0 {
                    s.hub = Some(iface);
                }
            },
            Descriptor::Endpoint(e) => {
                if (s.boot_keyboard.is_some() || s.mouse.is_some()) && s.endpoint.is_none() {
                    s.endpoint = Some(e);
                }
            },
            _ => {},
        }
        assert(descriptors@.take(i + 1).drop_last() =~= descriptors@.take(i as int));
        i = i + 1;
    }
    assert(descriptors@.take(i as int) =~= descriptors@);
    s
}

/// The first endpoint descriptor of `ds` whose endpoint number (bits 0 to 6
/// of its address) is `n`.
pub open spec fn endpoint_numbered(ds: Seq<Descriptor>, n: u8) -> Option<EndpointDescriptor>
    decreases ds.len(),
{
    if ds.len() == 0 {
        None
    } else {
        match ds[0] {
            Descriptor::Endpoint(e) => {
                if e.b_endpoint_address & 0x7f == n {
                    Some(e)
                } else {
                    endpoint_numbered(ds.drop_first(), n)
                }
            },
            _ => endpoint_numbered(ds.drop_first(), n),
        }
    }
}

/// Looks up the descriptor of endpoint number `endpoint_num`.
pub fn find_endpoint(descriptors: &Vec<Descriptor>, endpoint_num: u8) -> (r: Result<
    EndpointDescriptor,
    TransferError,
>)
    ensures
        match endpoint_numbered(descriptors@, endpoint_num) {
            Some(e) => r == Ok::<EndpointDescriptor, TransferError>(e),
            None => r == Err::<EndpointDescriptor, TransferError>(
                TransferError::Permanent("Endpoint Descriptor Not Found"),
            ),
        },
{
    let mut i: usize = 0;
    assert(descriptors@.skip(0) =~= descriptors@);
    while i < descriptors.len()
        invariant
            i <= descriptors@.len(),
            endpoint_numbered(descriptors@, endpoint_num) == endpoint_numbered(
                descriptors@.skip(i as int),
                endpoint_num,
            ),
        decreases descriptors@.len() - i,
    {
        assert(descriptors@.skip(i as int).drop_first() =~= descriptors@.skip(i + 1));
        if let Descriptor::Endpoint(e) = descriptors[i] {
            if e.b_endpoint_address & 0x7f == endpoint_num {
                return Ok(e);
            }
        }
        i = i + 1;
    }
    Err(TransferError::Permanent("Endpoint Descriptor Not Found"))
}

/// The Interval field of an interrupt endpoint's context for a port speed
/// (1 full, 2 low, 3 high, 4 super speed) and the endpoint's `bInterval`:
/// the top bit of `bInterval` plus 3 at full and low speed, `bInterval - 1`
/// at high and super speed.
pub open spec fn interrupt_interval_spec(port_speed: u8, b_interval: u8) -> Result<
    u8,
    TransferError,
> {
    if port_speed == 1 || port_speed == 2 {
        Ok((b_interval / 128 + 3) as u8)
    } else if port_speed == 3 || port_speed == 4 {
        Ok((b_interval - 1) as u8)
    } else {
        Err(TransferError::Permanent("Unknown speed"))
    }
}

/// The Interval of an interrupt IN endpoint's context.
pub fn interrupt_interval(port_speed: u8, b_interval: u8) -> (r: Result<u8, TransferError>)
    requires
        (port_speed == 3 || port_speed == 4) ==> b_interval >= 1,
    ensures
        r == interrupt_interval_spec(port_speed, b_interval),
{
    if port_speed == 1 || port_speed == 2 {
        let top = u8_get_bit(b_interval, 7);
        assert((b_interval & (1u8 << 7u8) != 0) == (b_interval / 128 == 1)) by (bit_vector);
        Ok(if top {
            4
        } else {
            3
        })
    } else if port_speed == 3 || port_speed == 4 {
        Ok(b_interval - 1)
    } else {
        Err(TransferError::Permanent("Unknown speed"))
    }
}

/// The Max Packet Size of the default control endpoint for a slot speed.
pub fn max_packet_size_for_control_pipe(slot_speed: u8) -> (r: u16)
    ensures
        r == if slot_speed == 4 {
            512u16
        } else if slot_speed == 3 {
            64u16
        } else {
            8u16
        },
{
    if slot_speed == 4 {
        512
    } else if slot_speed == 3 {
        64
    } else {
        8
    }
}

/// How the completion code of an event reads.
#[derive(Clone, Copy, Debug, PartialEq, Eq, Structural)]
pub enum CompletionKind {
    Success,
    ShortPacket,
    /// Another code of xHCI table 6-90.
    OtherCode,
    /// A value that table 6-90 does not define.
    Undefined,
}

/// The completion codes of xHCI table 6-90 are 0 to 36 without 30; 1 is
/// Success and 13 Short Packet.
pub open spec fn completion_kind_spec(code: u8) -> CompletionKind {
    if code == 1 {
        CompletionKind::Success
    } else if code == 13 {
        CompletionKind::ShortPacket
    } else if code <= 36 && code != 30 {
        CompletionKind::OtherCode
    } else {
        CompletionKind::Undefined
    }
}

/// Classifies the Completion Code field of an event TRB.
pub fn completion_kind(code: u8) -> (r: CompletionKind)
    ensures
        r == completion_kind_spec(code),
{
    if code == 1 {
        CompletionKind::Success
    } else if code == 13 {
        CompletionKind::ShortPacket
    } else if code <= 36 && code != 30 {
        CompletionKind::OtherCode
    } else {
        CompletionKind::Undefined
    }
}

/// What a control transfer of `w_length` bytes returns once its Transfer
/// Event arrived: the whole length on success, the length less the residue
/// the event reports on a short packet, a retry on any other code and a
/// permanent error on an undefined one.
pub open spec fn control_transfer_result_spec(
    kind: CompletionKind,
    w_length: u16,
    residue: u32,
) -> Result<usize, TransferError> {
    match kind {
        CompletionKind::Success => Ok(w_length as usize),
        CompletionKind::ShortPacket => Ok((w_length - residue) as usize),
        CompletionKind::OtherCode => Err(TransferError::Retry("CompletionCode error")),
        CompletionKind::Undefined => Err(TransferError::Permanent("Unknown completion code")),
    }
}

/// The result of a control transfer from its Transfer Event.
pub fn control_transfer_result(kind: CompletionKind, w_length: u16, residue: u32) -> (r: Result<
    usize,
    TransferError,
>)
    requires
        kind == CompletionKind::ShortPacket ==> residue <= w_length,
    ensures
        r == control_transfer_result_spec(kind, w_length, residue),
{
    match kind {
        CompletionKind::Success => Ok(w_length as usize),
        CompletionKind::ShortPacket => Ok((w_length as u32 - residue) as usize),
        CompletionKind::OtherCode => Err(TransferError::Retry("CompletionCode error")),
        CompletionKind::Undefined => Err(TransferError::Permanent("Unknown completion code")),
    }
}

/// The request that a hub driver leaves for the controller when a device
/// appears behind port `port_index` of the hub at root port
/// `hub_port_index` with route string `hub_routing`.
pub fn assign_address_event(hub_port_index: usize, hub_routing: u32, port_index: u8, low_speed: bool)
    -> (r: InitPortDevice)
    requires
        port_index < 255,
    ensures
        r == (InitPortDevice {
            port_index: hub_port_index as u8,
            routing: next_route_spec(hub_routing, (port_index + 1) as u8),
            speed: if low_speed {
                1u8
            } else {
                0u8
            },
            parent_hub_slot_id: None,
            parent_port_index: None,
        }),
{
    InitPortDevice {
        port_index: hub_port_index as u8,
        routing: next_route(hub_routing, port_index + 1),
        speed: if low_speed {
            1
        } else {
            0
        },
        parent_hub_slot_id: None,
        parent_port_index: None,
    }
}


/// What bringing up a device whose configuration gave `s` does: the device
/// goes to the keyboard driver when it has a boot keyboard interface, to the
/// mouse driver when it has a boot mouse interface, and to the hub driver
/// when it has a hub interface; a keyboard or mouse gets its interrupt IN
/// endpoint (the first endpoint after its interface) set up, and the
/// doorbell of that endpoint rung.
#[derive(Clone, Copy, Debug, PartialEq, Eq, Structural)]
pub struct DevicePlan {
    pub keyboard: bool,
    pub mouse: bool,
    pub hub: bool,
    pub interrupt_in: Option<EndpointDescriptor>,
}

/// The plan for a device whose interfaces are `s` (see `DevicePlan`).
pub fn initialization_plan(s: &InterfaceSelection) -> (p: DevicePlan)
    ensures
        p.keyboard == s.boot_keyboard is Some,
        p.mouse == s.mouse is Some,
        p.hub == s.hub is Some,
        p.interrupt_in == if s.boot_keyboard is Some || s.mouse is Some {
            s.endpoint
        } else {
            None
        },
{
    let input = s.boot_keyboard.is_some() || s.mouse.is_some();
    DevicePlan {
        keyboard: s.boot_keyboard.is_some(),
        mouse: s.mouse.is_some(),
        hub: s.hub.is_some(),
        interrupt_in: if input { s.endpoint } else { None },
    }
}

/// A write to the doorbell register of slot `slot` (slot 0 is the host
/// controller's): the target in bits 0..8 and the stream id in bits 16..32.
#[derive(Clone, Copy, Debug, PartialEq, Eq, Structural)]
pub struct Doorbell {
    pub slot: u8,
    pub value: u32,
}

/// The doorbell that tells the controller about new TRBs on endpoint `dci`
/// of the device in `slot_id`, stream 0.
pub fn endpoint_doorbell(slot_id: u8, dci: u8) -> (d: Doorbell)
    ensures
        d.slot == slot_id,
        d.value == dci as u32,
        d.value & 0xff == dci,
        d.value >> 16u32 == 0,
{
    let value = dci as u32;
    assert(value & 0xff == dci && value >> 16u32 == 0) by (bit_vector)
        requires value == dci as u32;
    Doorbell { slot: slot_id, value }
}

/// The doorbell that tells the controller about a new command: slot 0,
/// target 0.
pub fn command_doorbell() -> (d: Doorbell)
    ensures
        d == (Doorbell { slot: 0, value: 0 }),
{
    Doorbell { slot: 0, value: 0 }
}

/// The doorbell of a control transfer on the default control endpoint of
/// the device in `slot_id`.
pub fn control_transfer_doorbell(slot_id: u8) -> (d: Doorbell)
    ensures
        d == (Doorbell { slot: slot_id, value: 1 }),
{
    endpoint_doorbell(slot_id, 1)
}

/// The slot and default control endpoint settings that addressing a device
/// writes to its Input Context.
#[derive(Clone, Copy, Debug, PartialEq, Eq, Structural)]
pub struct AddressDeviceInput {
    pub route_string: u32,
    pub root_hub_port_number: u8,
    pub parent_hub_slot_id: Option<u8>,
    pub parent_port_number: Option<u8>,
    pub context_entries: u8,
    pub speed: u8,
    pub ep0_max_packet_size: u16,
    pub ep0_dequeue_pointer: u64,
    pub ep0_error_count: u8,
    pub ep0_average_trb_length: u16,
}

/// What addressing the device on root port `port_index` writes to its Input
/// Context: the route string (its low 18 bits), the root hub port number
/// (one more than the index), the parent hub and port, one context entry,
/// the speed (the port's own speed when `speed` is 5), and a default
/// control endpoint whose ring starts at `ep0_ring`, with the packet size
/// of that speed, 3 errors allowed and average TRBs of 8 bytes.
pub fn address_device_input(
    port_index: usize,
    routing: u32,
    speed: u8,
    port_speed: u8,
    parent_hub_slot_id: Option<u8>,
    parent_port_number: Option<u8>,
    ep0_ring: u64,
) -> (r: AddressDeviceInput)
    requires
        port_index < 255,
    ensures
        r.route_string == routing & 0x3ffff,
        r.root_hub_port_number == port_index + 1,
        r.parent_hub_slot_id == parent_hub_slot_id,
        r.parent_port_number == parent_port_number,
        r.context_entries == 1,
        r.speed == if speed == 5 { port_speed } else { speed },
        r.ep0_max_packet_size == if r.speed == 4 {
            512u16
        } else if r.speed == 3 {
            64u16
        } else {
            8u16
        },
        r.ep0_dequeue_pointer == ep0_ring,
        r.ep0_error_count == 3,
        r.ep0_average_trb_length == 8,
{
    let speed = if speed == 5 { port_speed } else { speed };
    AddressDeviceInput {
        route_string: routing & 0x3ffff,
        root_hub_port_number: port_index as u8 + 1,
        parent_hub_slot_id,
        parent_port_number,
        context_entries: 1,
        speed,
        ep0_max_packet_size: max_packet_size_for_control_pipe(speed),
        ep0_dequeue_pointer: ep0_ring,
        ep0_error_count: 3,
        ep0_average_trb_length: 8,
    }
}

/// The endpoint settings that configuring an interrupt IN endpoint writes to
/// the Input Context.
#[derive(Clone, Copy, Debug, PartialEq, Eq, Structural)]
pub struct InterruptEndpointFields {
    pub dci: u8,
    pub interval: u8,
    pub max_packet_size: u16,
    pub dequeue_pointer: u64,
    pub error_count: u8,
    pub average_trb_length: u16,
}

/// How to set up the ring of the interrupt IN endpoint `ep` of a device on a
/// port of speed `port_speed`, with a new ring at `ring`: nothing to do
/// (`Ok(None)`, answered `Ok(false)`) when the endpoint has a ring already;
/// `Unknown speed` for a speed other than 1 to 4; else the endpoint's
/// settings, its interval as `interrupt_interval` gives it.
pub fn interrupt_ring_setup(
    ring_present: bool,
    ep: &EndpointDescriptor,
    port_speed: u8,
    ring: u64,
) -> (r: Result<Option<InterruptEndpointFields>, TransferError>)
    requires
        (port_speed == 3 || port_speed == 4) ==> ep.b_interval >= 1,
    ensures
        ring_present ==> r == Ok::<Option<InterruptEndpointFields>, TransferError>(None),
        !ring_present ==> r == match interrupt_interval_spec(port_speed, ep.b_interval) {
            Ok(interval) => Ok::<Option<InterruptEndpointFields>, TransferError>(
                Some(
                    InterruptEndpointFields {
                        dci: ((ep.b_endpoint_address & 0xf) * 2 + (ep.b_endpoint_address >> 7)) as u8,
                        interval,
                        max_packet_size: ep.w_max_packet_size,
                        dequeue_pointer: ring,
                        error_count: 3,
                        average_trb_length: 1,
                    },
                ),
            ),
            Err(e) => Err(e),
        },
{
    if ring_present {
        return Ok(None);
    }
    let interval = match interrupt_interval(port_speed, ep.b_interval) {
        Ok(i) => i,
        Err(e) => return Err(e),
    };
    let dci = DeviceContextIndex::from_descriptor(ep);
    Ok(Some(InterruptEndpointFields {
        dci: dci.address(),
        interval,
        max_packet_size: ep.w_max_packet_size,
        dequeue_pointer: ring,
        error_count: 3,
        average_trb_length: 1,
    }))
}

/// What setting up an interrupt IN ring answers once the Configure Endpoint
/// command completed with `kind`: `Ok(true)` on success, else a retry.
pub fn configure_endpoint_result(kind: CompletionKind) -> (r: Result<bool, TransferError>)
    ensures
        r == if kind == CompletionKind::Success {
            Ok::<bool, TransferError>(true)
        } else {
            Err(TransferError::Retry("CompletionCode error"))
        },
{
    match kind {
        CompletionKind::Success => Ok(true),
        _ => Err(TransferError::Retry("CompletionCode error")),
    }
}

/// The slot of a transfer ring of `len` TRBs at `ring_base` that
/// `trb_pointer` names, when it names one of its slots before the Link TRB.
pub fn transfer_buffer_index(trb_pointer: u64, ring_base: u64, len: usize) -> (r: Option<usize>)
    ensures
        r == if ring_base <= trb_pointer && (trb_pointer - ring_base) % 16 == 0 && (trb_pointer - ring_base) / 16 + 1
            < len {
            Some(((trb_pointer - ring_base) / 16) as usize)
        } else {
            None::<usize>
        },
{
    if trb_pointer < ring_base {
        return None;
    }
    let d = trb_pointer - ring_base;
    if d % 16 != 0 {
        return None;
    }
    let index = d / 16;
    if len == 0 || index >= (len - 1) as u64 {
        return None;
    }
    Some(index as usize)
}

/// How many bytes of a report the transfer delivers into a buffer of
/// `buf_len` bytes when the controller reports `transferred` bytes: as many
/// as both allow; the rest of the buffer keeps its bytes.
pub fn in_transfer_copy_len(transferred: u32, buf_len: usize) -> (n: usize)
    ensures
        n == if (transferred as int) < buf_len { transferred as int } else { buf_len as int },
{
    if (transferred as u64) < (buf_len as u64) {
        transferred as usize
    } else {
        buf_len
    }
}

} // verus!
