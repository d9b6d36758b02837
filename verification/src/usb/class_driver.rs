//! USB class drivers as state machines: each asks the host for one thing at
//! a time (`action`) and is told how it went (`on_success`, `on_failure`).
//! The host side that performs the transfers runs the loop.
use vstd::prelude::*;
use crate::usb::class_driver::keyboard::{bootkbd_scan, ep_for_bootkbd};
use crate::usb::descriptor::{
    chain_from, chain_ok, is_descriptor_chain, le16, DescriptorKind, DeviceDescriptor,
};
use crate::usb::device::{Direction, TransferError};
use crate::usb::setup_packet::{
    descriptor_type_byte_spec, request_code_spec, request_type_spec, w_value, w_value_spec,
    RequestCode, RequestDirection, RequestKind, RequestRecipient, SetupPacketRaw,
};

pub mod callbacks;
pub mod hub;
pub mod keyboard;

verus! {

/// The transfer types of USB 2.0 §9.6.6.
#[derive(Clone, Copy, Debug, PartialEq, Eq, Structural)]
pub enum TransferType {
    Control,
    Isochronous,
    Bulk,
    Interrupt,
}

/// An endpoint of a device as a driver sees it.
#[derive(Clone, Copy, Debug, PartialEq, Eq, Structural)]
pub struct Endpoint {
    pub address: u8,
    pub endpoint_num: u8,
    pub interface_num: u8,
    pub transfer_type: TransferType,
    pub direction: Direction,
    pub max_packet_size: u16,
    pub in_toggle: bool,
    pub out_toggle: bool,
}

impl Endpoint {
    pub fn new(
        address: u8,
        endpoint_num: u8,
        interface_num: u8,
        transfer_type: TransferType,
        direction: Direction,
        max_packet_size: u16,
    ) -> (e: Self)
        ensures
            e == (Endpoint {
                address,
                endpoint_num,
                interface_num,
                transfer_type,
                direction,
                max_packet_size,
                in_toggle: false,
                out_toggle: false,
            }),
    {
        Endpoint {
            address,
            endpoint_num,
            interface_num,
            transfer_type,
            direction,
            max_packet_size,
            in_toggle: false,
            out_toggle: false,
        }
    }
}

/// What a driver asks of the host next.
#[derive(Clone, Copy, Debug, PartialEq, Eq, Structural)]
pub enum DriverAction {
    /// Nothing this time.
    Idle,
    /// A control transfer on the default endpoint; a device-to-host request
    /// reads `w_length` bytes, any other has no data stage.
    Control(SetupPacketRaw),
    /// An interrupt IN transfer of the given number of bytes.
    InTransfer(Endpoint, usize),
    /// Tell the host controller that the device at this address is a hub.
    RegisterHub(u8),
    /// Wait this many milliseconds.
    Sleep(usize),
}

/// GET_DESCRIPTOR of the given type and index 0, for `len` bytes.
pub open spec fn get_descriptor_spec(kind: DescriptorKind, len: u16) -> SetupPacketRaw {
    SetupPacketRaw {
        bm_request_type: 0x80,
        b_request: 6,
        w_value: w_value_spec(0, descriptor_type_byte_spec(kind)),
        w_index: 0,
        w_length: len,
    }
}

/// A host-to-device request with no data stage.
pub open spec fn no_data_request_spec(
    k: RequestKind,
    r: RequestRecipient,
    code: RequestCode,
    w_value: u16,
    w_index: u16,
) -> SetupPacketRaw {
    SetupPacketRaw {
        bm_request_type: request_type_spec(RequestDirection::HostToDevice, k, r),
        b_request: request_code_spec(code),
        w_value,
        w_index,
        w_length: 0,
    }
}

/// The states of a HID device (keyboard or mouse) that only sends reports.
#[derive(Clone, Copy, Debug, PartialEq, Eq, Structural)]
pub enum DeviceState {
    Addressed,
    /// Waiting until the given time (in milliseconds) before talking to
    /// the device again after it got its address.
    WaitForSettle(usize),
    /// Reading the 9-byte configuration descriptor.
    GetConfig,
    /// Reading the whole configuration, of the given length.
    GetConfigAll(u16),
    SetConfig(u8),
    SetProtocol,
    SetIdle,
    Running,
}

/// How a driver finds the endpoint it reads in a configuration.
#[derive(Clone, Copy, Debug, PartialEq, Eq, Structural)]
pub enum EndpointSearcher {
    /// The first endpoint of a boot keyboard interface.
    BootKeyboard,
}

/// A device whose driver only reads reports from one interrupt endpoint.
pub struct InputOnlyDevice {
    pub addr: u8,
    pub ep0: Endpoint,
    pub endpoints: Vec<Option<Endpoint>>,
    pub state: DeviceState,
    pub endpoint_searcher: EndpointSearcher,
    /// Milliseconds to wait after the address was set (USB 2.0 §9.2.6.3).
    pub settle_delay: usize,
    /// The longest configuration the driver reads.
    pub config_buffer_len: u16,
    /// The length of a report.
    pub n_in_transfer_bytes: usize,
}

impl InputOnlyDevice {
    /// The endpoint table has a first entry.
    pub open spec fn wf(&self) -> bool {
        self.endpoints@.len() >= 1
    }

    /// A device that has just been given address `addr`.
    pub fn new(
        addr: u8,
        max_packet_size: u8,
        endpoint_searcher: EndpointSearcher,
        max_endpoints: usize,
        settle_delay: usize,
        config_buffer_len: u16,
        n_in_transfer_bytes: usize,
    ) -> (d: Self)
        requires
            max_endpoints >= 1,
        ensures
            d.wf(),
            d.addr == addr,
            d.ep0 == (Endpoint {
                address: addr,
                endpoint_num: 0,
                interface_num: 0,
                transfer_type: TransferType::Control,
                direction: Direction::In,
                max_packet_size: max_packet_size as u16,
                in_toggle: false,
                out_toggle: false,
            }),
            d.endpoints@ == Seq::new(max_endpoints as nat, |i: int| None::<Endpoint>),
            d.state == DeviceState::Addressed,
            d.endpoint_searcher == endpoint_searcher,
            d.settle_delay == settle_delay,
            d.config_buffer_len == config_buffer_len,
            d.n_in_transfer_bytes == n_in_transfer_bytes,
    {
        let mut endpoints: Vec<Option<Endpoint>> = Vec::new();
        let mut i: usize = 0;
        while i < max_endpoints
            invariant
                i <= max_endpoints,
                endpoints@ == Seq::new(i as nat, |j: int| None::<Endpoint>),
            decreases max_endpoints - i,
        {
            endpoints.push(None);
            i = i + 1;
            assert(endpoints@ =~= Seq::new(i as nat, |j: int| None::<Endpoint>));
        }
        InputOnlyDevice {
            addr,
            ep0: Endpoint::new(addr, 0, 0, TransferType::Control, Direction::In, max_packet_size as u16),
            endpoints,
            state: DeviceState::Addressed,
            endpoint_searcher,
            settle_delay,
            config_buffer_len,
            n_in_transfer_bytes,
        }
    }

    /// What the driver asks of the host at time `millis`.
    pub open spec fn action_spec(&self, millis: usize) -> DriverAction {
        match self.state {
            DeviceState::Addressed => DriverAction::Idle,
            DeviceState::WaitForSettle(until) => if millis > until {
                DriverAction::Control(get_descriptor_spec(DescriptorKind::Device, 18))
            } else {
                DriverAction::Idle
            },
            DeviceState::GetConfig => DriverAction::Control(
                get_descriptor_spec(DescriptorKind::Configuration, 9),
            ),
            DeviceState::GetConfigAll(total) => DriverAction::Control(
                get_descriptor_spec(DescriptorKind::Configuration, total),
            ),
            DeviceState::SetConfig(index) => DriverAction::Control(
                no_data_request_spec(
                    RequestKind::Standard,
                    RequestRecipient::Device,
                    RequestCode::SetConfiguration,
                    w_value_spec(index, 0),
                    0,
                ),
            ),
            DeviceState::SetProtocol => match self.endpoints@[0] {
                Some(ep) => DriverAction::Control(
                    no_data_request_spec(
                        RequestKind::Class,
                        RequestRecipient::Interface,
                        RequestCode::SetInterface,
                        0,
                        ep.interface_num as u16,
                    ),
                ),
                None => DriverAction::Idle,
            },
            DeviceState::SetIdle => DriverAction::Control(
                no_data_request_spec(
                    RequestKind::Class,
                    RequestRecipient::Interface,
                    RequestCode::GetInterface,
                    0,
                    0,
                ),
            ),
            DeviceState::Running => match self.endpoints@[0] {
                Some(ep) => DriverAction::InTransfer(ep, self.n_in_transfer_bytes),
                None => DriverAction::Idle,
            },
        }
    }

    /// What the driver asks of the host at time `millis`: the device and
    /// configuration descriptors, then SET_CONFIGURATION(1), SET_PROTOCOL
    /// and SET_IDLE, then one report after another.
    pub fn action(&self, millis: usize) -> (a: DriverAction)
        requires
            self.wf(),
        ensures
            a == self.action_spec(millis),
    {
        match self.state {
            DeviceState::Addressed => DriverAction::Idle,
            DeviceState::WaitForSettle(until) => if millis > until {
                DriverAction::Control(SetupPacketRaw::descriptor(DescriptorKind::Device, 0, 18))
            } else {
                DriverAction::Idle
            },
            DeviceState::GetConfig => DriverAction::Control(
                SetupPacketRaw::descriptor(DescriptorKind::Configuration, 0, 9),
            ),
            DeviceState::GetConfigAll(total) => DriverAction::Control(
                SetupPacketRaw::descriptor(DescriptorKind::Configuration, 0, total),
            ),
            DeviceState::SetConfig(index) => DriverAction::Control(
                SetupPacketRaw::new(
                    RequestDirection::HostToDevice,
                    RequestKind::Standard,
                    RequestRecipient::Device,
                    RequestCode::SetConfiguration,
                    w_value(index, 0),
                    0,
                    0,
                ),
            ),
            DeviceState::SetProtocol => match self.endpoints[0] {
                Some(ep) => DriverAction::Control(
                    SetupPacketRaw::new(
                        RequestDirection::HostToDevice,
                        RequestKind::Class,
                        RequestRecipient::Interface,
                        RequestCode::SetInterface,
                        w_value(0, 0),
                        ep.interface_num as u16,
                        0,
                    ),
                ),
                None => DriverAction::Idle,
            },
            DeviceState::SetIdle => DriverAction::Control(
                SetupPacketRaw::new(
                    RequestDirection::HostToDevice,
                    RequestKind::Class,
                    RequestRecipient::Interface,
                    RequestCode::GetInterface,
                    w_value(0, 0),
                    0,
                    0,
                ),
            ),
            DeviceState::Running => match self.endpoints[0] {
                Some(ep) => DriverAction::InTransfer(ep, self.n_in_transfer_bytes),
                None => DriverAction::Idle,
            },
        }
    }

    /// What a successful answer `data` needs, at time `millis`: the lengths
    /// that the driver asked for, and a configuration with a boot keyboard.
    pub open spec fn success_ok(&self, millis: usize, data: Seq<u8>) -> bool {
        match self.state {
            DeviceState::Addressed => millis + self.settle_delay <= usize::MAX,
            DeviceState::WaitForSettle(until) => millis > until ==> data.len() == 18,
            DeviceState::GetConfig => data.len() == 9,
            DeviceState::GetConfigAll(total) => {
                &&& data.len() == total
                &&& chain_ok(data, 0)
                &&& bootkbd_scan(chain_from(data, 0), None) is Some
            },
            _ => true,
        }
    }

    /// The state after a successful answer `data` at time `millis`.
    pub open spec fn next_state_spec(&self, millis: usize, data: Seq<u8>) -> DeviceState {
        match self.state {
            DeviceState::Addressed => DeviceState::WaitForSettle(
                (millis + self.settle_delay) as usize,
            ),
            DeviceState::WaitForSettle(until) => if millis > until {
                DeviceState::GetConfig
            } else {
                self.state
            },
            DeviceState::GetConfig => if le16(data[2], data[3]) > self.config_buffer_len {
                DeviceState::GetConfig
            } else {
                DeviceState::GetConfigAll(le16(data[2], data[3]))
            },
            DeviceState::GetConfigAll(_) => DeviceState::SetConfig(1),
            DeviceState::SetConfig(_) => DeviceState::SetProtocol,
            DeviceState::SetProtocol => if self.endpoints@[0] is Some {
                DeviceState::SetIdle
            } else {
                DeviceState::SetProtocol
            },
            DeviceState::SetIdle => DeviceState::Running,
            DeviceState::Running => DeviceState::Running,
        }
    }

    /// `after` is what a successful answer `data` at time `millis` leaves of
    /// the device: the next state (see `next_state_spec`), the boot
    /// keyboard's interrupt IN endpoint as the first endpoint once the whole
    /// configuration was read, and everything else as it was.
    pub open spec fn success_leaves(&self, after: Self, millis: usize, data: Seq<u8>) -> bool {
        &&& after.wf()
        &&& after.state == self.next_state_spec(millis, data)
        &&& after.addr == self.addr
        &&& after.ep0 == self.ep0
        &&& after.endpoint_searcher == self.endpoint_searcher
        &&& after.settle_delay == self.settle_delay
        &&& after.config_buffer_len == self.config_buffer_len
        &&& after.n_in_transfer_bytes == self.n_in_transfer_bytes
        &&& after.endpoints@ == if self.state is GetConfigAll {
            self.endpoints@.update(0, Some(boot_endpoint(self.addr, data)))
        } else {
            self.endpoints@
        }
    }

    /// Whether `on_success` takes the answer `data` at time `millis` in the
    /// current state (see `success_ok`).
    pub fn answer_ok(&self, millis: usize, data: &[u8]) -> (b: bool)
        ensures
            b == self.success_ok(millis, data@),
    {
        match self.state {
            DeviceState::Addressed => millis <= usize::MAX - self.settle_delay,
            DeviceState::WaitForSettle(until) => millis <= until || data.len() == 18,
            DeviceState::GetConfig => data.len() == 9,
            DeviceState::GetConfigAll(total) => data.len() == total as usize && is_descriptor_chain(data)
                && ep_for_bootkbd(data).is_some(),
            _ => true,
        }
    }

    /// The action succeeded at time `millis`, answering `data` (empty for a
    /// request without a data stage).
    pub fn on_success(&mut self, millis: usize, data: &[u8]) -> (r: Result<(), TransferError>)
        requires
            old(self).wf(),
            old(self).success_ok(millis, data@),
        ensures
            old(self).success_leaves(*final(self), millis, data@),
            final(self).wf(),
            final(self).state == old(self).next_state_spec(millis, data@),
            final(self).addr == old(self).addr,
            final(self).ep0 == old(self).ep0,
            final(self).endpoint_searcher == old(self).endpoint_searcher,
            final(self).settle_delay == old(self).settle_delay,
            final(self).config_buffer_len == old(self).config_buffer_len,
            final(self).n_in_transfer_bytes == old(self).n_in_transfer_bytes,
            old(self).state !is GetConfigAll ==> final(self).endpoints == old(self).endpoints,
            match old(self).state {
                DeviceState::Addressed => r is Ok && final(self).state == DeviceState::WaitForSettle(
                    (millis + old(self).settle_delay) as usize,
                ),
                DeviceState::WaitForSettle(until) => r is Ok && final(self).state == if millis
                    > until {
                    DeviceState::GetConfig
                } else {
                    old(self).state
                },
                DeviceState::GetConfig => {
                    let total = le16(data@[2], data@[3]);
                    if total > old(self).config_buffer_len {
                        r == Err::<(), TransferError>(
                            TransferError::Permanent("config descriptor too large"),
                        ) && final(self).state == old(self).state
                    } else {
                        r is Ok && final(self).state == DeviceState::GetConfigAll(total)
                    }
                },
                DeviceState::GetConfigAll(_) => {
                    let info = bootkbd_scan(chain_from(data@, 0), None)->Some_0;
                    &&& r is Ok
                    &&& final(self).state == DeviceState::SetConfig(1)
                    &&& final(self).endpoints@ == old(self).endpoints@.update(
                        0,
                        Some(
                            Endpoint {
                                address: old(self).addr,
                                endpoint_num: info.endpoint.b_endpoint_address & 0x7f,
                                interface_num: info.interface_num,
                                transfer_type: TransferType::Interrupt,
                                direction: Direction::In,
                                max_packet_size: info.endpoint.w_max_packet_size,
                                in_toggle: false,
                                out_toggle: false,
                            },
                        ),
                    )
                },
                DeviceState::SetConfig(_) => r is Ok && final(self).state == DeviceState::SetProtocol,
                DeviceState::SetProtocol => if old(self).endpoints@[0] is Some {
                    r is Ok && final(self).state == DeviceState::SetIdle
                } else {
                    r == Err::<(), TransferError>(TransferError::Permanent("no boot keyboard"))
                        && final(self).state == old(self).state
                },
                DeviceState::SetIdle => r is Ok && final(self).state == DeviceState::Running,
                DeviceState::Running => final(self).state == DeviceState::Running && if old(
                    self,
                ).endpoints@[0] is Some {
                    r is Ok
                } else {
                    r == Err::<(), TransferError>(TransferError::Permanent("no boot keyboard"))
                },
            },
    {
        match self.state {
            DeviceState::Addressed => {
                self.state = DeviceState::WaitForSettle(millis + self.settle_delay);
                Ok(())
            },
            DeviceState::WaitForSettle(until) => {
                if millis > until {
                    self.state = DeviceState::GetConfig;
                }
                Ok(())
            },
            DeviceState::GetConfig => {
                let total = crate::usb::descriptor::ConfigurationDescriptor::from_bytes(
                    data,
                ).w_total_length;
                if total > self.config_buffer_len {
                    return Err(TransferError::Permanent("config descriptor too large"));
                }
                self.state = DeviceState::GetConfigAll(total);
                Ok(())
            },
            DeviceState::GetConfigAll(_) => {
                let found = match self.endpoint_searcher {
                    EndpointSearcher::BootKeyboard => ep_for_bootkbd(data),
                };
                let info = match found {
                    Some(info) => info,
                    None => {
                        return Err(TransferError::Permanent("no boot keyboard found"));
                    },
                };
                let ep = Endpoint::new(
                    self.addr,
                    info.endpoint.b_endpoint_address & 0x7f,
                    info.interface_num,
                    TransferType::Interrupt,
                    Direction::In,
                    info.endpoint.w_max_packet_size,
                );
                self.endpoints.set(0, Some(ep));
                self.state = DeviceState::SetConfig(1);
                Ok(())
            },
            DeviceState::SetConfig(_) => {
                self.state = DeviceState::SetProtocol;
                Ok(())
            },
            DeviceState::SetProtocol => {
                if self.endpoints[0].is_some() {
                    self.state = DeviceState::SetIdle;
                    Ok(())
                } else {
                    Err(TransferError::Permanent("no boot keyboard"))
                }
            },
            DeviceState::SetIdle => {
                self.state = DeviceState::Running;
                Ok(())
            },
            DeviceState::Running => {
                if self.endpoints[0].is_some() {
                    Ok(())
                } else {
                    Err(TransferError::Permanent("no boot keyboard"))
                }
            },
        }
    }

    /// What a report read in the `Running` state leads to, the read having
    /// answered `read` (the number of bytes, or an error): the address to
    /// hand the report to the callback with, and the result. A report that
    /// was read goes to the callback with the device's address; a read that
    /// may be retried is dropped without error; a permanent error is handed
    /// back; without an endpoint nothing is read and the keyboard is missing.
    pub fn on_report(&self, read: Result<usize, TransferError>) -> (r: (Option<u8>, Result<(), TransferError>))
        requires
            self.wf(),
            self.state == DeviceState::Running,
        ensures
            r == if self.endpoints@[0] is None {
                (None::<u8>, Err::<(), TransferError>(TransferError::Permanent("no boot keyboard")))
            } else {
                match read {
                    Ok(_) => (Some(self.addr), Ok::<(), TransferError>(())),
                    Err(TransferError::Retry(_)) => (None::<u8>, Ok::<(), TransferError>(())),
                    Err(TransferError::Permanent(m)) => (None::<u8>, Err::<(), TransferError>(TransferError::Permanent(m))),
                }
            },
    {
        if self.endpoints[0].is_none() {
            return (None, Err(TransferError::Permanent("no boot keyboard")));
        }
        match read {
            Ok(_) => (Some(self.addr), Ok(())),
            Err(TransferError::Retry(_)) => (None, Ok(())),
            Err(TransferError::Permanent(m)) => (None, Err(TransferError::Permanent(m))),
        }
    }

    /// The action failed with `e`: reading the whole configuration starts
    /// over from its first 9 bytes; a report that may be retried is no
    /// error; any other failure is handed back with the state unchanged.
    pub fn on_failure(&mut self, e: TransferError) -> (r: Result<(), TransferError>)
        ensures
            final(self).addr == old(self).addr,
            final(self).ep0 == old(self).ep0,
            final(self).endpoints == old(self).endpoints,
            final(self).endpoint_searcher == old(self).endpoint_searcher,
            final(self).settle_delay == old(self).settle_delay,
            final(self).config_buffer_len == old(self).config_buffer_len,
            final(self).n_in_transfer_bytes == old(self).n_in_transfer_bytes,
            final(self).state == if old(self).state is GetConfigAll {
                DeviceState::GetConfig
            } else {
                old(self).state
            },
            r == if old(self).state == DeviceState::Running && e is Retry {
                Ok::<(), TransferError>(())
            } else {
                Err(e)
            },
    {
        match self.state {
            DeviceState::GetConfigAll(_) => {
                self.state = DeviceState::GetConfig;
                Err(e)
            },
            DeviceState::Running => match e {
                TransferError::Retry(_) => Ok(()),
                TransferError::Permanent(_) => Err(e),
            },
            _ => Err(e),
        }
    }
}

/// The interrupt IN endpoint, for a device at address `addr`, of the boot
/// keyboard interface that the configuration `data` describes.
pub open spec fn boot_endpoint(addr: u8, data: Seq<u8>) -> Endpoint {
    let info = bootkbd_scan(chain_from(data, 0), None)->Some_0;
    Endpoint {
        address: addr,
        endpoint_num: info.endpoint.b_endpoint_address & 0x7f,
        interface_num: info.interface_num,
        transfer_type: TransferType::Interrupt,
        direction: Direction::In,
        max_packet_size: info.endpoint.w_max_packet_size,
        in_toggle: false,
        out_toggle: false,
    }
}

/// With every request answered as asked, a keyboard that was just addressed
/// at time `times[0]` is brought up in seven successful steps (`ds[i + 1]`
/// being what the answer `answers[i]` at time `times[i]` leaves of `ds[i]`):
/// it waits for the device to settle until `times[0]` plus the settle delay,
/// reads the 9-byte head of the configuration and then all of it, takes the
/// boot keyboard's interrupt IN endpoint as its first endpoint and sets
/// configuration 1, sets the protocol and the idle rate, and runs, reading
/// reports from that endpoint.
pub proof fn lemma_keyboard_bring_up(ds: Seq<InputOnlyDevice>, times: Seq<usize>, answers: Seq<Seq<u8>>)
    requires
        ds.len() == 8,
        times.len() == 7,
        answers.len() == 7,
        ds[0].wf(),
        ds[0].state == DeviceState::Addressed,
        forall|i: int|
            0 <= i < 7 ==> #[trigger] ds[i].success_ok(times[i], answers[i]) && ds[i].success_leaves(
                ds[i + 1],
                times[i],
                answers[i],
            ),
        times[1] > times[0] + ds[0].settle_delay,
        le16(answers[2][2], answers[2][3]) <= ds[0].config_buffer_len,
    ensures
        ds[1].state == DeviceState::WaitForSettle((times[0] + ds[0].settle_delay) as usize),
        ds[2].state == DeviceState::GetConfig,
        ds[3].state == DeviceState::GetConfigAll(le16(answers[2][2], answers[2][3])),
        ds[4].state == DeviceState::SetConfig(1),
        ds[5].state == DeviceState::SetProtocol,
        ds[6].state == DeviceState::SetIdle,
        ds[7].state == DeviceState::Running,
        ds[7].endpoints@[0] == Some(boot_endpoint(ds[0].addr, answers[3])),
        ds[7].action_spec(times[6]) == DriverAction::InTransfer(
            boot_endpoint(ds[0].addr, answers[3]),
            ds[0].n_in_transfer_bytes,
        ),
{
    assert(ds[0].success_ok(times[0], answers[0]));
    assert(ds[1].success_ok(times[1], answers[1]));
    assert(ds[2].success_ok(times[2], answers[2]));
    assert(ds[3].success_ok(times[3], answers[3]));
    assert(ds[4].success_ok(times[4], answers[4]));
    assert(ds[5].success_ok(times[5], answers[5]));
    assert(ds[6].success_ok(times[6], answers[6]));
    assert(ds[4].endpoints@[0] == Some(boot_endpoint(ds[0].addr, answers[3])));
}

/// How far a keyboard or mouse is through its bring-up.
pub open spec fn device_progress(s: DeviceState) -> nat {
    match s {
        DeviceState::Addressed => 0,
        DeviceState::WaitForSettle(_) => 1,
        DeviceState::GetConfig => 2,
        DeviceState::GetConfigAll(_) => 3,
        DeviceState::SetConfig(_) => 4,
        DeviceState::SetProtocol => 5,
        DeviceState::SetIdle => 6,
        DeviceState::Running => 7,
    }
}

/// A keyboard or mouse whose request succeeded moves strictly closer to
/// `Running`, unless it is still waiting for the device to settle, the
/// configuration is too long, or no endpoint was found; a failed request
/// never moves it forward.
pub proof fn lemma_device_progress(d: InputOnlyDevice, millis: usize, data: Seq<u8>)
    requires
        d.wf(),
        d.success_ok(millis, data),
    ensures
        device_progress(d.next_state_spec(millis, data)) >= device_progress(d.state),
        ({
            let stays = match d.state {
                DeviceState::WaitForSettle(until) => millis <= until,
                DeviceState::GetConfig => le16(data[2], data[3]) > d.config_buffer_len,
                DeviceState::SetProtocol => d.endpoints@[0] is None,
                DeviceState::Running => true,
                _ => false,
            };
            !stays ==> device_progress(d.next_state_spec(millis, data)) > device_progress(d.state)
        }),
        device_progress(
            if d.state is GetConfigAll {
                DeviceState::GetConfig
            } else {
                d.state
            },
        ) <= device_progress(d.state),
{
}

/// An error of a driver about the device at an address.
#[derive(Clone, Copy, Debug, PartialEq, Eq)]
pub enum DriverError {
    Retry(u8, &'static str),
    Permanent(u8, &'static str),
}

/// The index of the first free slot of a device table, its length when all
/// are taken.
pub open spec fn first_free<T>(s: Seq<Option<T>>) -> int
    decreases s.len(),
{
    if s.len() == 0 {
        0
    } else if s[0] is None {
        0
    } else {
        1 + first_free(s.drop_first())
    }
}

pub proof fn lemma_first_free_bounds<T>(s: Seq<Option<T>>)
    ensures
        0 <= first_free(s) <= s.len(),
        first_free(s) < s.len() ==> s[first_free(s)] is None,
        forall|j: int| 0 <= j < first_free(s) ==> s[j] is Some,
    decreases s.len(),
{
    if s.len() > 0 && s[0] is Some {
        lemma_first_free_bounds(s.drop_first());
        assert forall|j: int| 0 <= j < first_free(s) implies s[j] is Some by {
            if j > 0 {
                assert(s[j] == s.drop_first()[j - 1]);
            }
        }
    }
}

/// The index of the first free slot of `devices`.
pub fn find_free<T>(devices: &Vec<Option<T>>) -> (i: usize)
    ensures
        i == first_free(devices@),
{
    proof {
        lemma_first_free_bounds(devices@);
    }
    let mut i: usize = 0;
    while i < devices.len()
        invariant
            i <= devices@.len(),
            0 <= first_free(devices@) <= devices@.len(),
            forall|j: int| 0 <= j < i ==> devices@[j] is Some,
            first_free(devices@) < devices@.len() ==> devices@[first_free(devices@)] is None,
            forall|j: int| 0 <= j < first_free(devices@) ==> devices@[j] is Some,
        decreases devices@.len() - i,
    {
        if devices[i].is_none() {
            proof {
                if first_free(devices@) < i {
                    assert(devices@[first_free(devices@)] is Some);
                }
                if i < first_free(devices@) {
                    assert(devices@[i as int] is Some);
                }
            }
            return i;
        }
        i = i + 1;
    }
    i
}

/// The index of the first keyboard or mouse at address `address`, the
/// table's length when there is none.
pub open spec fn first_with_addr(s: Seq<Option<InputOnlyDevice>>, address: u8) -> int
    decreases s.len(),
{
    if s.len() == 0 {
        0
    } else if s[0] matches Some(d) && d.addr == address {
        0
    } else {
        1 + first_with_addr(s.drop_first(), address)
    }
}

/// The first slot holding a device at `address` is the first index `i`
/// where one is, when every slot before `i` holds none.
proof fn lemma_first_with_addr_at(s: Seq<Option<InputOnlyDevice>>, address: u8, i: int)
    requires
        0 <= i < s.len(),
        s[i] matches Some(d) && d.addr == address,
        forall|j: int| 0 <= j < i ==> !(#[trigger] s[j] matches Some(d) && d.addr == address),
    ensures
        first_with_addr(s, address) == i,
    decreases i,
{
    if i > 0 {
        assert forall|j: int| 0 <= j < i - 1 implies !(#[trigger] s.drop_first()[j] matches Some(d)
            && d.addr == address) by {
            assert(s.drop_first()[j] == s[j + 1]);
        }
        lemma_first_with_addr_at(s.drop_first(), address, i - 1);
    }
}

/// Removing the device at `address` right after adding it gives back the
/// table as it was, when no device had that address before: the new device
/// went into the first free slot, and it is the first one found there.
pub proof fn lemma_remove_undoes_add(before: Seq<Option<InputOnlyDevice>>, d: InputOnlyDevice, address: u8)
    requires
        first_free(before) < before.len(),
        d.addr == address,
        forall|j: int| 0 <= j < before.len() ==> !(#[trigger] before[j] matches Some(x) && x.addr == address),
    ensures
        ({
            let i = first_free(before);
            let added = before.update(i, Some(d));
            &&& first_with_addr(added, address) == i
            &&& added.update(first_with_addr(added, address), None) == before
        }),
{
    lemma_first_free_bounds(before);
    let i = first_free(before);
    let added = before.update(i, Some(d));
    assert forall|j: int| 0 <= j < i implies !(#[trigger] added[j] matches Some(x) && x.addr
        == address) by {
        assert(added[j] == before[j]);
    }
    lemma_first_with_addr_at(added, address, i);
    assert(added.update(i, None) =~= before);
}

/// A keyboard or mouse just added at `addr`, with the driver's settings.
pub open spec fn fresh_input_device(
    d: InputOnlyDevice,
    drv: InputOnlyDriver,
    addr: u8,
    max_packet_size: u8,
) -> bool {
    &&& d.wf()
    &&& d.addr == addr
    &&& d.state == DeviceState::Addressed
    &&& d.ep0.max_packet_size == max_packet_size as u16
    &&& d.endpoints@ == Seq::new(drv.max_endpoints as nat, |i: int| None::<Endpoint>)
    &&& d.endpoint_searcher == drv.endpoint_searcher
    &&& d.settle_delay == drv.settle_delay
    &&& d.config_buffer_len == drv.config_buffer_len
    &&& d.n_in_transfer_bytes == drv.n_in_transfer_bytes
}

/// A driver for HID devices that only send reports, with a table of them.
pub struct InputOnlyDriver {
    pub devices: Vec<Option<InputOnlyDevice>>,
    pub endpoint_searcher: EndpointSearcher,
    pub max_endpoints: usize,
    pub settle_delay: usize,
    pub config_buffer_len: u16,
    pub n_in_transfer_bytes: usize,
}

impl InputOnlyDriver {
    pub fn new(
        max_devices: usize,
        endpoint_searcher: EndpointSearcher,
        max_endpoints: usize,
        settle_delay: usize,
        config_buffer_len: u16,
        n_in_transfer_bytes: usize,
    ) -> (d: Self)
        requires
            max_endpoints >= 1,
        ensures
            d.devices@ == Seq::new(max_devices as nat, |i: int| None::<InputOnlyDevice>),
            d.endpoint_searcher == endpoint_searcher,
            d.max_endpoints == max_endpoints,
            d.settle_delay == settle_delay,
            d.config_buffer_len == config_buffer_len,
            d.n_in_transfer_bytes == n_in_transfer_bytes,
    {
        let mut devices: Vec<Option<InputOnlyDevice>> = Vec::new();
        let mut i: usize = 0;
        while i < max_devices
            invariant
                i <= max_devices,
                devices@ == Seq::new(i as nat, |j: int| None::<InputOnlyDevice>),
            decreases max_devices - i,
        {
            devices.push(None);
            i = i + 1;
            assert(devices@ =~= Seq::new(i as nat, |j: int| None::<InputOnlyDevice>));
        }
        InputOnlyDriver {
            devices,
            endpoint_searcher,
            max_endpoints,
            settle_delay,
            config_buffer_len,
            n_in_transfer_bytes,
        }
    }

    /// The driver takes any device offered.
    pub fn want_device(&self, _device: &DeviceDescriptor) -> (r: bool)
        ensures
            r,
    {
        true
    }

    /// Puts the device at `address` into the first free slot; an error when
    /// none is free.
    pub fn add_device(&mut self, device: DeviceDescriptor, address: u8) -> (r: Result<(), DriverError>)
        requires
            old(self).max_endpoints >= 1,
        ensures
            final(self).endpoint_searcher == old(self).endpoint_searcher,
            final(self).max_endpoints == old(self).max_endpoints,
            final(self).settle_delay == old(self).settle_delay,
            final(self).config_buffer_len == old(self).config_buffer_len,
            final(self).n_in_transfer_bytes == old(self).n_in_transfer_bytes,
            final(self).devices@.len() == old(self).devices@.len(),
            ({
                let i = first_free(old(self).devices@);
                if i < old(self).devices@.len() {
                    &&& r is Ok
                    &&& final(self).devices@[i] matches Some(d) && fresh_input_device(
                        d,
                        *old(self),
                        address,
                        device.b_max_packet_size,
                    )
                    &&& forall|j: int|
                        0 <= j < old(self).devices@.len() && j != i ==> final(self).devices@[j]
                            == old(self).devices@[j]
                } else {
                    &&& r == Err::<(), DriverError>(DriverError::Permanent(address, "out of devices"))
                    &&& final(self).devices@ == old(self).devices@
                }
            }),
    {
        let i = find_free(&self.devices);
        if i < self.devices.len() {
            let d = InputOnlyDevice::new(
                address,
                device.b_max_packet_size,
                self.endpoint_searcher,
                self.max_endpoints,
                self.settle_delay,
                self.config_buffer_len,
                self.n_in_transfer_bytes,
            );
            self.devices.set(i, Some(d));
            Ok(())
        } else {
            Err(DriverError::Permanent(address, "out of devices"))
        }
    }

    /// Frees the first slot that holds the device at `address`, if any.
    pub fn remove_device(&mut self, address: u8)
        ensures
            final(self).endpoint_searcher == old(self).endpoint_searcher,
            final(self).max_endpoints == old(self).max_endpoints,
            final(self).settle_delay == old(self).settle_delay,
            final(self).config_buffer_len == old(self).config_buffer_len,
            final(self).n_in_transfer_bytes == old(self).n_in_transfer_bytes,
            final(self).devices@ == if first_with_addr(old(self).devices@, address) < old(
                self,
            ).devices@.len() {
                old(self).devices@.update(first_with_addr(old(self).devices@, address), None)
            } else {
                old(self).devices@
            },
    {
        let mut i: usize = 0;
        assert(self.devices@.skip(0) =~= self.devices@);
        while i < self.devices.len()
            invariant
                *self == *old(self),
                i <= self.devices@.len(),
                first_with_addr(self.devices@, address) == i + first_with_addr(
                    self.devices@.skip(i as int),
                    address,
                ),
            decreases self.devices@.len() - i,
        {
            assert(self.devices@.skip(i as int).drop_first() =~= self.devices@.skip(i + 1));
            let hit = match &self.devices[i] {
                Some(d) => d.addr == address,
                None => false,
            };
            if hit {
                self.devices.set(i, None);
                return;
            }
            i = i + 1;
        }
        assert(self.devices@.skip(i as int) =~= Seq::<Option<InputOnlyDevice>>::empty());
    }
}

} // verus!
