//! The USB hub driver (USB 2.0 chapter 11) as a state machine: configure the
//! hub, read its hub descriptor, then power each downstream port, clear its
//! connection change and read its status.
use vstd::prelude::*;
use crate::usb::class_driver::{
    find_free, first_free, get_descriptor_spec, no_data_request_spec, DriverAction, DriverError,
    Endpoint, TransferType,
};
use crate::usb::descriptor::{
    chain_from, chain_ok, hub_descriptor_spec, is_descriptor_chain, le16, ConfigurationDescriptor,
    Descriptor, DescriptorIter, DescriptorKind, DeviceDescriptor, HubDescriptor,
};
use crate::usb::device::{Direction, TransferError};
use crate::usb::setup_packet::{
    request_code_spec, request_type_spec, w_value, w_value_spec, RequestCode, RequestDirection,
    RequestKind, RequestRecipient, SetupPacketRaw,
};

verus! {

/// The longest configuration the hub driver reads.
pub const CONFIG_BUFFER_LEN: u16 = 256;

/// PORT_POWER, a port feature selector of USB 2.0 table 11-17.
pub const PORT_POWER: u8 = 8;

/// C_PORT_CONNECTION, a port feature selector of USB 2.0 table 11-17.
pub const C_PORT_CONNECTION: u8 = 16;

/// Milliseconds to wait before powering a port.
pub const PORT_POWER_DELAY: usize = 5000;

#[derive(Clone, Copy, Debug, PartialEq, Eq, Structural)]
pub enum HubState {
    Addressed,
    /// Reading the 9-byte configuration descriptor.
    GetConfig,
    /// Reading the whole configuration, of the given length.
    GetConfigAll(u16),
    SetConfig,
    /// Telling the host controller that the device is a hub.
    RegisterHub,
    GetHubDescriptor,
    /// About to bring up the downstream port with this index, if the hub has
    /// it; after the last port the hub runs.
    InitPort(u8),
    /// SET_FEATURE(PORT_POWER) on the port.
    PowerPort(u8),
    /// Waiting for the port's power to be good.
    WaitPowerGood(u8),
    /// CLEAR_FEATURE(C_PORT_CONNECTION) on the port.
    ClearConnectionChange(u8),
    /// GET_STATUS of the port.
    GetPortStatus(u8),
    Running,
}

/// The last configuration descriptor of a list, `None` when there is none.
pub open spec fn last_configuration(ds: Seq<Descriptor>) -> Option<ConfigurationDescriptor>
    decreases ds.len(),
{
    if ds.len() == 0 {
        None
    } else {
        match ds.last() {
            Descriptor::Configuration(c) => Some(c),
            _ => last_configuration(ds.drop_last()),
        }
    }
}

/// A request to a hub port, with no data stage (`request_type` 0x23).
pub open spec fn port_request_spec(code: RequestCode, feature: u8, port_index: u8) -> SetupPacketRaw {
    no_data_request_spec(
        RequestKind::Class,
        RequestRecipient::Other,
        code,
        w_value_spec(feature, 0),
        (port_index + 1) as u16,
    )
}

/// The last configuration descriptor among the descriptors of `data`.
pub fn last_configuration_in(data: &[u8]) -> (last: Option<ConfigurationDescriptor>)
    requires
        chain_ok(data@, 0),
    ensures
        last == last_configuration(chain_from(data@, 0)),
{
    let mut parser = DescriptorIter::new(data);
    let ghost all = chain_from(data@, 0);
    let ghost mut seen: Seq<Descriptor> = Seq::empty();
    let mut last: Option<ConfigurationDescriptor> = None;
    loop
        invariant
            parser.well_formed(),
            seen + parser.remaining() == all,
            last == last_configuration(seen),
        ensures
            last == last_configuration(all),
        decreases parser.remaining().len(),
    {
        let ghost before = parser.remaining();
        match parser.next() {
            None => {
                assert(seen =~= all);
                break ;
            },
            Some(descriptor) => {
                if let Descriptor::Configuration(conf) = descriptor {
                    last = Some(conf);
                }
                proof {
                    let s2 = seen.push(descriptor);
                    assert(s2.drop_last() =~= seen);
                    assert(s2 + parser.remaining() =~= seen + before);
                    seen = s2;
                }
            },
        }
    }
    last
}

/// A hub being brought up.
pub struct HubDevice {
    pub state: HubState,
    pub address: u8,
    pub ep0: Endpoint,
    pub config_descriptor: Option<ConfigurationDescriptor>,
    pub number_of_ports: u8,
    pub power_on_2_power_good: u8,
}

impl HubDevice {
    /// Setting the configuration needs the configuration descriptor, and the
    /// port being brought up is one of the hub's.
    pub open spec fn wf(&self) -> bool {
        &&& self.state == HubState::SetConfig ==> self.config_descriptor is Some
        &&& self.state matches HubState::PowerPort(i) ==> i < self.number_of_ports
        &&& self.state matches HubState::WaitPowerGood(i) ==> i < self.number_of_ports
        &&& self.state matches HubState::ClearConnectionChange(i) ==> i < self.number_of_ports
        &&& self.state matches HubState::GetPortStatus(i) ==> i < self.number_of_ports
    }

    /// A hub that has just been given address `address`.
    pub fn new(address: u8, max_packet_size: u8) -> (h: Self)
        ensures
            h.wf(),
            h.state == HubState::Addressed,
            h.address == address,
            h.ep0 == (Endpoint {
                address,
                endpoint_num: 0,
                interface_num: 0,
                transfer_type: TransferType::Control,
                direction: Direction::In,
                max_packet_size: max_packet_size as u16,
                in_toggle: false,
                out_toggle: false,
            }),
            h.config_descriptor is None,
            h.number_of_ports == 0,
            h.power_on_2_power_good == 0,
    {
        HubDevice {
            state: HubState::Addressed,
            address,
            ep0: Endpoint::new(address, 0, 0, TransferType::Control, Direction::In, max_packet_size as u16),
            config_descriptor: None,
            number_of_ports: 0,
            power_on_2_power_good: 0,
        }
    }

    pub open spec fn action_spec(&self) -> DriverAction {
        match self.state {
            HubState::Addressed => DriverAction::Idle,
            HubState::GetConfig => DriverAction::Control(
                get_descriptor_spec(DescriptorKind::Configuration, 9),
            ),
            HubState::GetConfigAll(total) => DriverAction::Control(
                get_descriptor_spec(DescriptorKind::Configuration, total),
            ),
            HubState::SetConfig => DriverAction::Control(
                no_data_request_spec(
                    RequestKind::Standard,
                    RequestRecipient::Device,
                    RequestCode::SetConfiguration,
                    w_value_spec(self.config_descriptor->Some_0.b_configuration_value, 0),
                    0,
                ),
            ),
            HubState::RegisterHub => DriverAction::RegisterHub(self.address),
            HubState::GetHubDescriptor => DriverAction::Control(
                SetupPacketRaw {
                    bm_request_type: 0xa0,
                    b_request: 6,
                    w_value: 0x2900,
                    w_index: 0,
                    w_length: 8,
                },
            ),
            HubState::InitPort(i) => if i < self.number_of_ports {
                DriverAction::Sleep(PORT_POWER_DELAY)
            } else {
                DriverAction::Idle
            },
            HubState::PowerPort(i) => DriverAction::Control(
                port_request_spec(RequestCode::SetFeature, PORT_POWER, i),
            ),
            HubState::WaitPowerGood(_) => DriverAction::Sleep(
                (self.power_on_2_power_good as usize * 2) as usize,
            ),
            HubState::ClearConnectionChange(i) => DriverAction::Control(
                port_request_spec(RequestCode::ClearFeature, C_PORT_CONNECTION, i),
            ),
            HubState::GetPortStatus(i) => DriverAction::Control(
                SetupPacketRaw {
                    bm_request_type: 0xa3,
                    b_request: 0,
                    w_value: 0,
                    w_index: (i + 1) as u16,
                    w_length: 4,
                },
            ),
            HubState::Running => DriverAction::Idle,
        }
    }

    /// What the hub driver asks of the host next.
    pub fn action(&self) -> (a: DriverAction)
        requires
            self.wf(),
        ensures
            a == self.action_spec(),
    {
        match self.state {
            HubState::Addressed => DriverAction::Idle,
            HubState::GetConfig => DriverAction::Control(
                SetupPacketRaw::descriptor(DescriptorKind::Configuration, 0, 9),
            ),
            HubState::GetConfigAll(total) => DriverAction::Control(
                SetupPacketRaw::descriptor(DescriptorKind::Configuration, 0, total),
            ),
            HubState::SetConfig => {
                let config_value = match self.config_descriptor {
                    Some(c) => c.b_configuration_value,
                    None => 0,
                };
                DriverAction::Control(
                    SetupPacketRaw::new(
                        RequestDirection::HostToDevice,
                        RequestKind::Standard,
                        RequestRecipient::Device,
                        RequestCode::SetConfiguration,
                        w_value(config_value, 0),
                        0,
                        0,
                    ),
                )
            },
            HubState::RegisterHub => DriverAction::RegisterHub(self.address),
            HubState::GetHubDescriptor => {
                // 10100000B: device to host, class, device; 29H: hub descriptor
                let p = SetupPacketRaw::new(
                    RequestDirection::DeviceToHost,
                    RequestKind::Class,
                    RequestRecipient::Device,
                    RequestCode::GetDescriptor,
                    w_value(0, 0x29),
                    0,
                    crate::usb::descriptor::HUB_DESCRIPTOR_REQUEST_LEN,
                );
                DriverAction::Control(p)
            },
            HubState::InitPort(i) => if i < self.number_of_ports {
                DriverAction::Sleep(PORT_POWER_DELAY)
            } else {
                DriverAction::Idle
            },
            HubState::PowerPort(i) => DriverAction::Control(
                Self::port_request(RequestCode::SetFeature, PORT_POWER, i),
            ),
            HubState::WaitPowerGood(_) => DriverAction::Sleep(
                self.power_on_2_power_good as usize * 2,
            ),
            HubState::ClearConnectionChange(i) => DriverAction::Control(
                Self::port_request(RequestCode::ClearFeature, C_PORT_CONNECTION, i),
            ),
            HubState::GetPortStatus(i) => {
                // 10100011B: device to host, class, other
                let p = SetupPacketRaw::new(
                    RequestDirection::DeviceToHost,
                    RequestKind::Class,
                    RequestRecipient::Other,
                    RequestCode::GetStatus,
                    0,
                    i as u16 + 1,
                    4,
                );
                DriverAction::Control(p)
            },
            HubState::Running => DriverAction::Idle,
        }
    }

    fn port_request(code: RequestCode, feature: u8, port_index: u8) -> (p: SetupPacketRaw)
        ensures
            p == port_request_spec(code, feature, port_index),
    {
        SetupPacketRaw::new(
            RequestDirection::HostToDevice,
            RequestKind::Class,
            RequestRecipient::Other,
            code,
            w_value(feature, 0),
            port_index as u16 + 1,
            0,
        )
    }

    /// What a successful answer `data` needs: the lengths asked for, and a
    /// configuration that is a chain of descriptors with a configuration
    /// descriptor.
    pub open spec fn success_ok(&self, data: Seq<u8>) -> bool {
        match self.state {
            HubState::GetConfig => data.len() == 9,
            HubState::GetConfigAll(total) => {
                &&& data.len() == total
                &&& chain_ok(data, 0)
                &&& last_configuration(chain_from(data, 0)) is Some
            },
            HubState::GetHubDescriptor => data.len() >= 7,
            _ => true,
        }
    }

    /// The state after a successful answer `data`.
    pub open spec fn next_state_spec(&self, data: Seq<u8>) -> HubState {
        match self.state {
            HubState::Addressed => HubState::GetConfig,
            HubState::GetConfig => if le16(data[2], data[3]) > CONFIG_BUFFER_LEN {
                HubState::GetConfig
            } else {
                HubState::GetConfigAll(le16(data[2], data[3]))
            },
            HubState::GetConfigAll(_) => HubState::SetConfig,
            HubState::SetConfig => HubState::RegisterHub,
            HubState::RegisterHub => HubState::GetHubDescriptor,
            HubState::GetHubDescriptor => HubState::InitPort(0),
            HubState::InitPort(i) => if i < self.number_of_ports {
                HubState::PowerPort(i)
            } else {
                HubState::Running
            },
            HubState::PowerPort(i) => HubState::WaitPowerGood(i),
            HubState::WaitPowerGood(i) => HubState::ClearConnectionChange(i),
            HubState::ClearConnectionChange(i) => HubState::GetPortStatus(i),
            HubState::GetPortStatus(i) => HubState::InitPort((i + 1) as u8),
            HubState::Running => HubState::Running,
        }
    }

    /// `after` is what a successful answer `data` leaves of the hub: the next
    /// state (see `next_state_spec`), the last configuration descriptor once
    /// the whole configuration was read, the number of ports and the
    /// power-on delay once the hub descriptor was read, and everything else
    /// as it was.
    pub open spec fn success_leaves(&self, after: Self, data: Seq<u8>) -> bool {
        &&& after.wf()
        &&& after.state == self.next_state_spec(data)
        &&& after.address == self.address
        &&& after.ep0 == self.ep0
        &&& after.config_descriptor == if self.state is GetConfigAll {
            last_configuration(chain_from(data, 0))
        } else {
            self.config_descriptor
        }
        &&& (after.number_of_ports, after.power_on_2_power_good) == if self.state == HubState::GetHubDescriptor {
            (hub_descriptor_spec(data).b_nbr_ports, hub_descriptor_spec(data).b_pwr_on_2_pwr_good)
        } else {
            (self.number_of_ports, self.power_on_2_power_good)
        }
    }

    /// Whether `on_success` takes the answer `data` in the current state
    /// (see `success_ok`).
    pub fn answer_ok(&self, data: &[u8]) -> (b: bool)
        ensures
            b == self.success_ok(data@),
    {
        match self.state {
            HubState::GetConfig => data.len() == 9,
            HubState::GetConfigAll(total) => data.len() == total as usize && is_descriptor_chain(data)
                && last_configuration_in(data).is_some(),
            HubState::GetHubDescriptor => data.len() >= 7,
            _ => true,
        }
    }

    /// The action succeeded, answering `data` (empty for a request without
    /// a data stage).
    pub fn on_success(&mut self, data: &[u8]) -> (r: Result<(), TransferError>)
        requires
            old(self).wf(),
            old(self).success_ok(data@),
        ensures
            old(self).success_leaves(*final(self), data@),
            final(self).wf(),
            final(self).state == old(self).next_state_spec(data@),
            final(self).address == old(self).address,
            final(self).ep0 == old(self).ep0,
            r == if old(self).state == HubState::GetConfig && le16(data@[2], data@[3])
                > CONFIG_BUFFER_LEN {
                Err::<(), TransferError>(TransferError::Permanent("config descriptor too large"))
            } else {
                Ok(())
            },
            final(self).config_descriptor == if old(self).state is GetConfigAll {
                last_configuration(chain_from(data@, 0))
            } else {
                old(self).config_descriptor
            },
            (final(self).number_of_ports, final(self).power_on_2_power_good) == if old(
                self,
            ).state == HubState::GetHubDescriptor {
                (
                    hub_descriptor_spec(data@).b_nbr_ports,
                    hub_descriptor_spec(data@).b_pwr_on_2_pwr_good,
                )
            } else {
                (old(self).number_of_ports, old(self).power_on_2_power_good)
            },
    {
        match self.state {
            HubState::Addressed => {
                // nothing to do the first time
                self.state = HubState::GetConfig;
            },
            HubState::GetConfig => {
                let conf_desc = ConfigurationDescriptor::from_bytes(data);
                if conf_desc.w_total_length > CONFIG_BUFFER_LEN {
                    return Err(TransferError::Permanent("config descriptor too large"));
                }
                self.state = HubState::GetConfigAll(conf_desc.w_total_length);
            },
            HubState::GetConfigAll(_) => {
                let last = last_configuration_in(data);
                self.config_descriptor = last;
                self.state = HubState::SetConfig;
            },
            HubState::SetConfig => {
                self.state = HubState::RegisterHub;
            },
            HubState::RegisterHub => {
                self.state = HubState::GetHubDescriptor;
            },
            HubState::GetHubDescriptor => {
                let hub_descriptor = HubDescriptor::from_bytes(data);
                self.number_of_ports = hub_descriptor.b_nbr_ports;
                self.power_on_2_power_good = hub_descriptor.b_pwr_on_2_pwr_good;
                self.state = HubState::InitPort(0);
            },
            HubState::InitPort(i) => {
                if i < self.number_of_ports {
                    self.state = HubState::PowerPort(i);
                } else {
                    // all ports initialized
                    self.state = HubState::Running;
                }
            },
            HubState::PowerPort(i) => {
                self.state = HubState::WaitPowerGood(i);
            },
            HubState::WaitPowerGood(i) => {
                self.state = HubState::ClearConnectionChange(i);
            },
            HubState::ClearConnectionChange(i) => {
                self.state = HubState::GetPortStatus(i);
            },
            HubState::GetPortStatus(i) => {
                // connected or not, go on with the next port
                self.state = HubState::InitPort(i + 1);
            },
            HubState::Running => {},
        }
        Ok(())
    }

    /// The state after the action failed: the steps of one port start over
    /// from its power-on delay, reading the whole configuration starts over
    /// from its first 9 bytes, and any other step is tried again.
    pub open spec fn retry_state_spec(&self) -> HubState {
        match self.state {
            HubState::GetConfigAll(_) => HubState::GetConfig,
            HubState::PowerPort(i) => HubState::InitPort(i),
            HubState::WaitPowerGood(i) => HubState::InitPort(i),
            HubState::ClearConnectionChange(i) => HubState::InitPort(i),
            HubState::GetPortStatus(i) => HubState::InitPort(i),
            _ => self.state,
        }
    }

    /// The action failed with `e`, which is handed back.
    pub fn on_failure(&mut self, e: TransferError) -> (r: Result<(), TransferError>)
        requires
            old(self).wf(),
        ensures
            final(self).wf(),
            final(self).state == old(self).retry_state_spec(),
            final(self).address == old(self).address,
            final(self).ep0 == old(self).ep0,
            final(self).config_descriptor == old(self).config_descriptor,
            final(self).number_of_ports == old(self).number_of_ports,
            final(self).power_on_2_power_good == old(self).power_on_2_power_good,
            r == Err::<(), TransferError>(e),
    {
        match self.state {
            HubState::GetConfigAll(_) => {
                self.state = HubState::GetConfig;
            },
            HubState::PowerPort(i) => {
                self.state = HubState::InitPort(i);
            },
            HubState::WaitPowerGood(i) => {
                self.state = HubState::InitPort(i);
            },
            HubState::ClearConnectionChange(i) => {
                self.state = HubState::InitPort(i);
            },
            HubState::GetPortStatus(i) => {
                self.state = HubState::InitPort(i);
            },
            _ => {},
        }
        Err(e)
    }
}

/// How far a hub is through its bring-up: the configuration steps, then
/// five steps for each port, then `Running`.
pub open spec fn hub_progress(s: HubState) -> nat {
    match s {
        HubState::Addressed => 0,
        HubState::GetConfig => 1,
        HubState::GetConfigAll(_) => 2,
        HubState::SetConfig => 3,
        HubState::RegisterHub => 4,
        HubState::GetHubDescriptor => 5,
        HubState::InitPort(i) => (6 + 5 * i) as nat,
        HubState::PowerPort(i) => (7 + 5 * i) as nat,
        HubState::WaitPowerGood(i) => (8 + 5 * i) as nat,
        HubState::ClearConnectionChange(i) => (9 + 5 * i) as nat,
        HubState::GetPortStatus(i) => (10 + 5 * i) as nat,
        HubState::Running => 6 + 5 * 256,
    }
}

/// A hub whose request succeeded moves strictly closer to `Running`, unless
/// it runs already or its configuration is too long; a failed request never
/// moves it forward.
pub proof fn lemma_hub_progress(h: HubDevice, data: Seq<u8>)
    requires
        h.wf(),
        h.success_ok(data),
    ensures
        hub_progress(h.next_state_spec(data)) >= hub_progress(h.state),
        h.state != HubState::Running && !(h.state == HubState::GetConfig && le16(data[2], data[3])
            > CONFIG_BUFFER_LEN) ==> hub_progress(h.next_state_spec(data)) > hub_progress(h.state),
        hub_progress(h.retry_state_spec()) <= hub_progress(h.state),
{
}

/// Every one of the first `n` steps of `hs` is a successful answer (`hs[i + 1]`
/// being what `answers[i]` leaves of `hs[i]`).
pub open spec fn hub_steps(hs: Seq<HubDevice>, answers: Seq<Seq<u8>>, n: int) -> bool {
    forall|i: int| 0 <= i < n ==> #[trigger] hs[i].success_ok(answers[i]) && hs[i].success_leaves(hs[i + 1], answers[i])
}

/// With every request answered as asked, a hub that was just addressed is
/// brought up as the original's state machine does: it reads the 9-byte
/// head of its configuration and then all of it, keeping the last
/// configuration descriptor, sets the configuration, registers as a hub,
/// reads its hub descriptor and takes its number of ports; then each port,
/// one after the other, is powered, waited for, has its connection change
/// cleared and its status read (five steps, starting at `hs[6 + 5 * p]` for
/// port `p`); after the last port the hub runs.
pub proof fn lemma_hub_bring_up(hs: Seq<HubDevice>, answers: Seq<Seq<u8>>)
    requires
        hs.len() >= 8,
        answers.len() == hs.len() - 1,
        hs[0].wf(),
        hs[0].state == HubState::Addressed,
        hub_steps(hs, answers, hs.len() - 1),
        le16(answers[1][2], answers[1][3]) <= CONFIG_BUFFER_LEN,
        hs.len() == 8 + 5 * hub_descriptor_spec(answers[5]).b_nbr_ports,
    ensures
        hs[1].state == HubState::GetConfig,
        hs[2].state == HubState::GetConfigAll(le16(answers[1][2], answers[1][3])),
        hs[3].state == HubState::SetConfig,
        hs[3].config_descriptor == last_configuration(chain_from(answers[2], 0)),
        hs[4].state == HubState::RegisterHub,
        hs[5].state == HubState::GetHubDescriptor,
        forall|p: int| 0 <= p <= hub_descriptor_spec(answers[5]).b_nbr_ports ==> {
            &&& #[trigger] hs[6 + 5 * p].state == HubState::InitPort(p as u8)
            &&& hs[6 + 5 * p].number_of_ports == hub_descriptor_spec(answers[5]).b_nbr_ports
        },
        forall|p: int| 0 <= p < hub_descriptor_spec(answers[5]).b_nbr_ports ==> {
            &&& #[trigger] hs[7 + 5 * p].state == HubState::PowerPort(p as u8)
            &&& hs[8 + 5 * p].state == HubState::WaitPowerGood(p as u8)
            &&& hs[9 + 5 * p].state == HubState::ClearConnectionChange(p as u8)
            &&& hs[10 + 5 * p].state == HubState::GetPortStatus(p as u8)
        },
        hs.last().state == HubState::Running,
{
    let n = hub_descriptor_spec(answers[5]).b_nbr_ports as int;
    let last = hs.len() - 1;
    assert(hs[0].success_ok(answers[0]));
    assert(hs[1].success_ok(answers[1]));
    assert(hs[2].success_ok(answers[2]));
    assert(hs[3].success_ok(answers[3]));
    assert(hs[4].success_ok(answers[4]));
    assert(hs[5].success_ok(answers[5]));
    assert forall|p: int| 0 <= p <= n implies {
        &&& #[trigger] hs[6 + 5 * p].state == HubState::InitPort(p as u8)
        &&& hs[6 + 5 * p].number_of_ports == n
    } by {
        lemma_hub_ports(hs, answers, p);
    }
    assert forall|p: int| 0 <= p < n implies {
        &&& #[trigger] hs[7 + 5 * p].state == HubState::PowerPort(p as u8)
        &&& hs[8 + 5 * p].state == HubState::WaitPowerGood(p as u8)
        &&& hs[9 + 5 * p].state == HubState::ClearConnectionChange(p as u8)
        &&& hs[10 + 5 * p].state == HubState::GetPortStatus(p as u8)
    } by {
        lemma_hub_ports(hs, answers, p);
        lemma_hub_port_steps(hs, answers, p);
    }
    lemma_hub_ports(hs, answers, n);
    assert(hs[6 + 5 * n].success_ok(answers[6 + 5 * n]));
    assert(6 + 5 * n + 1 == last);
}

/// The port steps of `lemma_hub_bring_up`: the hub stands at port `p` after
/// the first `6 + 5 * p` steps.
proof fn lemma_hub_ports(hs: Seq<HubDevice>, answers: Seq<Seq<u8>>, p: int)
    requires
        hs.len() >= 8,
        answers.len() == hs.len() - 1,
        hs[0].wf(),
        hs[0].state == HubState::Addressed,
        hub_steps(hs, answers, hs.len() - 1),
        le16(answers[1][2], answers[1][3]) <= CONFIG_BUFFER_LEN,
        hs.len() == 8 + 5 * hub_descriptor_spec(answers[5]).b_nbr_ports,
        0 <= p <= hub_descriptor_spec(answers[5]).b_nbr_ports,
    ensures
        hs[6 + 5 * p].state == HubState::InitPort(p as u8),
        hs[6 + 5 * p].number_of_ports == hub_descriptor_spec(answers[5]).b_nbr_ports,
    decreases p,
{
    if p == 0 {
        assert(hs[0].success_ok(answers[0]));
        assert(hs[1].success_ok(answers[1]));
        assert(hs[2].success_ok(answers[2]));
        assert(hs[3].success_ok(answers[3]));
        assert(hs[4].success_ok(answers[4]));
        assert(hs[5].success_ok(answers[5]));
    } else {
        lemma_hub_ports(hs, answers, p - 1);
        lemma_hub_port_steps(hs, answers, p - 1);
    }
}

/// The five steps of port `p`, from `InitPort(p)` to `InitPort(p + 1)`.
proof fn lemma_hub_port_steps(hs: Seq<HubDevice>, answers: Seq<Seq<u8>>, p: int)
    requires
        answers.len() == hs.len() - 1,
        hub_steps(hs, answers, hs.len() - 1),
        0 <= p,
        11 + 5 * p < hs.len(),
        p < hs[6 + 5 * p].number_of_ports,
        hs[6 + 5 * p].state == HubState::InitPort(p as u8),
    ensures
        hs[7 + 5 * p].state == HubState::PowerPort(p as u8),
        hs[8 + 5 * p].state == HubState::WaitPowerGood(p as u8),
        hs[9 + 5 * p].state == HubState::ClearConnectionChange(p as u8),
        hs[10 + 5 * p].state == HubState::GetPortStatus(p as u8),
        hs[11 + 5 * p].state == HubState::InitPort((p + 1) as u8),
        hs[11 + 5 * p].number_of_ports == hs[6 + 5 * p].number_of_ports,
{
    let b = 6 + 5 * p;
    assert(hs[b].success_ok(answers[b]));
    assert(hs[b + 1].success_ok(answers[b + 1]));
    assert(hs[b + 2].success_ok(answers[b + 2]));
    assert(hs[b + 3].success_ok(answers[b + 3]));
    assert(hs[b + 4].success_ok(answers[b + 4]));
}

/// The number of hubs the driver keeps.
pub const MAX_DEVICES: usize = 127;

/// The hubs being brought up or running, in a fixed table.
pub struct HubDriver {
    pub devices: Vec<Option<HubDevice>>,
}

/// The index of the first hub at address `address`, the table's length
/// when there is none.
pub open spec fn first_hub_with_address(s: Seq<Option<HubDevice>>, address: u8) -> int
    decreases s.len(),
{
    if s.len() == 0 {
        0
    } else if s[0] matches Some(d) && d.address == address {
        0
    } else {
        1 + first_hub_with_address(s.drop_first(), address)
    }
}

/// The slot is free or holds a running hub.
pub open spec fn slot_runs(slot: Option<HubDevice>) -> bool {
    slot matches Some(d) ==> d.state == HubState::Running
}

impl HubDriver {
    /// A driver with `MAX_DEVICES` free slots.
    pub fn new() -> (d: Self)
        ensures
            d.devices@ == Seq::new(MAX_DEVICES as nat, |i: int| None::<HubDevice>),
    {
        let mut devices: Vec<Option<HubDevice>> = Vec::new();
        let mut i: usize = 0;
        while i < MAX_DEVICES
            invariant
                i <= MAX_DEVICES,
                devices@ == Seq::new(i as nat, |j: int| None::<HubDevice>),
            decreases MAX_DEVICES - i,
        {
            devices.push(None);
            i = i + 1;
            assert(devices@ =~= Seq::new(i as nat, |j: int| None::<HubDevice>));
        }
        HubDriver { devices }
    }

    /// The driver takes any device offered.
    pub fn want_device(&self, _device: &DeviceDescriptor) -> (r: bool)
        ensures
            r,
    {
        true
    }

    /// Puts the hub at `address` into the first free slot; an error when
    /// none is free.
    pub fn add_device(&mut self, device: DeviceDescriptor, address: u8) -> (r: Result<(), DriverError>)
        ensures
            final(self).devices@.len() == old(self).devices@.len(),
            ({
                let i = first_free(old(self).devices@);
                if i < old(self).devices@.len() {
                    &&& r is Ok
                    &&& final(self).devices@[i] matches Some(h) && h.wf() && h.state
                        == HubState::Addressed && h.address == address && h.ep0.max_packet_size
                        == device.b_max_packet_size as u16 && h.config_descriptor is None
                    &&& forall|j: int|
                        0 <= j < old(self).devices@.len() && j != i ==> final(self).devices@[j]
                            == old(self).devices@[j]
                } else {
                    &&& r == Err::<(), DriverError>(DriverError::Permanent(address, "out of devices"))
                    &&& final(self).devices@ == old(self).devices@
                }
            }),
    {
        let i = find_free(&self.devices);
        if i < self.devices.len() {
            self.devices.set(i, Some(HubDevice::new(address, device.b_max_packet_size)));
            Ok(())
        } else {
            Err(DriverError::Permanent(address, "out of devices"))
        }
    }

    /// Frees the first slot that holds the hub at `address`, if any.
    pub fn remove_device(&mut self, address: u8)
        ensures
            final(self).devices@ == if first_hub_with_address(old(self).devices@, address) < old(
                self,
            ).devices@.len() {
                old(self).devices@.update(first_hub_with_address(old(self).devices@, address), None)
            } else {
                old(self).devices@
            },
    {
        let mut i: usize = 0;
        assert(self.devices@.skip(0) =~= self.devices@);
        while i < self.devices.len()
            invariant
                *self == *old(self),
                i <= self.devices@.len(),
                first_hub_with_address(self.devices@, address) == i + first_hub_with_address(
                    self.devices@.skip(i as int),
                    address,
                ),
            decreases self.devices@.len() - i,
        {
            assert(self.devices@.skip(i as int).drop_first() =~= self.devices@.skip(i + 1));
            let hit = match &self.devices[i] {
                Some(d) => d.address == address,
                None => false,
            };
            if hit {
                self.devices.set(i, None);
                return;
            }
            i = i + 1;
        }
        assert(self.devices@.skip(i as int) =~= Seq::<Option<HubDevice>>::empty());
    }

    /// Whether every hub in the table runs.
    pub fn all_running(&self) -> (r: bool)
        ensures
            r == forall|i: int| 0 <= i < self.devices@.len() ==> #[trigger] slot_runs(self.devices@[i]),
    {
        let mut i: usize = 0;
        while i < self.devices.len()
            invariant
                i <= self.devices@.len(),
                forall|j: int| 0 <= j < i ==> #[trigger] slot_runs(self.devices@[j]),
            decreases self.devices@.len() - i,
        {
            if let Some(d) = &self.devices[i] {
                if d.state != HubState::Running {
                    assert(!slot_runs(self.devices@[i as int]));
                    return false;
                }
            }
            i = i + 1;
        }
        true
    }
}

} // verus!
