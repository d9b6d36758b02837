//! Which USB root-hub port is being configured, and how far each has got.
use vstd::prelude::*;
use crate::bits::u32_get_bit;

verus! {

/// How far the configuration of a root-hub port has got.
#[derive(Debug, Clone, Copy, PartialEq, Eq, PartialOrd, Ord, Structural)]
pub enum PortConfigPhase {
    NotConnected,
    WaitingAddressed,
    ResettingPort,
    EnablingSlot,
    AddressingDevice,
    InitializingDevice,
    ConfiguringEndpoints,
    Configured,
}

/// The number of root-hub ports tracked.
pub const N_PORTS: usize = 256;

/// The phase of every port, the one port (if any) that is being addressed
/// (only one port is addressed at a time), and the device slots that each
/// port's devices were given, in the order they were addressed.
#[derive(Debug, Clone)]
pub struct PortConfigureState {
    pub port_config_phase: Vec<PortConfigPhase>,
    pub addressing_port_index: Option<usize>,
    pub port_slot_ids: Vec<Vec<usize>>,
}

impl PortConfigureState {
    /// There is a phase and a list of slots for each of the `N_PORTS` ports
    /// and the addressed port is one of them.
    pub open spec fn wf(&self) -> bool {
        &&& self.port_config_phase@.len() == N_PORTS
        &&& self.port_slot_ids@.len() == N_PORTS
        &&& self.addressing_port_index matches Some(i) ==> i < N_PORTS
    }

    /// The slots of each port.
    pub open spec fn slot_ids(&self) -> Seq<Seq<usize>> {
        self.port_slot_ids@.map_values(|v: Vec<usize>| v@)
    }

    /// Every port not connected and holding no slot, none being addressed.
    pub fn new() -> (r: Self)
        ensures
            r.wf(),
            r.port_config_phase@ == Seq::new(N_PORTS as nat, |i: int| PortConfigPhase::NotConnected),
            r.addressing_port_index is None,
            r.slot_ids() == Seq::new(N_PORTS as nat, |i: int| Seq::<usize>::empty()),
    {
        let mut port_config_phase: Vec<PortConfigPhase> = Vec::new();
        let mut port_slot_ids: Vec<Vec<usize>> = Vec::new();
        let mut i: usize = 0;
        while i < N_PORTS
            invariant
                i <= N_PORTS,
                port_config_phase@.len() == i,
                port_slot_ids@.len() == i,
                forall|j: int| 0 <= j < i ==> port_config_phase@[j] == PortConfigPhase::NotConnected,
                forall|j: int| 0 <= j < i ==> (#[trigger] port_slot_ids@[j])@.len() == 0,
            decreases N_PORTS - i,
        {
            port_config_phase.push(PortConfigPhase::NotConnected);
            port_slot_ids.push(Vec::new());
            i = i + 1;
        }
        let r = Self { port_config_phase, addressing_port_index: None, port_slot_ids };
        assert(r.port_config_phase@ =~= Seq::new(N_PORTS as nat, |i: int| PortConfigPhase::NotConnected));
        assert forall|j: int| 0 <= j < N_PORTS implies #[trigger] r.slot_ids()[j] == Seq::<usize>::empty() by {
            assert(r.port_slot_ids@[j]@.len() == 0);
            assert(r.port_slot_ids@[j]@ =~= Seq::<usize>::empty());
        }
        assert(r.slot_ids() =~= Seq::new(N_PORTS as nat, |i: int| Seq::<usize>::empty()));
        r
    }

    /// The device addressed on `port_idx` was given slot `slot_id`: it joins
    /// the port's slots.
    pub fn record_slot(&mut self, port_idx: usize, slot_id: usize)
        requires
            old(self).wf(),
            port_idx < N_PORTS,
        ensures
            final(self).wf(),
            final(self).slot_ids() == old(self).slot_ids().update(
                port_idx as int,
                old(self).slot_ids()[port_idx as int].push(slot_id),
            ),
            final(self).port_config_phase == old(self).port_config_phase,
            final(self).addressing_port_index == old(self).addressing_port_index,
    {
        let mut slots = self.slots_at(port_idx);
        slots.push(slot_id);
        self.port_slot_ids.set(port_idx, slots);
        assert(self.slot_ids() =~= old(self).slot_ids().update(
            port_idx as int,
            old(self).slot_ids()[port_idx as int].push(slot_id),
        ));
    }

    /// The slots of `port_idx`, in the order they were recorded.
    pub fn slots_at(&self, port_idx: usize) -> (r: Vec<usize>)
        requires
            self.wf(),
            port_idx < N_PORTS,
        ensures
            r@ == self.slot_ids()[port_idx as int],
    {
        let slots = &self.port_slot_ids[port_idx];
        let mut r: Vec<usize> = Vec::new();
        let mut i: usize = 0;
        while i < slots.len()
            invariant
                i <= slots@.len(),
                r@ == slots@.take(i as int),
            decreases slots@.len() - i,
        {
            r.push(slots[i]);
            i = i + 1;
            assert(r@ =~= slots@.take(i as int));
        }
        assert(slots@.take(slots@.len() as int) =~= slots@);
        r
    }

    /// The number of ports tracked.
    pub fn len(&self) -> (r: usize)
        ensures
            r == self.port_config_phase@.len(),
    {
        self.port_config_phase.len()
    }

    /// No port is being addressed any more.
    pub fn clear_addressing_port_index(&mut self)
        ensures
            final(self).addressing_port_index is None,
            final(self).port_config_phase == old(self).port_config_phase,
            final(self).port_slot_ids == old(self).port_slot_ids,
    {
        self.addressing_port_index = None;
    }

    /// The port has a device (its phase is not `NotConnected`).
    pub fn is_connected(&self, port_idx: usize) -> (r: bool)
        requires
            port_idx < self.port_config_phase@.len(),
        ensures
            r == (self.port_config_phase@[port_idx as int] != PortConfigPhase::NotConnected),
    {
        self.port_config_phase[port_idx] != PortConfigPhase::NotConnected
    }

    pub fn port_phase_at(&self, port_idx: usize) -> (r: PortConfigPhase)
        requires
            port_idx < self.port_config_phase@.len(),
        ensures
            r == self.port_config_phase@[port_idx as int],
    {
        self.port_config_phase[port_idx]
    }

    pub fn set_port_phase_at(&mut self, port_idx: usize, phase: PortConfigPhase)
        requires
            port_idx < old(self).port_config_phase@.len(),
        ensures
            final(self).port_config_phase@ == old(self).port_config_phase@.update(port_idx as int, phase),
            final(self).addressing_port_index == old(self).addressing_port_index,
            final(self).port_slot_ids == old(self).port_slot_ids,
    {
        self.port_config_phase.set(port_idx, phase);
    }

    pub fn addressing_port(&self) -> (r: Option<usize>)
        ensures
            r == self.addressing_port_index,
    {
        self.addressing_port_index
    }

    /// The phase of the port being addressed.
    pub fn addressing_port_phase(&self) -> (r: Option<PortConfigPhase>)
        requires
            self.wf(),
        ensures
            r == match self.addressing_port_index {
                Some(i) => Some(self.port_config_phase@[i as int]),
                None => None,
            },
    {
        match self.addressing_port_index {
            Some(idx) => Some(self.port_config_phase[idx]),
            None => None,
        }
    }

    /// Sets the phase of the port being addressed, if any.
    pub fn set_addressing_port_phase(&mut self, phase: PortConfigPhase)
        requires
            old(self).wf(),
        ensures
            final(self).wf(),
            final(self).port_config_phase@ == match old(self).addressing_port_index {
                Some(i) => old(self).port_config_phase@.update(i as int, phase),
                None => old(self).port_config_phase@,
            },
            final(self).addressing_port_index == old(self).addressing_port_index,
            final(self).port_slot_ids == old(self).port_slot_ids,
    {
        match self.addressing_port_index {
            Some(idx) => self.port_config_phase.set(idx, phase),
            None => {},
        }
    }

    /// Starts addressing `port_idx`: it becomes the addressed port, in phase
    /// `ResettingPort`.
    pub fn start_configuration_at(&mut self, port_idx: usize)
        requires
            old(self).wf(),
            port_idx < N_PORTS,
        ensures
            final(self).wf(),
            final(self).addressing_port_index == Some(port_idx),
            final(self).port_config_phase@ == old(self).port_config_phase@.update(port_idx as int, PortConfigPhase::ResettingPort),
            final(self).port_slot_ids == old(self).port_slot_ids,
    {
        self.addressing_port_index = Some(port_idx);
        self.port_config_phase.set(port_idx, PortConfigPhase::ResettingPort);
    }
}


/// What the driver does about a port-status-change event.
#[derive(Debug, Clone, Copy, PartialEq, Eq, Structural)]
pub enum PortStatusChangeAction {
    /// Reset the port, then ask for a device slot.
    ResetPortAndEnableSlot,
    /// The port was reset already: ask for a device slot.
    EnableSlot,
    /// Another port is being addressed: put the event back for later.
    Requeue,
    /// The device went away: tear its slots down.
    ResetConnection,
    /// Nothing to do.
    Nothing,
}

/// What the driver does before resetting a port.
#[derive(Debug, Clone, Copy, PartialEq, Eq, Structural)]
pub enum ResetClaim {
    /// This port is the one being addressed now: reset it.
    Proceed,
    /// Another port is being addressed: this one waits.
    Deferred,
    /// The port is in a phase from which it cannot be reset.
    InvalidPhase,
}

/// A command completed for a port that is not in the phase the command
/// belongs to.
#[derive(Debug, Clone, Copy, PartialEq, Eq)]
pub struct InvalidPhase;

/// The first port in phase `WaitingAddressed`, or the number of ports.
pub open spec fn first_waiting(phases: Seq<PortConfigPhase>) -> int
    decreases phases.len(),
{
    if phases.len() == 0 {
        0
    } else if phases[0] == PortConfigPhase::WaitingAddressed {
        0
    } else {
        1 + first_waiting(phases.drop_first())
    }
}

proof fn lemma_first_waiting(phases: Seq<PortConfigPhase>, i: int)
    requires
        0 <= i <= phases.len(),
        forall|j: int| 0 <= j < i ==> phases[j] != PortConfigPhase::WaitingAddressed,
        i < phases.len() ==> phases[i] == PortConfigPhase::WaitingAddressed,
    ensures
        first_waiting(phases) == i,
    decreases phases.len(),
{
    if phases.len() > 0 && i > 0 {
        lemma_first_waiting(phases.drop_first(), i - 1);
    }
}

impl PortConfigureState {
    /// Decides what a port-status-change event on `port_idx` leads to, given
    /// whether a device is connected now:
    /// - `NotConnected`: reset the port when no other port is being
    ///   addressed, else the port waits;
    /// - `ResettingPort`: ask for a slot when the port is (or becomes) the
    ///   addressed one, else the port waits;
    /// - `WaitingAddressed`: when no port is being addressed, this one becomes
    ///   the addressed port (back to `NotConnected`) and is reset; else the
    ///   event is put back;
    /// - any later phase: a disconnection tears the device down.
    pub fn on_port_status_change(&mut self, port_idx: usize, connecting: bool) -> (action: PortStatusChangeAction)
        requires
            old(self).wf(),
            port_idx < N_PORTS,
        ensures
            final(self).wf(),
            final(self).port_slot_ids == old(self).port_slot_ids,
            ({
                let phase = old(self).port_config_phase@[port_idx as int];
                let addressing = old(self).addressing_port_index;
                let phases = old(self).port_config_phase@;
                let free = addressing is None || addressing == Some(port_idx);
                match phase {
                    PortConfigPhase::NotConnected => if free {
                        action == PortStatusChangeAction::ResetPortAndEnableSlot && *final(self) == *old(self)
                    } else {
                        &&& action == PortStatusChangeAction::Nothing
                        &&& final(self).port_config_phase@ == phases.update(port_idx as int, PortConfigPhase::WaitingAddressed)
                        &&& final(self).addressing_port_index == addressing
                    },
                    PortConfigPhase::ResettingPort => if free {
                        &&& action == PortStatusChangeAction::EnableSlot
                        &&& final(self).port_config_phase@ == phases
                        &&& final(self).addressing_port_index == Some(port_idx)
                    } else {
                        &&& action == PortStatusChangeAction::Nothing
                        &&& final(self).port_config_phase@ == phases.update(port_idx as int, PortConfigPhase::WaitingAddressed)
                        &&& final(self).addressing_port_index == addressing
                    },
                    PortConfigPhase::WaitingAddressed => if addressing is None {
                        &&& action == PortStatusChangeAction::ResetPortAndEnableSlot
                        &&& final(self).port_config_phase@ == phases.update(port_idx as int, PortConfigPhase::NotConnected)
                        &&& final(self).addressing_port_index == Some(port_idx)
                    } else {
                        action == PortStatusChangeAction::Requeue && *final(self) == *old(self)
                    },
                    _ => {
                        &&& action == if connecting { PortStatusChangeAction::Nothing } else { PortStatusChangeAction::ResetConnection }
                        &&& *final(self) == *old(self)
                    },
                }
            }),
    {
        let phase = self.port_config_phase[port_idx];
        match phase {
            PortConfigPhase::NotConnected => {
                let can_process = self.addressing_port_index == Some(port_idx) || self.addressing_port_index.is_none();
                if can_process {
                    PortStatusChangeAction::ResetPortAndEnableSlot
                } else {
                    self.set_port_phase_at(port_idx, PortConfigPhase::WaitingAddressed);
                    PortStatusChangeAction::Nothing
                }
            },
            PortConfigPhase::ResettingPort => {
                if self.addressing_port_index == Some(port_idx) {
                    PortStatusChangeAction::EnableSlot
                } else if self.addressing_port_index.is_none() {
                    self.addressing_port_index = Some(port_idx);
                    PortStatusChangeAction::EnableSlot
                } else {
                    self.set_port_phase_at(port_idx, PortConfigPhase::WaitingAddressed);
                    PortStatusChangeAction::Nothing
                }
            },
            PortConfigPhase::WaitingAddressed => {
                if self.addressing_port_index.is_none() {
                    self.addressing_port_index = Some(port_idx);
                    self.set_port_phase_at(port_idx, PortConfigPhase::NotConnected);
                    PortStatusChangeAction::ResetPortAndEnableSlot
                } else {
                    PortStatusChangeAction::Requeue
                }
            },
            _ => {
                if !connecting {
                    PortStatusChangeAction::ResetConnection
                } else {
                    PortStatusChangeAction::Nothing
                }
            },
        }
    }

    /// Decides whether `port_idx`, whose device is connected with its
    /// connect-status-change bit set, may be reset now: it becomes (or stays)
    /// the addressed port when no other port is; otherwise it waits. A port
    /// that may proceed must be `NotConnected` or `WaitingAddressed`.
    pub fn claim_for_reset(&mut self, port_idx: usize) -> (claim: ResetClaim)
        requires
            old(self).wf(),
            port_idx < N_PORTS,
        ensures
            final(self).wf(),
            final(self).port_slot_ids == old(self).port_slot_ids,
            ({
                let addressing = old(self).addressing_port_index;
                let phase = old(self).port_config_phase@[port_idx as int];
                if addressing is None || addressing == Some(port_idx) {
                    &&& final(self).addressing_port_index == Some(port_idx)
                    &&& final(self).port_config_phase == old(self).port_config_phase
                    &&& claim == if phase == PortConfigPhase::NotConnected || phase == PortConfigPhase::WaitingAddressed {
                        ResetClaim::Proceed
                    } else {
                        ResetClaim::InvalidPhase
                    }
                } else {
                    &&& claim == ResetClaim::Deferred
                    &&& final(self).addressing_port_index == addressing
                    &&& final(self).port_config_phase@ == old(self).port_config_phase@.update(port_idx as int, PortConfigPhase::WaitingAddressed)
                }
            }),
    {
        if self.addressing_port_index == Some(port_idx) {
        } else if self.addressing_port_index.is_none() {
            self.addressing_port_index = Some(port_idx);
        } else {
            self.set_port_phase_at(port_idx, PortConfigPhase::WaitingAddressed);
            return ResetClaim::Deferred;
        }
        let phase = self.port_config_phase[port_idx];
        if phase == PortConfigPhase::NotConnected || phase == PortConfigPhase::WaitingAddressed {
            ResetClaim::Proceed
        } else {
            ResetClaim::InvalidPhase
        }
    }

    /// A slot was enabled: the port it was asked for is the addressed one,
    /// which must be in phase `EnablingSlot`.
    pub fn on_enable_slot_completed(&self) -> (r: Result<usize, InvalidPhase>)
        requires
            self.wf(),
        ensures
            r == match self.addressing_port_index {
                Some(i) => if self.port_config_phase@[i as int] == PortConfigPhase::EnablingSlot {
                    Ok(i)
                } else {
                    Err(InvalidPhase)
                },
                None => Err(InvalidPhase),
            },
    {
        match self.addressing_port_index {
            Some(idx) => {
                if self.port_config_phase[idx] == PortConfigPhase::EnablingSlot {
                    Ok(idx)
                } else {
                    Err(InvalidPhase)
                }
            },
            None => Err(InvalidPhase),
        }
    }

    /// The device on `port_index` got its address: that port must be the
    /// addressed one, in phase `AddressingDevice`. The addressing slot is
    /// released and the first waiting port, if any, is returned so that it
    /// can be reset next.
    pub fn on_address_device_completed(&mut self, port_index: usize) -> (r: Result<Option<usize>, InvalidPhase>)
        requires
            old(self).wf(),
        ensures
            final(self).wf(),
            final(self).port_slot_ids == old(self).port_slot_ids,
            ({
                let ok = old(self).addressing_port_index == Some(port_index)
                    && old(self).port_config_phase@[port_index as int] == PortConfigPhase::AddressingDevice;
                if ok {
                    let w = first_waiting(old(self).port_config_phase@);
                    &&& final(self).addressing_port_index is None
                    &&& final(self).port_config_phase == old(self).port_config_phase
                    &&& r == Ok::<Option<usize>, InvalidPhase>(if w < N_PORTS { Some(w as usize) } else { None::<usize> })
                } else {
                    r == Err::<Option<usize>, InvalidPhase>(InvalidPhase) && *final(self) == *old(self)
                }
            }),
    {
        if self.addressing_port_index != Some(port_index) {
            return Err(InvalidPhase);
        }
        if self.port_config_phase[port_index] != PortConfigPhase::AddressingDevice {
            return Err(InvalidPhase);
        }
        self.clear_addressing_port_index();
        let mut port_idx: usize = 0;
        while port_idx < self.len()
            invariant
                self.wf(),
                self.port_config_phase == old(self).port_config_phase,
                self.port_slot_ids == old(self).port_slot_ids,
                self.addressing_port_index is None,
                old(self).addressing_port_index == Some(port_index),
                old(self).port_config_phase@[port_index as int] == PortConfigPhase::AddressingDevice,
                port_idx <= N_PORTS,
                forall|j: int| 0 <= j < port_idx ==> self.port_config_phase@[j] != PortConfigPhase::WaitingAddressed,
            decreases N_PORTS - port_idx,
        {
            if self.port_phase_at(port_idx) == PortConfigPhase::WaitingAddressed {
                proof {
                    lemma_first_waiting(self.port_config_phase@, port_idx as int);
                }
                return Ok(Some(port_idx));
            }
            port_idx = port_idx + 1;
        }
        proof {
            lemma_first_waiting(self.port_config_phase@, port_idx as int);
        }
        Ok(None)
    }

    /// The device on `port_idx` is configured; no port is being addressed.
    pub fn on_device_initialized(&mut self, port_idx: usize)
        requires
            old(self).wf(),
            port_idx < N_PORTS,
        ensures
            final(self).wf(),
            final(self).port_config_phase@ == old(self).port_config_phase@.update(port_idx as int, PortConfigPhase::Configured),
            final(self).addressing_port_index is None,
            final(self).port_slot_ids == old(self).port_slot_ids,
    {
        self.set_port_phase_at(port_idx, PortConfigPhase::Configured);
        self.addressing_port_index = None;
    }

    /// The device on `port_idx` went away: the port is `NotConnected`, is no
    /// longer the addressed one and holds no slot any more; the slots it held
    /// are handed back, in the order they were recorded, to be disabled.
    pub fn reset_connection(&mut self, port_idx: usize) -> (slots: Vec<usize>)
        requires
            old(self).wf(),
            port_idx < N_PORTS,
        ensures
            final(self).wf(),
            final(self).port_config_phase@ == old(self).port_config_phase@.update(port_idx as int, PortConfigPhase::NotConnected),
            final(self).addressing_port_index == if old(self).addressing_port_index == Some(port_idx) {
                None
            } else {
                old(self).addressing_port_index
            },
            slots@ == old(self).slot_ids()[port_idx as int],
            final(self).slot_ids() == old(self).slot_ids().update(port_idx as int, Seq::<usize>::empty()),
    {
        if let Some(addressing_port_index) = self.addressing_port_index {
            if addressing_port_index == port_idx {
                self.addressing_port_index = None;
            }
        }
        self.set_port_phase_at(port_idx, PortConfigPhase::NotConnected);
        let slots = self.slots_at(port_idx);
        self.port_slot_ids.set(port_idx, Vec::new());
        assert(self.slot_ids() =~= old(self).slot_ids().update(port_idx as int, Seq::<usize>::empty()));
        slots
    }
}

/// PORTSC bits (xHCI §5.4.8): Current Connect Status (bit 0).
pub const PORTSC_CCS: u32 = 0x1;
/// Port Enabled/Disabled (bit 1, write 1 to clear).
pub const PORTSC_PED: u32 = 0x2;
/// Port Reset (bit 4, write 1 to set).
pub const PORTSC_PR: u32 = 0x10;
/// Port Power (bit 9).
pub const PORTSC_PP: u32 = 0x200;
/// Connect Status Change (bit 17, write 1 to clear).
pub const PORTSC_CSC: u32 = 0x2_0000;
/// Port Reset Change (bit 21, write 1 to clear).
pub const PORTSC_PRC: u32 = 0x20_0000;
/// The write-1-to-clear bits: PED, CSC, PEC, WRC, OCC, PRC, PLC and CEC.
pub const PORTSC_RW1C: u32 = 0x00fe_0002;

/// Bit `bit` of a PORTSC value.
pub open spec fn portsc_bit(portsc: u32, bit: u32) -> bool {
    portsc & (1u32 << bit) != 0
}

fn portsc_flag(portsc: u32, bit: u32) -> (b: bool)
    requires
        bit < 32,
    ensures
        b == portsc_bit(portsc, bit),
{
    u32_get_bit(portsc, bit)
}

/// A root-hub port and the value of its PORTSC register.
pub struct PortWrapper {
    pub port_idx: usize,
    pub portsc: u32,
}

impl PortWrapper {
    pub fn new(port_idx: usize, portsc: u32) -> (p: Self)
        ensures
            p.port_idx == port_idx,
            p.portsc == portsc,
    {
        PortWrapper { port_idx, portsc }
    }

    /// A device is connected (Current Connect Status).
    pub fn is_connected(&self) -> (b: bool)
        ensures
            b == portsc_bit(self.portsc, 0),
    {
        portsc_flag(self.portsc, 0)
    }

    /// The connect status changed since the bit was last cleared.
    pub fn connect_status_change(&self) -> (b: bool)
        ensures
            b == portsc_bit(self.portsc, 17),
    {
        portsc_flag(self.portsc, 17)
    }

    /// The port is in the Enabled state of the root hub port state machine
    /// (xHCI §4.19.1): powered, connected, enabled and not resetting.
    pub fn is_enabled(&self) -> (b: bool)
        ensures
            b == (portsc_bit(self.portsc, 9) && portsc_bit(self.portsc, 0) && portsc_bit(
                self.portsc,
                1,
            ) && !portsc_bit(self.portsc, 4)),
    {
        let flags = (
            portsc_flag(self.portsc, 9),
            portsc_flag(self.portsc, 0),
            portsc_flag(self.portsc, 1),
            portsc_flag(self.portsc, 4),
        );
        flags.0 && flags.1 && flags.2 && !flags.3
    }
}

/// What a write to PORTSC is for.
#[derive(Clone, Copy, Debug, PartialEq, Eq, Structural)]
pub enum PortWrite {
    /// Turn the port's power on.
    Power,
    /// Start a port reset.
    Reset,
    /// Clear Connect Status Change.
    ClearConnectStatusChange,
    /// Clear Port Reset Change.
    ClearPortResetChange,
}

/// The bit that a write sets.
pub open spec fn port_write_bit(w: PortWrite) -> u32 {
    match w {
        PortWrite::Power => PORTSC_PP,
        PortWrite::Reset => PORTSC_PR,
        PortWrite::ClearConnectStatusChange => PORTSC_CSC,
        PortWrite::ClearPortResetChange => PORTSC_PRC,
    }
}

/// The value to write to PORTSC, read as `portsc`, for `w`: every
/// write-1-to-clear bit written as 0, so that no change bit is cleared by
/// accident, and the bit of `w` set.
pub open spec fn port_write_value_spec(portsc: u32, w: PortWrite) -> u32 {
    (portsc & !PORTSC_RW1C) | port_write_bit(w)
}

/// The value to write to PORTSC for `w` (see `port_write_value_spec`).
pub fn port_write_value(portsc: u32, w: PortWrite) -> (v: u32)
    ensures
        v == port_write_value_spec(portsc, w),
{
    let bit = match w {
        PortWrite::Power => PORTSC_PP,
        PortWrite::Reset => PORTSC_PR,
        PortWrite::ClearConnectStatusChange => PORTSC_CSC,
        PortWrite::ClearPortResetChange => PORTSC_PRC,
    };
    (portsc & !PORTSC_RW1C) | bit
}

/// A PORTSC write clears no change bit but the one it is for, and keeps
/// every bit that is not write-1-to-clear.
pub proof fn lemma_port_write_value(portsc: u32, w: PortWrite)
    ensures
        port_write_value_spec(portsc, w) & PORTSC_RW1C & !port_write_bit(w) == 0,
        port_write_value_spec(portsc, w) & port_write_bit(w) == port_write_bit(w),
        port_write_value_spec(portsc, w) & !PORTSC_RW1C & !port_write_bit(w) == portsc
            & !PORTSC_RW1C & !port_write_bit(w),
{
    let b = port_write_bit(w);
    assert(b == 0x200 || b == 0x10 || b == 0x2_0000 || b == 0x20_0000);
    assert(forall|p: u32, b: u32|
        (b == 0x200 || b == 0x10 || b == 0x2_0000 || b == 0x20_0000) ==> {
            &&& ((p & !0x00fe_0002u32) | b) & 0x00fe_0002u32 & !b == 0
            &&& ((p & !0x00fe_0002u32) | b) & b == b
            &&& ((p & !0x00fe_0002u32) | b) & !0x00fe_0002u32 & !b == p & !0x00fe_0002u32 & !b
        }) by (bit_vector);
}

} // verus!
