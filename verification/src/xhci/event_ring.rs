//! The Event Ring (xHCI §4.9.4): the controller writes events with its cycle
//! state; software reads the TRB at the dequeue pointer while its Cycle bit
//! matches the consumer cycle state, and toggles that state each time the
//! dequeue pointer wraps around the segment.
use vstd::prelude::*;
use crate::bits::{mask32, u32_get_bits, u32_set_bits};
use crate::xhci::trb::{cycle_of, TrbRaw};
use xhci::ring::trb::event;

verus! {

/// Two double words make a 64-bit pointer.
proof fn lemma_pointer_words(hi: u64, lo: u64)
    by (bit_vector)
    requires
        hi <= 0xffff_ffff,
        lo <= 0xffff_ffff,
    ensures
        ((hi << 32u64) | lo) == hi * 0x1_0000_0000 + lo,
{
}

/// A 64-bit pointer splits into two double words.
proof fn lemma_split_pointer(address: u64)
    by (bit_vector)
    ensures
        ((address >> 32u64) as u32) as int * 0x1_0000_0000 + (address as u32) as int == address,
{
}

/// The fields of an event TRB's double words, as `bit_field` reads them.
proof fn lemma_event_fields(w: u32)
    by (bit_vector)
    ensures
        (w >> 0u32) & mask32(24) == w & 0xff_ffff,
        (w >> 0u32) & mask32(16) == w & 0xffff,
        w & 0xffff <= 0xffff,
        ((w >> 24u32) & mask32(8)) as u8 == (w >> 24u32) as u8,
        ((w >> 16u32) & mask32(5)) as u8 == ((w >> 16u32) & 0x1f) as u8,
{
}

/// Writing a half-word into the low half of a double word.
proof fn lemma_set_low_half(d: u32, v: u32)
    by (bit_vector)
    requires
        v <= 0xffff,
    ensures
        v <= mask32(16),
        ((d & !(mask32(16) << 0u32)) | (v << 0u32)) & 0xffff == v,
{
}


/// An entry of the Event Ring Segment Table (xHCI §6.5): the segment's base
/// address in double words 0 and 1, its size in TRBs in bits 0 to 15 of
/// double word 2.
#[derive(Debug)]
pub struct EventRingSegmentTableEntry {
    data: [u32; 4],
}

impl EventRingSegmentTableEntry {
    pub closed spec fn spec_data(&self) -> Seq<u32> {
        self.data@
    }

    /// The Ring Segment Base Address field.
    pub open spec fn base_spec(&self) -> int {
        self.spec_data()[1] as int * 0x1_0000_0000 + self.spec_data()[0] as int
    }

    /// The Ring Segment Size field.
    pub open spec fn size_spec(&self) -> int {
        (self.spec_data()[2] & 0xffff) as int
    }

    pub open spec fn wf(&self) -> bool {
        self.spec_data().len() == 4
    }

    /// The entry for a segment of `ring_segment_size` TRBs at
    /// `ring_segment_base_address` (64-byte aligned).
    pub fn new(ring_segment_base_address: u64, ring_segment_size: u16) -> (e: Self)
        requires
            ring_segment_base_address % 64 == 0,
        ensures
            e.wf(),
            e.base_spec() == ring_segment_base_address,
            e.size_spec() == ring_segment_size,
    {
        let mut entry = EventRingSegmentTableEntry { data: [0; 4] };
        entry.set_ring_segment_base_address(ring_segment_base_address);
        entry.set_ring_segment_size(ring_segment_size);
        entry
    }

    pub fn ring_segment_base_address(&self) -> (a: u64)
        requires
            self.wf(),
        ensures
            a == self.base_spec(),
    {
        let hi = self.data[1] as u64;
        let lo = self.data[0] as u64;
        let a = (hi << 32) | lo;
        proof {
            lemma_pointer_words(hi, lo);
        }
        a
    }

    /// Sets the base address, which must be 64-byte aligned.
    pub fn set_ring_segment_base_address(&mut self, address: u64)
        requires
            old(self).wf(),
            address % 64 == 0,
        ensures
            final(self).wf(),
            final(self).base_spec() == address,
            final(self).size_spec() == old(self).size_spec(),
    {
        let upper = (address >> 32) as u32;
        let lower = address as u32;
        proof {
            lemma_split_pointer(address);
        }
        // little endian
        self.data[1] = upper;
        self.data[0] = lower;
    }

    pub fn ring_segment_size(&self) -> (n: u16)
        requires
            self.wf(),
        ensures
            n == self.size_spec(),
    {
        let v = u32_get_bits(self.data[2], 0, 16);
        let d = self.data[2];
        proof {
            lemma_event_fields(d);
        }
        v as u16
    }

    pub fn set_ring_segment_size(&mut self, ring_segment_size: u16)
        requires
            old(self).wf(),
        ensures
            final(self).wf(),
            final(self).size_spec() == ring_segment_size,
            final(self).base_spec() == old(self).base_spec(),
    {
        let mut d = self.data[2];
        let v = ring_segment_size as u32;
        proof {
            lemma_set_low_half(self.data[2], v);
        }
        u32_set_bits(&mut d, 0, 16, v);

        self.data[2] = d;
    }
}

/// The event TRB types that the kernel handles.
#[derive(Clone, Copy, Debug, PartialEq, Eq, Structural)]
pub enum EventKind {
    TransferEvent,
    CommandCompletion,
    PortStatusChange,
    /// Bandwidth Request, Doorbell, Host Controller, Device Notification or
    /// MFINDEX Wrap.
    Other,
}

/// The event TRB type that the `xhci` crate reads in the double words `raw`,
/// `None` when they are not a valid event TRB.
pub uninterp spec fn event_kind_spec(raw: Seq<u32>) -> Option<EventKind>;

/// The TRB Type field: bits 10 to 15 of double word 3.
pub open spec fn trb_type(raw: Seq<u32>) -> u32 {
    (raw[3] >> 10u32) & 0x3f
}

/// `event::Allowed::try_from` of the `xhci` crate: it reads the TRB Type
/// field and checks the reserved bits of that type; the result's variant is
/// what this returns. Its result is named `event_kind_spec`; stated of it is
/// only the TRB Type (32, 33 and 34) of the three variants the kernel reads.
#[verifier::external_body]
fn event_kind(raw: [u32; 4]) -> (r: Option<EventKind>)
    ensures
        r == event_kind_spec(raw@),
        r == Some(EventKind::TransferEvent) ==> trb_type(raw@) == 32,
        r == Some(EventKind::CommandCompletion) ==> trb_type(raw@) == 33,
        r == Some(EventKind::PortStatusChange) ==> trb_type(raw@) == 34,
{
    match event::Allowed::try_from(raw) {
        Ok(event::Allowed::TransferEvent(_)) => Some(EventKind::TransferEvent),
        Ok(event::Allowed::CommandCompletion(_)) => Some(EventKind::CommandCompletion),
        Ok(event::Allowed::PortStatusChange(_)) => Some(EventKind::PortStatusChange),
        Ok(_) => Some(EventKind::Other),
        Err(_) => None,
    }
}

/// The fields of an event TRB that the kernel reads.
#[derive(Clone, Copy, Debug, PartialEq, Eq, Structural)]
pub enum EventTrb {
    TransferEvent {
        trb_pointer: u64,
        trb_transfer_length: u32,
        completion_code: u8,
        endpoint_id: u8,
        slot_id: u8,
    },
    CommandCompletion { command_trb_pointer: u64, completion_code: u8, slot_id: u8 },
    PortStatusChange { port_id: u8 },
    Other,
}

/// The 64-bit pointer in double words 0 and 1.
pub open spec fn pointer_field(raw: Seq<u32>) -> u64 {
    (raw[1] as int * 0x1_0000_0000 + raw[0] as int) as u64
}

/// The event that the double words `raw` hold, `None` for an invalid one.
pub open spec fn decode_event_spec(raw: Seq<u32>) -> Option<EventTrb> {
    match event_kind_spec(raw) {
        Some(EventKind::TransferEvent) => Some(
            EventTrb::TransferEvent {
                trb_pointer: pointer_field(raw),
                trb_transfer_length: raw[2] & 0xff_ffff,
                completion_code: (raw[2] >> 24u32) as u8,
                endpoint_id: ((raw[3] >> 16u32) & 0x1f) as u8,
                slot_id: (raw[3] >> 24u32) as u8,
            },
        ),
        Some(EventKind::CommandCompletion) => Some(
            EventTrb::CommandCompletion {
                command_trb_pointer: pointer_field(raw),
                completion_code: (raw[2] >> 24u32) as u8,
                slot_id: (raw[3] >> 24u32) as u8,
            },
        ),
        Some(EventKind::PortStatusChange) => Some(
            EventTrb::PortStatusChange { port_id: (raw[0] >> 24u32) as u8 },
        ),
        Some(EventKind::Other) => Some(EventTrb::Other),
        None => None,
    }
}

fn pointer_of(lo: u32, hi: u32) -> (p: u64)
    ensures
        p == hi as int * 0x1_0000_0000 + lo as int,
{
    let p = ((hi as u64) << 32) | (lo as u64);
    proof {
        lemma_pointer_words(hi as u64, lo as u64);
    }
    p
}

fn field(x: u32, lo: u32, hi: u32) -> (v: u8)
    requires
        lo < hi <= 32,
        hi - lo <= 8,
    ensures
        v == ((x >> lo) & mask32((hi - lo) as u32)) as u8,
{
    let v = u32_get_bits(x, lo, hi);
    v as u8
}

/// Decodes an event TRB.
pub fn decode_event(t: TrbRaw) -> (r: Option<EventTrb>)
    ensures
        r == decode_event_spec(t@),
{
    let raw = t.into_raw();
    match event_kind(raw) {
        Some(EventKind::TransferEvent) => {
            let len = u32_get_bits(raw[2], 0, 24);
            let code = field(raw[2], 24, 32);
            let ep = field(raw[3], 16, 21);
            let slot = field(raw[3], 24, 32);
            proof {
                lemma_event_fields(raw[2]);
                lemma_event_fields(raw[3]);
            }
            Some(
                EventTrb::TransferEvent {
                    trb_pointer: pointer_of(raw[0], raw[1]),
                    trb_transfer_length: len,
                    completion_code: code,
                    endpoint_id: ep,
                    slot_id: slot,
                },
            )
        },
        Some(EventKind::CommandCompletion) => {
            let code = field(raw[2], 24, 32);
            let slot = field(raw[3], 24, 32);
            proof {
                lemma_event_fields(raw[2]);
                lemma_event_fields(raw[3]);
            }
            Some(
                EventTrb::CommandCompletion {
                    command_trb_pointer: pointer_of(raw[0], raw[1]),
                    completion_code: code,
                    slot_id: slot,
                },
            )
        },
        Some(EventKind::PortStatusChange) => {
            let port = field(raw[0], 24, 32);
            proof {
                lemma_event_fields(raw[0]);
            }
            Some(EventTrb::PortStatusChange { port_id: port })
        },
        Some(EventKind::Other) => Some(EventTrb::Other),
        None => None,
    }
}

/// What a task waits for on the Event Ring.
#[derive(Clone, Copy, Debug, PartialEq, Eq, Structural)]
pub enum WaitKind {
    /// A Transfer Event of this slot.
    SlotId(u8),
    /// The Transfer Event of the TRB at this address.
    TrbPtr(u64),
    /// The Command Completion Event of the command at this address.
    CommandTrb(u64),
}

/// The event `e` is the one waited for.
pub open spec fn awaited(e: EventTrb, wait: WaitKind) -> bool {
    match wait {
        WaitKind::SlotId(s) => e matches EventTrb::TransferEvent { slot_id, .. } && slot_id == s,
        WaitKind::TrbPtr(p) => e matches EventTrb::TransferEvent { trb_pointer, .. }
            && trb_pointer == p,
        WaitKind::CommandTrb(p) => e matches EventTrb::CommandCompletion {
            command_trb_pointer,
            ..
        } && command_trb_pointer == p,
    }
}

/// The event awaited by each kind of wait: a Transfer Event of slot `s` for
/// `SlotId(s)`, the Transfer Event whose TRB pointer is `p` for `TrbPtr(p)`,
/// and the Command Completion Event of the command at `p` for
/// `CommandTrb(p)`; no other event.
pub proof fn lemma_awaited(e: EventTrb, wait: WaitKind)
    ensures
        wait matches WaitKind::SlotId(s) ==> (awaited(e, wait) <==> (e matches EventTrb::TransferEvent { slot_id, .. } && slot_id == s)),
        wait matches WaitKind::TrbPtr(p) ==> (awaited(e, wait) <==> (e matches EventTrb::TransferEvent { trb_pointer, .. } && trb_pointer == p)),
        wait matches WaitKind::CommandTrb(p) ==> (awaited(e, wait) <==> (e matches EventTrb::CommandCompletion { command_trb_pointer, .. } && command_trb_pointer == p)),
{
}

fn is_awaited(e: EventTrb, wait: WaitKind) -> (b: bool)
    ensures
        b == awaited(e, wait),
        wait matches WaitKind::TrbPtr(p) ==> (b <==> (e matches EventTrb::TransferEvent { trb_pointer, .. } && trb_pointer == p)),
        wait matches WaitKind::SlotId(s) ==> (b <==> (e matches EventTrb::TransferEvent { slot_id, .. } && slot_id == s)),
        wait matches WaitKind::CommandTrb(p) ==> (b <==> (e matches EventTrb::CommandCompletion { command_trb_pointer, .. } && command_trb_pointer == p)),
{
    match wait {
        WaitKind::SlotId(s) => match e {
            EventTrb::TransferEvent { slot_id, .. } => slot_id == s,
            _ => false,
        },
        WaitKind::TrbPtr(p) => match e {
            EventTrb::TransferEvent { trb_pointer, .. } => trb_pointer == p,
            _ => false,
        },
        WaitKind::CommandTrb(p) => match e {
            EventTrb::CommandCompletion { command_trb_pointer, .. } => command_trb_pointer == p,
            _ => false,
        },
    }
}

/// The outcome of one look at the Event Ring.
#[derive(Clone, Copy, Debug, PartialEq, Eq, Structural)]
pub enum WaitPoll {
    Pending,
    Ready(EventTrb),
}

/// The consumer side of the Event Ring, with a stack of events that were
/// taken off the ring while another event was awaited.
pub struct EventRing {
    popped: Vec<TrbRaw>,
    cycle_bit: bool,
    segment_base: u64,
    segment_size: u16,
}

impl EventRing {
    pub closed spec fn spec_popped(&self) -> Seq<Seq<u32>> {
        self.popped@.map_values(|t: TrbRaw| t@)
    }

    pub closed spec fn spec_cycle_bit(&self) -> bool {
        self.cycle_bit
    }

    pub closed spec fn spec_segment_base(&self) -> u64 {
        self.segment_base
    }

    pub closed spec fn spec_segment_size(&self) -> u16 {
        self.segment_size
    }

    /// The address just past the segment.
    pub open spec fn segment_end(&self) -> int {
        self.spec_segment_base() + 16 * self.spec_segment_size()
    }

    pub open spec fn wf(&self) -> bool {
        &&& self.spec_segment_base() % 64 == 0
        &&& self.spec_segment_size() >= 1
        &&& self.segment_end() <= u64::MAX
    }

    /// A dequeue pointer on a TRB of the segment.
    pub open spec fn on_segment(&self, dequeue_pointer: u64) -> bool {
        &&& self.spec_segment_base() <= dequeue_pointer < self.segment_end()
        &&& (dequeue_pointer - self.spec_segment_base()) % 16 == 0
    }

    /// An empty ring over the segment of `segment_size` TRBs at
    /// `segment_base`, consumer cycle state 1.
    pub fn new(segment_base: u64, segment_size: u16) -> (r: Self)
        requires
            segment_base % 64 == 0,
            segment_size >= 1,
            segment_base + 16 * segment_size <= u64::MAX,
        ensures
            r.wf(),
            r.spec_popped() == Seq::<Seq<u32>>::empty(),
            r.spec_cycle_bit(),
            r.spec_segment_base() == segment_base,
            r.spec_segment_size() == segment_size,
    {
        let r = EventRing { popped: Vec::new(), cycle_bit: true, segment_base, segment_size };
        assert(r.spec_popped() =~= Seq::<Seq<u32>>::empty());
        r
    }

    /// The Event Ring Segment Table entry that describes the segment.
    pub fn segment_table_entry(&self) -> (e: EventRingSegmentTableEntry)
        requires
            self.wf(),
        ensures
            e.wf(),
            e.base_spec() == self.spec_segment_base(),
            e.size_spec() == self.spec_segment_size(),
    {
        EventRingSegmentTableEntry::new(self.segment_base, self.segment_size)
    }

    pub fn cycle_bit(&self) -> (b: bool)
        ensures
            b == self.spec_cycle_bit(),
    {
        self.cycle_bit
    }

    /// Keeps an event that was taken off the ring for later.
    pub fn push(&mut self, trb: TrbRaw)
        ensures
            final(self).spec_popped() == old(self).spec_popped().push(trb@),
            final(self).spec_cycle_bit() == old(self).spec_cycle_bit(),
            final(self).spec_segment_base() == old(self).spec_segment_base(),
            final(self).spec_segment_size() == old(self).spec_segment_size(),
    {
        self.popped.push(trb);
        assert(self.spec_popped() =~= old(self).spec_popped().push(trb@));
    }

    /// The event kept last, `None` when none is kept.
    pub fn pop_already_popped(&mut self) -> (r: Option<TrbRaw>)
        ensures
            final(self).spec_cycle_bit() == old(self).spec_cycle_bit(),
            final(self).spec_segment_base() == old(self).spec_segment_base(),
            final(self).spec_segment_size() == old(self).spec_segment_size(),
            old(self).spec_popped().len() == 0 ==> r is None && final(self).spec_popped()
                == old(self).spec_popped(),
            old(self).spec_popped().len() > 0 ==> (r matches Some(t) && t@ == old(
                self,
            ).spec_popped().last()) && final(self).spec_popped() == old(
                self,
            ).spec_popped().drop_last(),
    {
        let r = self.popped.pop();
        assert(self.spec_popped() =~= if old(self).spec_popped().len() > 0 {
            old(self).spec_popped().drop_last()
        } else {
            old(self).spec_popped()
        });
        r
    }

    /// Whether events are kept.
    pub fn pending_already_popped_queue(&self) -> (b: bool)
        ensures
            b == (self.spec_popped().len() > 0),
    {
        self.popped.len() > 0
    }

    /// The TRB `front` at the dequeue pointer is an event the controller
    /// wrote, not yet read: its Cycle bit is the consumer cycle state.
    pub fn has_front(&self, front: &TrbRaw) -> (b: bool)
        ensures
            b == (cycle_of(front@) == self.spec_cycle_bit()),
    {
        front.cycle_bit() == self.cycle_bit
    }

    /// The dequeue pointer after reading the TRB at `dequeue_pointer`: the
    /// next TRB, or the start of the segment (toggling the consumer cycle
    /// state) after its last one.
    pub fn pop(&mut self, dequeue_pointer: u64) -> (next: u64)
        requires
            old(self).wf(),
            old(self).on_segment(dequeue_pointer),
        ensures
            final(self).wf(),
            final(self).on_segment(next),
            final(self).spec_popped() == old(self).spec_popped(),
            final(self).spec_segment_base() == old(self).spec_segment_base(),
            final(self).spec_segment_size() == old(self).spec_segment_size(),
            if dequeue_pointer + 16 == old(self).segment_end() {
                next == old(self).spec_segment_base() && final(self).spec_cycle_bit() == !old(
                    self,
                ).spec_cycle_bit()
            } else {
                next == dequeue_pointer + 16 && final(self).spec_cycle_bit() == old(
                    self,
                ).spec_cycle_bit()
            },
    {
        let segment_end = self.segment_base + 16 * (self.segment_size as u64);
        let next = dequeue_pointer + 16;
        if next == segment_end {
            // reached the end of the segment
            self.cycle_bit = !self.cycle_bit;
            self.segment_base
        } else {
            next
        }
    }

    /// One look at the Event Ring for the event `wait`: `front` is the TRB
    /// at `dequeue_pointer`. No event there leaves everything as it is.
    /// Otherwise the TRB is read (the dequeue pointer moves on, see `pop`):
    /// the awaited event is returned, another valid event is kept for later
    /// and an invalid TRB is dropped.
    pub fn poll_wait(&mut self, front: TrbRaw, dequeue_pointer: u64, wait: WaitKind) -> (r: (
        WaitPoll,
        u64,
    ))
        requires
            old(self).wf(),
            old(self).on_segment(dequeue_pointer),
        ensures
            final(self).wf(),
            final(self).spec_segment_base() == old(self).spec_segment_base(),
            final(self).spec_segment_size() == old(self).spec_segment_size(),
            cycle_of(front@) != old(self).spec_cycle_bit() ==> r == (WaitPoll::Pending, dequeue_pointer)
                && final(self).spec_popped() == old(self).spec_popped()
                && final(self).spec_cycle_bit() == old(self).spec_cycle_bit(),
            cycle_of(front@) == old(self).spec_cycle_bit() ==> {
                &&& final(self).on_segment(r.1)
                &&& if dequeue_pointer + 16 == old(self).segment_end() {
                    r.1 == old(self).spec_segment_base() && final(self).spec_cycle_bit() == !old(
                        self,
                    ).spec_cycle_bit()
                } else {
                    r.1 == dequeue_pointer + 16 && final(self).spec_cycle_bit() == old(
                        self,
                    ).spec_cycle_bit()
                }
                &&& match decode_event_spec(front@) {
                    Some(e) => if awaited(e, wait) {
                        r.0 == WaitPoll::Ready(e) && final(self).spec_popped() == old(
                            self,
                        ).spec_popped()
                    } else {
                        r.0 == WaitPoll::Pending && final(self).spec_popped() == old(
                            self,
                        ).spec_popped().push(front@)
                    },
                    None => r.0 == WaitPoll::Pending && final(self).spec_popped() == old(
                        self,
                    ).spec_popped(),
                }
            },
            r.0 matches WaitPoll::Ready(e) ==> {
                &&& decode_event_spec(front@) == Some(e)
                &&& wait matches WaitKind::TrbPtr(p) ==> e matches EventTrb::TransferEvent { trb_pointer, .. } && trb_pointer == p
                &&& wait matches WaitKind::SlotId(s) ==> e matches EventTrb::TransferEvent { slot_id, .. } && slot_id == s
                &&& wait matches WaitKind::CommandTrb(p) ==> e matches EventTrb::CommandCompletion { command_trb_pointer, .. } && command_trb_pointer == p
            },
    {
        if !self.has_front(&front) {
            // the Event Ring has no front
            return (WaitPoll::Pending, dequeue_pointer);
        }
        let next = self.pop(dequeue_pointer);
        match decode_event(front) {
            Some(e) => {
                if is_awaited(e, wait) {
                    (WaitPoll::Ready(e), next)
                } else {
                    self.push(front);
                    (WaitPoll::Pending, next)
                }
            },
            None => (WaitPoll::Pending, next),
        }
    }
}

} // verus!
