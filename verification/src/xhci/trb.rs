//! Transfer Request Blocks (xHCI §4.11): four little-endian double words
//! whose bit 0 of the last one is the Cycle bit.
use vstd::prelude::*;
use crate::bits::{u32_get_bit, u32_set_bit};
use crate::usb::setup_packet::SetupPacketRaw;

verus! {

/// A TRB as the four double words that the controller reads.
#[derive(Clone, Copy, Debug)]
pub struct TrbRaw([u32; 4]);

impl View for TrbRaw {
    type V = Seq<u32>;

    closed spec fn view(&self) -> Seq<u32> {
        self.0@
    }
}

/// The Cycle bit of the TRB `t`.
pub open spec fn cycle_of(t: Seq<u32>) -> bool {
    t[3] & 1 != 0
}

/// The TRB `t` with its Cycle bit set to `c`.
pub open spec fn with_cycle(t: Seq<u32>, c: bool) -> Seq<u32> {
    t.update(
        3,
        if c {
            t[3] | 1
        } else {
            t[3] & !1u32
        },
    )
}

/// TRB type 6: Link.
pub const LINK_TYPE: u32 = 6;

/// A Link TRB (xHCI §6.4.4.1) to the segment at `segment` with Toggle Cycle
/// set and Cycle bit `c`: the pointer in the first two double words, the
/// type in bits 10 to 15 and Toggle Cycle in bit 1 of the last one.
pub open spec fn link_spec(segment: u64, c: bool) -> Seq<u32> {
    seq![
        (segment & 0xffff_ffff) as u32,
        (segment >> 32) as u32,
        0u32,
        ((LINK_TYPE << 10u32) | 2u32 | if c {
            1u32
        } else {
            0u32
        }) as u32,
    ]
}


/// TRB type 9: Enable Slot Command.
pub const ENABLE_SLOT_TYPE: u32 = 9;

/// TRB type 11: Address Device Command.
pub const ADDRESS_DEVICE_TYPE: u32 = 11;

/// TRB type 12: Configure Endpoint Command.
pub const CONFIGURE_ENDPOINT_TYPE: u32 = 12;

/// TRB type 13: Evaluate Context Command.
pub const EVALUATE_CONTEXT_TYPE: u32 = 13;

/// TRB type 1: Normal.
pub const NORMAL_TYPE: u32 = 1;

/// TRB type 2: Setup Stage.
pub const SETUP_STAGE_TYPE: u32 = 2;

/// TRB type 3: Data Stage.
pub const DATA_STAGE_TYPE: u32 = 3;

/// TRB type 4: Status Stage.
pub const STATUS_STAGE_TYPE: u32 = 4;

/// Transfer Type of a Setup Stage with no Data Stage.
pub const TRANSFER_TYPE_NO_DATA: u32 = 0;

/// Transfer Type of a Setup Stage followed by an IN Data Stage.
pub const TRANSFER_TYPE_IN: u32 = 3;

/// An Enable Slot Command TRB (xHCI §6.4.3.2) for Slot Type 0 with Cycle
/// bit 0: only the type is set.
pub open spec fn enable_slot_spec() -> Seq<u32> {
    seq![0u32, 0u32, 0u32, (ENABLE_SLOT_TYPE * 0x400) as u32]
}

/// TRB Type of a Disable Slot Command (xHCI §6.4.3.3).
pub const DISABLE_SLOT_TYPE: u32 = 10;

/// A Disable Slot Command TRB for slot `slot_id` with Cycle bit 0: the type in
/// bits 10 to 15 and the slot in bits 24 to 31 of the last double word.
pub open spec fn disable_slot_spec(slot_id: u8) -> Seq<u32> {
    seq![0u32, 0u32, 0u32, (DISABLE_SLOT_TYPE * 0x400 + slot_id * 0x100_0000) as u32]
}

/// A command TRB of type `trb_type` that points at the Input Context at
/// `input_context` for slot `slot_id`, with Cycle bit 0 and bit 9 (Block
/// Set Address Request or Deconfigure) 0: the pointer in the first two
/// double words, the type in bits 10 to 15 and the slot in bits 24 to 31 of
/// the last (xHCI §6.4.3.4, §6.4.3.5 and §6.4.3.6).
pub open spec fn input_context_command_spec(trb_type: u32, input_context: u64, slot_id: u8) -> Seq<
    u32,
> {
    seq![
        (input_context % 0x1_0000_0000) as u32,
        (input_context / 0x1_0000_0000) as u32,
        0u32,
        (trb_type * 0x400 + slot_id * 0x100_0000) as u32,
    ]
}

/// A Normal TRB (xHCI §6.4.1.1) for `length` bytes at `buffer` with
/// Interrupt-on Short Packet (bit 2) and Interrupt On Completion (bit 5), TD
/// Size 0, Interrupter Target 0 and Cycle bit 0.
pub open spec fn normal_spec(buffer: u64, length: u32) -> Seq<u32> {
    seq![
        (buffer % 0x1_0000_0000) as u32,
        (buffer / 0x1_0000_0000) as u32,
        length,
        (0x4 + 0x20 + NORMAL_TYPE * 0x400) as u32,
    ]
}

/// The double words `t` are a Normal TRB: its TRB Type is 1 and its
/// reserved bits (bits 7 and 8 and 16 to 31 of the last double word) are 0.
pub open spec fn is_normal_spec(t: Seq<u32>) -> bool {
    &&& (t[3] >> 10u32) & 0x3f == NORMAL_TYPE
    &&& t[3] & 0x180 == 0
    &&& t[3] >> 16u32 == 0
}

/// The TRB `cmd` with the data buffer of the TRB `existing`: its Data Buffer
/// Pointer (the first two double words) and its TRB Transfer Length (bits 0
/// to 16 of the third).
pub open spec fn with_buffer_of(cmd: Seq<u32>, existing: Seq<u32>) -> Seq<u32> {
    seq![existing[0], existing[1], (cmd[2] & !0x1_ffffu32) | (existing[2] & 0x1_ffffu32), cmd[3]]
}

/// A Setup Stage TRB (xHCI §6.4.1.2.1) that carries the eight bytes of
/// `p` as immediate data, with Transfer Type `transfer_type` and Cycle bit 0:
/// bmRequestType, bRequest and wValue in the first double word, wIndex and
/// wLength in the second, the length 8 in the third, and Immediate Data
/// (bit 6), the type (bits 10 to 15) and the Transfer Type (bits 16 and 17)
/// in the last.
pub open spec fn setup_stage_spec(p: SetupPacketRaw, transfer_type: u32) -> Seq<u32> {
    seq![
        (p.bm_request_type + p.b_request * 0x100 + p.w_value * 0x1_0000) as u32,
        (p.w_index + p.w_length * 0x1_0000) as u32,
        8u32,
        (0x40 + SETUP_STAGE_TYPE * 0x400 + transfer_type * 0x1_0000) as u32,
    ]
}

/// An IN Data Stage TRB (xHCI §6.4.1.2.2) for `length` bytes at `buffer`,
/// with Interrupt On Completion, TD Size 0 and Cycle bit 0: the pointer in
/// the first two double words, the length in the third, and Interrupt On
/// Completion (bit 5), the type and the direction IN (bit 16) in the last.
pub open spec fn data_stage_in_spec(buffer: u64, length: u32) -> Seq<u32> {
    seq![
        (buffer % 0x1_0000_0000) as u32,
        (buffer / 0x1_0000_0000) as u32,
        length,
        (0x20 + DATA_STAGE_TYPE * 0x400 + 0x1_0000) as u32,
    ]
}

/// A Status Stage TRB (xHCI §6.4.1.2.3) with Cycle bit 0, the direction IN
/// (bit 16) where `direction_in` holds and Interrupt On Completion (bit 5)
/// where `interrupt_on_completion` holds.
pub open spec fn status_stage_spec(direction_in: bool, interrupt_on_completion: bool) -> Seq<u32> {
    seq![
        0u32,
        0u32,
        0u32,
        (STATUS_STAGE_TYPE * 0x400 + (if interrupt_on_completion {
            0x20int
        } else {
            0
        }) + (if direction_in {
            0x1_0000int
        } else {
            0
        })) as u32,
    ]
}

impl TrbRaw {
    pub fn new_unchecked(raw: [u32; 4]) -> (t: Self)
        ensures
            t@ == raw@,
    {
        TrbRaw(raw)
    }

    /// The all-zero TRB.
    pub fn zeroed() -> (t: Self)
        ensures
            t@ == seq![0u32, 0u32, 0u32, 0u32],
    {
        let t = TrbRaw([0u32; 4]);
        assert(t@ =~= seq![0u32, 0u32, 0u32, 0u32]);
        t
    }

    pub fn into_raw(self) -> (raw: [u32; 4])
        ensures
            raw@ == self@,
    {
        self.0
    }

    pub fn cycle_bit(&self) -> (b: bool)
        ensures
            b == cycle_of(self@),
    {
        let b = u32_get_bit(self.0[3], 0);
        assert(1u32 << 0u32 == 1u32) by (bit_vector);
        b
    }

    /// Sets the Cycle bit to `c`.
    pub fn set_cycle_bit(&mut self, c: bool)
        ensures
            final(self)@ == with_cycle(old(self)@, c),
    {
        let mut w = self.0[3];
        u32_set_bit(&mut w, 0, c);
        assert(1u32 << 0u32 == 1u32) by (bit_vector);
        self.0[3] = w;
        assert(self@ =~= with_cycle(old(self)@, c));
    }

    /// Inverts the Cycle bit.
    pub fn toggle_cycle_bit(&mut self)
        ensures
            final(self)@ == with_cycle(old(self)@, !cycle_of(old(self)@)),
    {
        let c = self.cycle_bit();
        self.set_cycle_bit(!c);
    }

    /// Overwrites this TRB with `another`, double word by double word.
    pub fn write_in_order(&mut self, another: Self)
        ensures
            final(self)@ == another@,
    {
        let src = another.into_raw();
        let mut i: usize = 0;
        while i < 4
            invariant
                i <= 4,
                src@ == another@,
                forall|j: int| 0 <= j < i ==> self.0@[j] == src@[j],
            decreases 4 - i,
        {
            self.0[i] = src[i];
            i = i + 1;
        }
        assert(self@ =~= another@);
    }

    /// The Setup Stage TRB for the request `p` (see `setup_stage_spec`);
    /// `transfer_type` is one of the Transfer Types 0, 2 and 3.
    pub fn setup_stage(p: SetupPacketRaw, transfer_type: u32) -> (t: Self)
        requires
            transfer_type <= 3,
        ensures
            t@ == setup_stage_spec(p, transfer_type),
            !cycle_of(t@),
    {
        let rt = p.bm_request_type as u32;
        let rq = p.b_request as u32;
        let v = p.w_value as u32;
        let ix = p.w_index as u32;
        let ln = p.w_length as u32;
        let w0 = rt | (rq << 8) | (v << 16);
        let w1 = ix | (ln << 16);
        let w3 = (1u32 << 6) | (SETUP_STAGE_TYPE << 10) | (transfer_type << 16);
        assert(w0 == rt + rq * 0x100 + v * 0x1_0000 && w1 == ix + ln * 0x1_0000) by (bit_vector)
            requires
                rt < 0x100 && rq < 0x100 && v < 0x1_0000 && ix < 0x1_0000 && ln < 0x1_0000,
                w0 == rt | (rq << 8) | (v << 16),
                w1 == ix | (ln << 16),
        ;
        assert(w3 == 0x40 + SETUP_STAGE_TYPE * 0x400 + transfer_type * 0x1_0000 && w3 & 1 == 0)
            by (bit_vector)
            requires
                transfer_type <= 3,
                w3 == (1u32 << 6) | (SETUP_STAGE_TYPE << 10) | (transfer_type << 16),
        ;
        let t = TrbRaw([w0, w1, 8, w3]);
        assert(t@ =~= setup_stage_spec(p, transfer_type));
        t
    }

    /// The Enable Slot Command TRB of `enable_slot_spec`.
    pub fn enable_slot() -> (t: Self)
        ensures
            t@ == enable_slot_spec(),
            !cycle_of(t@),
    {
        let w3 = ENABLE_SLOT_TYPE * 0x400;
        assert(w3 & 1 == 0) by (bit_vector)
            requires
                w3 == 0x2400u32,
        ;
        let t = TrbRaw([0, 0, 0, w3]);
        assert(t@ =~= enable_slot_spec());
        t
    }

    /// The Disable Slot Command TRB of `disable_slot_spec`.
    pub fn disable_slot(slot_id: u8) -> (t: Self)
        ensures
            t@ == disable_slot_spec(slot_id),
            !cycle_of(t@),
    {
        let s = slot_id as u32;
        let w3 = (DISABLE_SLOT_TYPE << 10) | (s << 24);
        assert(w3 == 10 * 0x400 + s * 0x100_0000 && w3 & 1 == 0) by (bit_vector)
            requires
                s < 0x100,
                w3 == (10u32 << 10u32) | (s << 24u32),
        ;
        let t = TrbRaw([0, 0, 0, w3]);
        assert(t@ =~= disable_slot_spec(slot_id));
        t
    }

    /// A command TRB of `input_context_command_spec`; the Input Context
    /// pointer must be 16-byte aligned.
    fn input_context_command(trb_type: u32, input_context: u64, slot_id: u8) -> (t: Self)
        requires
            trb_type < 0x40,
            input_context % 16 == 0,
        ensures
            t@ == input_context_command_spec(trb_type, input_context, slot_id),
            !cycle_of(t@),
    {
        let lo = (input_context & 0xffff_ffff) as u32;
        let hi = (input_context >> 32) as u32;
        assert(lo == input_context % 0x1_0000_0000 && hi == input_context / 0x1_0000_0000) by (bit_vector)
            requires
                lo == (input_context & 0xffff_ffff) as u32,
                hi == (input_context >> 32) as u32,
        ;
        let s = slot_id as u32;
        let w3 = (trb_type << 10) | (s << 24);
        assert(w3 == trb_type * 0x400 + s * 0x100_0000 && w3 & 1 == 0) by (bit_vector)
            requires
                trb_type < 0x40,
                s < 0x100,
                w3 == (trb_type << 10) | (s << 24),
        ;
        let t = TrbRaw([lo, hi, 0, w3]);
        assert(t@ =~= input_context_command_spec(trb_type, input_context, slot_id));
        t
    }

    /// The Address Device Command TRB for slot `slot_id` with the Input
    /// Context at `input_context` (16-byte aligned).
    pub fn address_device(input_context: u64, slot_id: u8) -> (t: Self)
        requires
            input_context % 16 == 0,
        ensures
            t@ == input_context_command_spec(ADDRESS_DEVICE_TYPE, input_context, slot_id),
            !cycle_of(t@),
    {
        Self::input_context_command(ADDRESS_DEVICE_TYPE, input_context, slot_id)
    }

    /// The Configure Endpoint Command TRB for slot `slot_id` with the Input
    /// Context at `input_context` (16-byte aligned).
    pub fn configure_endpoint(input_context: u64, slot_id: u8) -> (t: Self)
        requires
            input_context % 16 == 0,
        ensures
            t@ == input_context_command_spec(CONFIGURE_ENDPOINT_TYPE, input_context, slot_id),
            !cycle_of(t@),
    {
        Self::input_context_command(CONFIGURE_ENDPOINT_TYPE, input_context, slot_id)
    }

    /// The Evaluate Context Command TRB for slot `slot_id` with the Input
    /// Context at `input_context` (16-byte aligned).
    pub fn evaluate_context(input_context: u64, slot_id: u8) -> (t: Self)
        requires
            input_context % 16 == 0,
        ensures
            t@ == input_context_command_spec(EVALUATE_CONTEXT_TYPE, input_context, slot_id),
            !cycle_of(t@),
    {
        Self::input_context_command(EVALUATE_CONTEXT_TYPE, input_context, slot_id)
    }

    /// The Normal TRB of `normal_spec`. The TRB Transfer Length field has 17
    /// bits.
    pub fn normal(buffer: u64, length: u32) -> (t: Self)
        requires
            length < 0x2_0000,
        ensures
            t@ == normal_spec(buffer, length),
            is_normal_spec(t@),
    {
        let lo = (buffer & 0xffff_ffff) as u32;
        let hi = (buffer >> 32) as u32;
        assert(lo == buffer % 0x1_0000_0000 && hi == buffer / 0x1_0000_0000) by (bit_vector)
            requires
                lo == (buffer & 0xffff_ffff) as u32,
                hi == (buffer >> 32) as u32,
        ;
        let w3 = (1u32 << 2) | (1u32 << 5) | (NORMAL_TYPE << 10);
        assert(w3 == 0x4 + 0x20 + NORMAL_TYPE * 0x400 && (w3 >> 10u32) & 0x3f == NORMAL_TYPE && w3
            & 0x180 == 0 && w3 >> 16u32 == 0) by (bit_vector)
            requires
                w3 == (1u32 << 2) | (1u32 << 5) | (NORMAL_TYPE << 10),
        ;
        let t = TrbRaw([lo, hi, length, w3]);
        assert(t@ =~= normal_spec(buffer, length));
        t
    }

    /// Whether this TRB is a Normal TRB (see `is_normal_spec`).
    pub fn is_normal(&self) -> (b: bool)
        ensures
            b == is_normal_spec(self@),
    {
        let w3 = self.0[3];
        (w3 >> 10) & 0x3f == NORMAL_TYPE && w3 & 0x180 == 0 && w3 >> 16 == 0
    }

    /// This TRB with the data buffer of `existing` (see `with_buffer_of`).
    pub fn with_buffer_of(self, existing: Self) -> (t: Self)
        ensures
            t@ == with_buffer_of(self@, existing@),
    {
        let len = existing.0[2] & 0x1_ffff;
        let w2 = (self.0[2] & !0x1_ffffu32) | len;
        let t = TrbRaw([existing.0[0], existing.0[1], w2, self.0[3]]);
        assert(t@ =~= with_buffer_of(self@, existing@));
        t
    }

    /// The IN Data Stage TRB for `length` bytes at `buffer` (see
    /// `data_stage_in_spec`). The TRB Transfer Length field has 17 bits.
    pub fn data_stage_in(buffer: u64, length: u32) -> (t: Self)
        requires
            length < 0x2_0000,
        ensures
            t@ == data_stage_in_spec(buffer, length),
            !cycle_of(t@),
    {
        let lo = (buffer & 0xffff_ffff) as u32;
        let hi = (buffer >> 32) as u32;
        assert(lo == buffer % 0x1_0000_0000 && hi == buffer / 0x1_0000_0000) by (bit_vector)
            requires
                lo == (buffer & 0xffff_ffff) as u32,
                hi == (buffer >> 32) as u32,
        ;
        let w3 = (1u32 << 5) | (DATA_STAGE_TYPE << 10) | (1u32 << 16);
        assert(w3 == 0x20 + DATA_STAGE_TYPE * 0x400 + 0x1_0000 && w3 & 1 == 0) by (bit_vector)
            requires
                w3 == (1u32 << 5) | (DATA_STAGE_TYPE << 10) | (1u32 << 16),
        ;
        let t = TrbRaw([lo, hi, length, w3]);
        assert(t@ =~= data_stage_in_spec(buffer, length));
        t
    }

    /// The Status Stage TRB of `status_stage_spec`.
    pub fn status_stage(direction_in: bool, interrupt_on_completion: bool) -> (t: Self)
        ensures
            t@ == status_stage_spec(direction_in, interrupt_on_completion),
            !cycle_of(t@),
    {
        let mut w3: u32 = STATUS_STAGE_TYPE * 0x400;
        if interrupt_on_completion {
            w3 = w3 + 0x20;
        }
        if direction_in {
            w3 = w3 + 0x1_0000;
        }
        assert(w3 & 1 == 0) by (bit_vector)
            requires
                w3 == 0x1000 || w3 == 0x1020 || w3 == 0x11000 || w3 == 0x11020,
        ;
        let t = TrbRaw([0, 0, 0, w3]);
        assert(t@ =~= status_stage_spec(direction_in, interrupt_on_completion));
        t
    }

    /// A Link TRB to `segment` (16-byte aligned) with Toggle Cycle set.
    pub fn link(segment: u64, c: bool) -> (t: Self)
        requires
            segment % 16 == 0,
        ensures
            t@ == link_spec(segment, c),
            cycle_of(t@) == c,
    {
        let lo = (segment & 0xffff_ffff) as u32;
        let hi = (segment >> 32) as u32;
        let cb: u32 = if c {
            1
        } else {
            0
        };
        let w3 = (LINK_TYPE << 10) | 2 | cb;
        assert(((LINK_TYPE << 10u32) | 2u32 | cb) & 1 != 0 <==> cb == 1u32) by (bit_vector)
            requires
                cb == 0 || cb == 1,
        ;
        let t = TrbRaw([lo, hi, 0, w3]);
        assert(t@ =~= link_spec(segment, c));
        t
    }
}

} // verus!
