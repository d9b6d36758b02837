//! Message Signalled Interrupts: the MSI capability of a PCI device and how
//! it is programmed.
use vstd::prelude::*;
use crate::bits::{u16_get_bit, u16_set_bit, u16_get_bits, u16_set_bits, u32_get_bits, u32_set_bits, mask16, mask32};
use crate::pci_register::{config_address, data_at, reads_at, appended, ConfigAccess, ConfigSpace, Configuration, PciDevice};

verus! {

/// Facts about single bits and the 3-bit fields of a 16-bit register.
proof fn lemma_u16_bits(d: u16)
    by (bit_vector)
    ensures
        (d | (1u16 << 8u16)) & (1u16 << 8u16) != 0,
        (d & !(1u16 << 8u16)) & (1u16 << 8u16) == 0,
        (d | (1u16 << 7u16)) & (1u16 << 7u16) != 0,
        (d & !(1u16 << 7u16)) & (1u16 << 7u16) == 0,
        (d >> 4u16) & mask16(3) < 8,
        (d >> 1u16) & mask16(3) < 8,
        mask16(3) == 7,
{
}

/// The bytes and half-words of a 32-bit register fit their fields.
proof fn lemma_u32_fields(h: u32)
    by (bit_vector)
    ensures
        (h >> 16u32) & mask32(16) <= 0xffff,
        (h >> 8u32) & mask32(8) <= 0xff,
        h & mask32(8) <= 0xff,
        (h >> 0u32) & mask32(8) == h & mask32(8),
        (h >> 0u32) & mask32(8) <= 0xff,
        h & mask32(16) <= 0xffff,
        (h >> 0u32) & mask32(16) == h & mask32(16),
        (h >> 0u32) & mask32(16) <= 0xffff,
        h <= 0xffff ==> h <= mask32(16),
        h <= 0xff ==> h <= mask32(8),
{
}


/// How an MSI is triggered.
#[derive(Debug, Clone, Copy, PartialEq, Eq, Structural)]
pub enum MSITriggerMode {
    Edge,
    Level,
}

/// How an MSI is delivered to the processors.
#[derive(Debug, Clone, Copy, PartialEq, Eq, Structural)]
pub enum MSIDeliveryMode {
    Fixed,
    LowestPriority,
    SMI,
    NMI,
    INIT,
    ExtINT,
}

impl MSIDeliveryMode {
    /// The three-bit code of the mode in the message data.
    pub open spec fn spec_code(self) -> u32 {
        match self {
            MSIDeliveryMode::Fixed => 0b000,
            MSIDeliveryMode::LowestPriority => 0b001,
            MSIDeliveryMode::SMI => 0b010,
            MSIDeliveryMode::NMI => 0b100,
            MSIDeliveryMode::INIT => 0b101,
            MSIDeliveryMode::ExtINT => 0b111,
        }
    }

    pub fn code(self) -> (r: u32)
        ensures
            r == self.spec_code(),
    {
        match self {
            MSIDeliveryMode::Fixed => 0b000,
            MSIDeliveryMode::LowestPriority => 0b001,
            MSIDeliveryMode::SMI => 0b010,
            MSIDeliveryMode::NMI => 0b100,
            MSIDeliveryMode::INIT => 0b101,
            MSIDeliveryMode::ExtINT => 0b111,
        }
    }
}

/// The Message Control register of an MSI capability.
pub struct MessageControl(u16);

impl MessageControl {
    pub closed spec fn spec_data(&self) -> u16 {
        self.0
    }

    /// Bit 8: each vector can be masked.
    pub open spec fn spec_per_vector_masking(&self) -> bool {
        self.spec_data() & (1u16 << 8u16) != 0
    }

    /// Bits 4..7: log2 of the number of vectors enabled.
    pub open spec fn spec_multiple_message_enable(&self) -> u16 {
        (self.spec_data() >> 4u16) & mask16(3)
    }

    /// Bit 7: the message address has 64 bits.
    pub open spec fn spec_address_64_bit_capable(&self) -> bool {
        self.spec_data() & (1u16 << 7u16) != 0
    }

    /// Bits 1..4: log2 of the number of vectors the device asks for.
    pub open spec fn spec_multiple_message_capable(&self) -> u16 {
        (self.spec_data() >> 1u16) & mask16(3)
    }

    /// Bit 0: MSI is enabled.
    pub open spec fn spec_enable(&self) -> bool {
        self.spec_data() & (1u16 << 0u16) != 0
    }

    /// The register with the raw value `data`.
    pub fn from_data(data: u16) -> (r: Self)
        ensures
            r.spec_data() == data,
    {
        Self(data)
    }

    pub fn per_vector_masking(&self) -> (r: bool)
        ensures
            r == self.spec_per_vector_masking(),
    {
        u16_get_bit(self.0, 8)
    }

    pub fn set_per_vector_masking(&mut self, value: bool)
        ensures
            final(self).spec_data() == if value {
                old(self).spec_data() | (1u16 << 8u16)
            } else {
                old(self).spec_data() & !(1u16 << 8u16)
            },
            final(self).spec_per_vector_masking() == value,
    {
        u16_set_bit(&mut self.0, 8, value);
        proof {
            let d = old(self).spec_data();
            lemma_u16_bits(d);
        }
    }

    pub fn multiple_message_enable(&self) -> (r: u16)
        ensures
            r == self.spec_multiple_message_enable(),
            r < 8,
    {
        proof {
            let d = self.spec_data();
            lemma_u16_bits(d);
        }
        u16_get_bits(self.0, 4, 7)
    }

    pub fn set_multiple_message_enable(&mut self, value: u16)
        requires
            value < 8,
        ensures
            final(self).spec_data() == (old(self).spec_data() & !(mask16(3) << 4u16)) | (value << 4u16),
            final(self).spec_multiple_message_enable() == value,
            final(self).spec_multiple_message_capable() == old(self).spec_multiple_message_capable(),
            final(self).spec_enable() == old(self).spec_enable(),
            final(self).spec_address_64_bit_capable() == old(self).spec_address_64_bit_capable(),
            final(self).spec_per_vector_masking() == old(self).spec_per_vector_masking(),
    {
        proof {
            lemma_u16_bits(0);
        }
        u16_set_bits(&mut self.0, 4, 7, value);
        proof {
            let d = old(self).spec_data();
            let n = self.spec_data();
            assert(n == (d & !(mask16(3) << 4u16)) | (value << 4u16));
            assert(((n >> 4u16) & mask16(3)) == value
                && ((n >> 1u16) & mask16(3)) == ((d >> 1u16) & mask16(3))
                && (n & (1u16 << 0u16) != 0) == (d & (1u16 << 0u16) != 0)
                && (n & (1u16 << 7u16) != 0) == (d & (1u16 << 7u16) != 0)
                && (n & (1u16 << 8u16) != 0) == (d & (1u16 << 8u16) != 0)) by (bit_vector)
                requires
                    n == (d & !(mask16(3) << 4u16)) | (value << 4u16),
                    value < 8,
            ;
        }
    }

    pub fn address_64_bit_capable(&self) -> (r: bool)
        ensures
            r == self.spec_address_64_bit_capable(),
    {
        u16_get_bit(self.0, 7)
    }

    pub fn set_address_64_bit_capable(&mut self, value: bool)
        ensures
            final(self).spec_data() == if value {
                old(self).spec_data() | (1u16 << 7u16)
            } else {
                old(self).spec_data() & !(1u16 << 7u16)
            },
            final(self).spec_address_64_bit_capable() == value,
    {
        u16_set_bit(&mut self.0, 7, value);
        proof {
            let d = old(self).spec_data();
            lemma_u16_bits(d);
        }
    }

    pub fn multiple_message_capable(&self) -> (r: u16)
        ensures
            r == self.spec_multiple_message_capable(),
            r < 8,
    {
        proof {
            let d = self.spec_data();
            lemma_u16_bits(d);
        }
        u16_get_bits(self.0, 1, 4)
    }

    pub fn set_multiple_message_capable(&mut self, value: u16)
        requires
            value < 8,
        ensures
            final(self).spec_data() == (old(self).spec_data() & !(mask16(3) << 1u16)) | (value << 1u16),
            final(self).spec_multiple_message_capable() == value,
            final(self).spec_multiple_message_enable() == old(self).spec_multiple_message_enable(),
            final(self).spec_enable() == old(self).spec_enable(),
            final(self).spec_address_64_bit_capable() == old(self).spec_address_64_bit_capable(),
            final(self).spec_per_vector_masking() == old(self).spec_per_vector_masking(),
    {
        proof {
            lemma_u16_bits(0);
        }
        u16_set_bits(&mut self.0, 1, 4, value);
        proof {
            let d = old(self).spec_data();
            let n = self.spec_data();
            assert(((n >> 1u16) & mask16(3)) == value
                && ((n >> 4u16) & mask16(3)) == ((d >> 4u16) & mask16(3))
                && (n & (1u16 << 0u16) != 0) == (d & (1u16 << 0u16) != 0)
                && (n & (1u16 << 7u16) != 0) == (d & (1u16 << 7u16) != 0)
                && (n & (1u16 << 8u16) != 0) == (d & (1u16 << 8u16) != 0)) by (bit_vector)
                requires
                    n == (d & !(mask16(3) << 1u16)) | (value << 1u16),
                    value < 8,
            ;
        }
    }

    pub fn enable(&self) -> (r: bool)
        ensures
            r == self.spec_enable(),
    {
        u16_get_bit(self.0, 0)
    }

    pub fn set_enable(&mut self, value: bool)
        ensures
            final(self).spec_data() == if value {
                old(self).spec_data() | (1u16 << 0u16)
            } else {
                old(self).spec_data() & !(1u16 << 0u16)
            },
            final(self).spec_enable() == value,
            final(self).spec_multiple_message_enable() == old(self).spec_multiple_message_enable(),
            final(self).spec_multiple_message_capable() == old(self).spec_multiple_message_capable(),
            final(self).spec_address_64_bit_capable() == old(self).spec_address_64_bit_capable(),
            final(self).spec_per_vector_masking() == old(self).spec_per_vector_masking(),
    {
        u16_set_bit(&mut self.0, 0, value);
        proof {
            let d = old(self).spec_data();
            let n = self.spec_data();
            assert(((n & (1u16 << 0u16)) != 0) == value
                && ((n >> 4u16) & mask16(3)) == ((d >> 4u16) & mask16(3))
                && ((n >> 1u16) & mask16(3)) == ((d >> 1u16) & mask16(3))
                && (n & (1u16 << 7u16) != 0) == (d & (1u16 << 7u16) != 0)
                && (n & (1u16 << 8u16) != 0) == (d & (1u16 << 8u16) != 0)) by (bit_vector)
                requires
                    n == if value { d | (1u16 << 0u16) } else { d & !(1u16 << 0u16) },
            ;
        }
    }

    /// The raw register value.
    pub fn data(&self) -> (r: u16)
        ensures
            r == self.spec_data(),
    {
        self.0
    }
}

} // verus!

verus! {

/// The MSI capability structure: header (id, next pointer, message control),
/// message address low and high, message data, mask bits, pending bits.
pub struct MsiCapability([u32; 6]);

impl MsiCapability {
    /// The six 32-bit words.
    pub closed spec fn spec_regs(&self) -> Seq<u32> {
        self.0@
    }

    pub open spec fn spec_message_control(&self) -> u16 {
        ((self.spec_regs()[0] >> 16u32) & mask32(16)) as u16
    }

    pub open spec fn spec_next_pointer(&self) -> u8 {
        ((self.spec_regs()[0] >> 8u32) & mask32(8)) as u8
    }

    pub open spec fn spec_capability_id(&self) -> u8 {
        (self.spec_regs()[0] & mask32(8)) as u8
    }

    pub open spec fn spec_message_address(&self) -> u64 {
        ((self.spec_regs()[2] as u64) << 32u64) | (self.spec_regs()[1] as u64)
    }

    pub open spec fn spec_message_data(&self) -> u16 {
        (self.spec_regs()[3] & mask32(16)) as u16
    }

    /// A capability has six words.
    pub proof fn lemma_six_words(&self)
        ensures
            self.spec_regs().len() == 6,
    {
    }

    /// A capability whose six words are all zero.
    pub fn zeroed() -> (r: Self)
        ensures
            r.spec_regs() == seq![0u32, 0u32, 0u32, 0u32, 0u32, 0u32],
    {
        let r = Self([0; 6]);
        assert(r.spec_regs() =~= seq![0u32, 0u32, 0u32, 0u32, 0u32, 0u32]);
        r
    }

    /// The first word.
    pub fn header(&self) -> (r: u32)
        ensures
            r == self.spec_regs()[0],
    {
        self.0[0]
    }

    /// The message control register (bits 16..32 of the header).
    pub fn message_control(&self) -> (r: MessageControl)
        ensures
            r.spec_data() == self.spec_message_control(),
    {
        proof {
            let h = self.spec_regs()[0];
            lemma_u32_fields(h);
        }
        MessageControl::from_data(u32_get_bits(self.0[0], 16, 32) as u16)
    }

    pub fn set_message_control(&mut self, control: MessageControl)
        ensures
            final(self).spec_regs().len() == 6,
            final(self).spec_regs() == old(self).spec_regs().update(0,
                (old(self).spec_regs()[0] & !(mask32(16) << 16u32)) | ((control.spec_data() as u32) << 16u32)),
            final(self).spec_message_control() == control.spec_data(),
            final(self).spec_next_pointer() == old(self).spec_next_pointer(),
            final(self).spec_capability_id() == old(self).spec_capability_id(),
    {
        let mut h = self.0[0];
        let v = control.0 as u32;
        proof {
            lemma_u32_fields(v);
        }
        u32_set_bits(&mut h, 16, 32, v);
        self.0[0] = h;
        proof {
            let o = old(self).spec_regs()[0];
            assert(((h >> 16u32) & mask32(16)) == v
                && ((h >> 8u32) & mask32(8)) == ((o >> 8u32) & mask32(8))
                && (h & mask32(8)) == (o & mask32(8))) by (bit_vector)
                requires
                    h == (o & !(mask32(16) << 16u32)) | (v << 16u32),
                    v <= 0xffff,
            ;
        }
    }

    pub fn next_pointer(&self) -> (r: u8)
        ensures
            r == self.spec_next_pointer(),
    {
        proof {
            let h = self.spec_regs()[0];
            lemma_u32_fields(h);
        }
        u32_get_bits(self.0[0], 8, 16) as u8
    }

    pub fn set_next_pointer(&mut self, value: u8)
        ensures
            final(self).spec_regs().len() == 6,
            final(self).spec_regs() == old(self).spec_regs().update(0,
                (old(self).spec_regs()[0] & !(mask32(8) << 8u32)) | ((value as u32) << 8u32)),
            final(self).spec_next_pointer() == value,
            final(self).spec_message_control() == old(self).spec_message_control(),
            final(self).spec_capability_id() == old(self).spec_capability_id(),
    {
        let mut h = self.0[0];
        let v = value as u32;
        proof {
            lemma_u32_fields(v);
        }
        u32_set_bits(&mut h, 8, 16, v);
        self.0[0] = h;
        proof {
            let o = old(self).spec_regs()[0];
            assert(((h >> 8u32) & mask32(8)) == v
                && ((h >> 16u32) & mask32(16)) == ((o >> 16u32) & mask32(16))
                && (h & mask32(8)) == (o & mask32(8))) by (bit_vector)
                requires
                    h == (o & !(mask32(8) << 8u32)) | (v << 8u32),
                    v <= 0xff,
            ;
        }
    }

    pub fn capability_id(&self) -> (r: u8)
        ensures
            r == self.spec_capability_id(),
    {
        proof {
            let h = self.spec_regs()[0];
            lemma_u32_fields(h);
        }
        u32_get_bits(self.0[0], 0, 8) as u8
    }

    pub fn set_capability_id(&mut self, value: u8)
        ensures
            final(self).spec_regs().len() == 6,
            final(self).spec_regs() == old(self).spec_regs().update(0,
                (old(self).spec_regs()[0] & !(mask32(8) << 0u32)) | ((value as u32) << 0u32)),
            final(self).spec_capability_id() == value,
            final(self).spec_message_control() == old(self).spec_message_control(),
            final(self).spec_next_pointer() == old(self).spec_next_pointer(),
    {
        let mut h = self.0[0];
        let v = value as u32;
        proof {
            lemma_u32_fields(v);
        }
        u32_set_bits(&mut h, 0, 8, v);
        self.0[0] = h;
        proof {
            let o = old(self).spec_regs()[0];
            assert((h & mask32(8)) == v
                && ((h >> 16u32) & mask32(16)) == ((o >> 16u32) & mask32(16))
                && ((h >> 8u32) & mask32(8)) == ((o >> 8u32) & mask32(8))) by (bit_vector)
                requires
                    h == (o & !(mask32(8) << 0u32)) | (v << 0u32),
                    v <= 0xff,
            ;
        }
    }

    /// The message address: word 2 above word 1.
    pub fn message_address(&self) -> (r: u64)
        ensures
            r == self.spec_message_address(),
    {
        let l = self.0[1] as u64;
        let u = self.0[2] as u64;
        u << 32 | l
    }

    pub fn set_message_address(&mut self, address: u64)
        ensures
            final(self).spec_regs().len() == 6,
            final(self).spec_regs() == old(self).spec_regs().update(1, address as u32).update(2, (address >> 32u64) as u32),
            final(self).spec_message_address() == address,
    {
        self.0[1] = address as u32;
        self.0[2] = (address >> 32) as u32;
        proof {
            let lo = address as u32;
            let hi = (address >> 32u64) as u32;
            assert(((hi as u64) << 32u64) | (lo as u64) == address) by (bit_vector)
                requires lo == address as u32, hi == (address >> 32u64) as u32;
        }
    }

    /// The message data: the low half of word 3.
    pub fn message_data(&self) -> (r: u16)
        ensures
            r == self.spec_message_data(),
    {
        proof {
            let d = self.spec_regs()[3];
            lemma_u32_fields(d);
        }
        u32_get_bits(self.0[3], 0, 16) as u16
    }

    pub fn set_message_data(&mut self, data: u16)
        ensures
            final(self).spec_regs().len() == 6,
            final(self).spec_regs() == old(self).spec_regs().update(3,
                (old(self).spec_regs()[3] & !(mask32(16) << 0u32)) | ((data as u32) << 0u32)),
            final(self).spec_message_data() == data,
    {
        let mut d = self.0[3];
        let v = data as u32;
        proof {
            lemma_u32_fields(v);
        }
        u32_set_bits(&mut d, 0, 16, v);
        self.0[3] = d;
        proof {
            let o = old(self).spec_regs()[3];
            assert((d & mask32(16)) == v) by (bit_vector)
                requires
                    d == (o & !(mask32(16) << 0u32)) | (v << 0u32),
                    v <= 0xffff,
            ;
        }
    }

    pub fn mask_bits(&self) -> (r: u32)
        ensures
            r == self.spec_regs()[4],
    {
        self.0[4]
    }

    pub fn set_mask_bits(&mut self, mask_bits: u32)
        ensures
            final(self).spec_regs().len() == 6,
            final(self).spec_regs() == old(self).spec_regs().update(4, mask_bits),
    {
        self.0[4] = mask_bits;
    }

    pub fn pending_bits(&self) -> (r: u32)
        ensures
            r == self.spec_regs()[5],
    {
        self.0[5]
    }

    pub fn set_pending_bits(&mut self, pending_bits: u32)
        ensures
            final(self).spec_regs().len() == 6,
            final(self).spec_regs() == old(self).spec_regs().update(5, pending_bits),
    {
        self.0[5] = pending_bits;
    }
}

} // verus!

verus! {

/// The capability id of MSI.
pub const MSI_CAPABILITY_ID: u8 = 0x05;

/// How many capabilities a search visits at most; a capability list has fewer
/// entries than this, so only a looping list is cut short.
pub const MAX_CAPABILITIES: usize = 256;

/// A capability with header `h` has a 64-bit message address.
pub open spec fn header_64_bit(h: u32) -> bool {
    ((h >> 16u32) & mask32(16)) as u16 & (1u16 << 7u16) != 0
}

/// A capability with header `h` has per-vector mask and pending words.
pub open spec fn header_masking(h: u32) -> bool {
    ((h >> 16u32) & mask32(16)) as u16 & (1u16 << 8u16) != 0
}

/// The offset of the message data register of the capability with header `h`
/// at `cap_addr`.
pub open spec fn msi_data_offset(cap_addr: u8, h: u32) -> int {
    if header_64_bit(h) {
        cap_addr + 12
    } else {
        cap_addr + 8
    }
}

/// The offset of the last register that the capability with header `h` at
/// `cap_addr` has: the message data, or the pending word when vectors can be
/// masked.
pub open spec fn msi_last_offset(cap_addr: u8, h: u32) -> int {
    msi_data_offset(cap_addr, h) + if header_masking(h) { 8int } else { 0int }
}

/// Every register that the header `h` of the capability at `cap_addr` calls
/// for lies inside the 256-byte configuration space.
pub open spec fn msi_fits(cap_addr: u8, h: u32) -> bool {
    msi_last_offset(cap_addr, h) <= 255
}

/// How many registers `MsiCapability::new` reads for header `h`.
pub open spec fn msi_read_count(h: u32) -> int {
    (if header_64_bit(h) { 4int } else { 3int }) + (if header_masking(h) { 2int } else { 0int })
}

/// The position of the message data read among reads starting at `i`.
pub open spec fn msi_data_read(i: int, h: u32) -> int {
    if header_64_bit(h) {
        i + 3
    } else {
        i + 2
    }
}

/// The register at offset `offset` of `device`.
pub open spec fn register_of(device: PciDevice, offset: int) -> u32 {
    config_address(device.spec_bus(), device.spec_device(), device.spec_function(), offset as u8)
}

/// From access `i` on, `log` holds the reads of the MSI capability at
/// `cap_addr` of `device`, in the order `MsiCapability::new` makes them: the
/// header, the address, its high half when it has 64 bits, the message data,
/// then the mask and pending words when vectors can be masked.
pub open spec fn msi_reads_at(log: Seq<ConfigAccess>, i: int, device: PciDevice, cap_addr: u8) -> bool {
    let h = data_at(log, i);
    let d = msi_data_read(i, h);
    let data_offset = msi_data_offset(cap_addr, h);
    &&& reads_at(log, i, register_of(device, cap_addr as int))
    &&& reads_at(log, i + 1, register_of(device, cap_addr + 4))
    &&& header_64_bit(h) ==> reads_at(log, i + 2, register_of(device, cap_addr + 8))
    &&& reads_at(log, d, register_of(device, data_offset))
    &&& header_masking(h) ==> reads_at(log, d + 1, register_of(device, data_offset + 4))
    &&& header_masking(h) ==> reads_at(log, d + 2, register_of(device, data_offset + 8))
}

/// The registers of the capability that those reads give.
pub open spec fn msi_regs_read(log: Seq<ConfigAccess>, i: int) -> Seq<u32> {
    let h = data_at(log, i);
    let d = msi_data_read(i, h);
    seq![
        h,
        data_at(log, i + 1),
        if header_64_bit(h) { data_at(log, i + 2) } else { 0u32 },
        data_at(log, d) & 0xffff,
        if header_masking(h) { data_at(log, d + 1) } else { 0u32 },
        if header_masking(h) { data_at(log, d + 2) } else { 0u32 },
    ]
}

/// Zero when absent.
pub open spec fn or_zero(v: Option<u32>) -> u32 {
    match v {
        Some(x) => x,
        None => 0,
    }
}

impl MsiCapability {
    /// The capability as read from its registers: the header, the address low
    /// word, the high word when the address has 64 bits, the register holding
    /// the message data, and the mask and pending words when vectors can be
    /// masked.
    pub fn from_registers(header: u32, address_low: u32, address_high: Option<u32>, data_register: u32, mask_and_pending: Option<(u32, u32)>) -> (r: Self)
        ensures
            r.spec_regs() == seq![
                header,
                address_low,
                or_zero(address_high),
                data_register & 0xffff,
                match mask_and_pending { Some((m, _)) => m, None => 0u32 },
                match mask_and_pending { Some((_, p)) => p, None => 0u32 },
            ],
    {
        let mut cap = Self::zeroed();
        proof {
            lemma_u32_fields(header);
        }
        let message_control = MessageControl::from_data(u32_get_bits(header, 16, 32) as u16);
        cap.set_message_control(message_control);
        cap.set_next_pointer(u32_get_bits(header, 8, 16) as u8);
        cap.set_capability_id(u32_get_bits(header, 0, 8) as u8);
        let message_address = match address_high {
            Some(high) => (high as u64) << 32 | address_low as u64,
            None => address_low as u64,
        };
        cap.set_message_address(message_address);
        proof {
            lemma_u32_fields(data_register);
        }
        cap.set_message_data(u32_get_bits(data_register, 0, 16) as u16);
        match mask_and_pending {
            Some((mask_bits, pending_bits)) => {
                cap.set_mask_bits(mask_bits);
                cap.set_pending_bits(pending_bits);
            },
            None => {},
        }
        proof {
            let c = ((header >> 16u32) & mask32(16)) as u16;
            let n = ((header >> 8u32) & mask32(8)) as u8;
            let i = ((header >> 0u32) & mask32(8)) as u8;
            let h0 = (0u32 & !(mask32(16) << 16u32)) | ((c as u32) << 16u32);
            let h1 = (h0 & !(mask32(8) << 8u32)) | ((n as u32) << 8u32);
            let h2 = (h1 & !(mask32(8) << 0u32)) | ((i as u32) << 0u32);
            assert(h2 == header) by (bit_vector)
                requires
                    c == ((header >> 16u32) & mask32(16)) as u16,
                    n == ((header >> 8u32) & mask32(8)) as u8,
                    i == ((header >> 0u32) & mask32(8)) as u8,
                    h0 == (0u32 & !(mask32(16) << 16u32)) | ((c as u32) << 16u32),
                    h1 == (h0 & !(mask32(8) << 8u32)) | ((n as u32) << 8u32),
                    h2 == (h1 & !(mask32(8) << 0u32)) | ((i as u32) << 0u32),
            ;
            let d = ((data_register >> 0u32) & mask32(16)) as u16;
            assert((0u32 & !(mask32(16) << 0u32)) | ((d as u32) << 0u32) == data_register & 0xffff) by (bit_vector)
                requires d == ((data_register >> 0u32) & mask32(16)) as u16;
            let lo = address_low;
            match address_high {
                Some(hi) => {
                    assert((((hi as u64) << 32u64 | lo as u64) as u32) == lo
                        && ((((hi as u64) << 32u64 | lo as u64) >> 32u64) as u32) == hi) by (bit_vector);
                },
                None => {
                    assert(((lo as u64) as u32) == lo && (((lo as u64) >> 32u64) as u32) == 0) by (bit_vector);
                },
            }
            assert(cap.spec_regs() =~= seq![
                header,
                address_low,
                or_zero(address_high),
                data_register & 0xffff,
                match mask_and_pending { Some((m, _)) => m, None => 0u32 },
                match mask_and_pending { Some((_, p)) => p, None => 0u32 },
            ]);
        }
        cap
    }

    /// Reads the MSI capability at `cap_addr` of `device`: the 64-bit address
    /// word and the mask and pending words are read only when the message
    /// control says they exist. `None`, after the header alone, when the
    /// registers that the header calls for would not all lie below offset 256.
    pub fn new<C: ConfigSpace>(config: &mut Configuration<C>, device: &PciDevice, cap_addr: u8) -> (r: Option<Self>)
        ensures
            ({
                let log = final(config).accesses();
                let i = old(config).accesses().len() as int;
                let h = data_at(log, i);
                &&& reads_at(log, i, register_of(*device, cap_addr as int))
                &&& (r is Some <==> msi_fits(cap_addr, h))
                &&& r is None ==> appended(old(config).accesses(), log, 1)
                &&& r matches Some(cap) ==> {
                    &&& appended(old(config).accesses(), log, msi_read_count(h))
                    &&& msi_reads_at(log, i, *device, cap_addr)
                    &&& cap.spec_regs() == msi_regs_read(log, i)
                }
            }),
    {
        let ghost l0 = config.accesses();
        let header = device.read_configuration_space(config, cap_addr);
        proof {
            lemma_u32_fields(header);
        }
        let message_control = MessageControl::from_data(u32_get_bits(header, 16, 32) as u16);
        let address_64_bit = message_control.address_64_bit_capable();
        let masking = message_control.per_vector_masking();
        let data_end: u16 = if address_64_bit { cap_addr as u16 + 12 } else { cap_addr as u16 + 8 };
        let last: u16 = if masking { data_end + 8 } else { data_end };
        if last > 255 {
            return None;
        }
        let address_low = device.read_configuration_space(config, cap_addr + 4);
        let mut msg_data_addr = cap_addr + 8;
        let address_high = if address_64_bit {
            let high = device.read_configuration_space(config, cap_addr + 8);
            msg_data_addr = cap_addr + 12;
            Some(high)
        } else {
            None
        };
        let data_register = device.read_configuration_space(config, msg_data_addr);
        let mask_and_pending = if masking {
            let mask_bits = device.read_configuration_space(config, msg_data_addr + 4);
            let pending_bits = device.read_configuration_space(config, msg_data_addr + 8);
            Some((mask_bits, pending_bits))
        } else {
            None
        };
        proof {
            assert(config.accesses().subrange(0, l0.len() as int) =~= l0);
        }
        Some(Self::from_registers(header, address_low, address_high, data_register, mask_and_pending))
    }
}

/// The capability that `next` found, by its offset and registers.
pub open spec fn found_regs(r: Option<(u8, MsiCapability)>) -> Option<(u8, Seq<u32>)> {
    match r {
        Some((a, c)) => Some((a, c.spec_regs())),
        None => None,
    }
}

/// Walking the capability list of `device` from the capability at `addr` (the
/// `visited`th one seen) makes the reads of `log` from access `i` to `end`,
/// then yields `r` and stands at `next_addr`. Each capability's header is read
/// first; when the registers it calls for would not all lie below offset 256
/// (see `msi_fits`) the walk ends there with nothing. Otherwise the capability
/// is read as `MsiCapability::new` reads it: an MSI capability is yielded, with
/// the walk moving to its next pointer; past another one the walk follows its
/// next pointer, and ends with nothing at a null pointer or after
/// `MAX_CAPABILITIES` capabilities.
pub open spec fn msi_walk(
    log: Seq<ConfigAccess>,
    i: int,
    end: int,
    device: PciDevice,
    addr: u8,
    visited: nat,
    r: Option<(u8, Seq<u32>)>,
    next_addr: u8,
) -> bool
    decreases MAX_CAPABILITIES - visited,
{
    let h = data_at(log, i);
    let j = i + msi_read_count(h);
    let np = ((h >> 8u32) & mask32(8)) as u8;
    &&& reads_at(log, i, register_of(device, addr as int))
    &&& if !msi_fits(addr, h) {
        i + 1 == end && r is None && next_addr == addr
    } else {
        &&& msi_reads_at(log, i, device, addr)
        &&& if (h & mask32(8)) as u8 == MSI_CAPABILITY_ID {
            j == end && r == Some((addr, msi_regs_read(log, i))) && next_addr == np
        } else if np == 0 || visited >= MAX_CAPABILITIES {
            j == end && r is None && next_addr == np
        } else {
            msi_walk(log, j, end, device, np, visited + 1, r, next_addr)
        }
    }
}

/// The header read stays what it was when more accesses follow.
proof fn lemma_header_read_frame(log: Seq<ConfigAccess>, log2: Seq<ConfigAccess>, i: int, device: PciDevice, addr: u8)
    requires
        reads_at(log, i, register_of(device, addr as int)),
        log2.len() >= log.len(),
        log2.subrange(0, log.len() as int) == log,
    ensures
        reads_at(log2, i, register_of(device, addr as int)),
        data_at(log2, i) == data_at(log, i),
{
    assert(log2.subrange(0, log.len() as int)[i] == log2[i]);
}

/// Reads already made stay what they were when more accesses follow.
proof fn lemma_msi_reads_frame(log: Seq<ConfigAccess>, log2: Seq<ConfigAccess>, i: int, device: PciDevice, addr: u8)
    requires
        msi_reads_at(log, i, device, addr),
        0 <= i,
        i + msi_read_count(data_at(log, i)) <= log.len(),
        log2.len() >= log.len(),
        log2.subrange(0, log.len() as int) == log,
    ensures
        msi_reads_at(log2, i, device, addr),
        data_at(log2, i) == data_at(log, i),
        msi_regs_read(log2, i) == msi_regs_read(log, i),
{
    assert forall|k: int| 0 <= k < log.len() implies #[trigger] log2[k] == log[k] by {
        assert(log2.subrange(0, log.len() as int)[k] == log2[k]);
    }
    let h = data_at(log, i);
    let d = msi_data_read(i, h);
    assert(log2[i] == log[i]);
    assert(log2[i + 1] == log[i + 1]);
    assert(log2[d] == log[d]);
    if header_64_bit(h) {
        assert(log2[i + 2] == log[i + 2]);
    }
    if header_masking(h) {
        assert(log2[d + 1] == log[d + 1]);
        assert(log2[d + 2] == log[d + 2]);
    }
    assert(msi_regs_read(log2, i) =~= msi_regs_read(log, i));
}

/// A prefix of a prefix is a prefix.
proof fn lemma_prefix_trans(a: Seq<ConfigAccess>, b: Seq<ConfigAccess>, c: Seq<ConfigAccess>)
    requires
        a.len() <= b.len() <= c.len(),
        b.subrange(0, a.len() as int) == a,
        c.subrange(0, b.len() as int) == b,
    ensures
        c.subrange(0, a.len() as int) == a,
{
    assert forall|k: int| 0 <= k < a.len() implies #[trigger] c.subrange(0, a.len() as int)[k] == a[k] by {
        assert(c.subrange(0, b.len() as int)[k] == c[k]);
        assert(b.subrange(0, a.len() as int)[k] == b[k]);
    }
    assert(c.subrange(0, a.len() as int) =~= a);
}

/// Walks the capability list of a device and yields its MSI capabilities.
pub struct MsiCapabilityIterator<'a> {
    device: &'a PciDevice,
    current_cap_addr: u8,
}

impl<'a> MsiCapabilityIterator<'a> {
    pub closed spec fn spec_device(&self) -> &'a PciDevice {
        self.device
    }

    pub closed spec fn spec_current_cap_addr(&self) -> u8 {
        self.current_cap_addr
    }

    pub fn new(pci_device: &'a PciDevice, cap_addr: u8) -> (r: Self)
        ensures
            r.spec_device() == pci_device,
            r.spec_current_cap_addr() == cap_addr,
    {
        Self { device: pci_device, current_cap_addr: cap_addr }
    }

    /// The next MSI capability and its offset. Capabilities with another id
    /// are skipped; the walk ends at a null pointer, at a capability whose
    /// registers would not all lie below offset 256, or after
    /// `MAX_CAPABILITIES` capabilities.
    pub fn next<C: ConfigSpace>(&mut self, config: &mut Configuration<C>) -> (r: Option<(u8, MsiCapability)>)
        ensures
            final(self).spec_device() == old(self).spec_device(),
            r matches Some((addr, cap)) ==> {
                &&& addr != 0
                &&& msi_fits(addr, cap.spec_regs()[0])
                &&& cap.spec_capability_id() == MSI_CAPABILITY_ID
                &&& final(self).spec_current_cap_addr() == cap.spec_next_pointer()
            },
            old(self).spec_current_cap_addr() == 0 ==> {
                &&& r is None
                &&& final(config).accesses() == old(config).accesses()
                &&& final(self).spec_current_cap_addr() == 0
            },
            old(self).spec_current_cap_addr() != 0 ==> {
                &&& final(config).accesses().len() >= old(config).accesses().len()
                &&& final(config).accesses().subrange(0, old(config).accesses().len() as int) == old(config).accesses()
                &&& msi_walk(
                    final(config).accesses(),
                    old(config).accesses().len() as int,
                    final(config).accesses().len() as int,
                    *old(self).spec_device(),
                    old(self).spec_current_cap_addr(),
                    1,
                    found_regs(r),
                    final(self).spec_current_cap_addr(),
                )
            },
    {
        if self.current_cap_addr == 0 {
            return None;
        }
        let ghost l0 = config.accesses();
        let ghost start = self.current_cap_addr;
        let ghost dev = *self.device;
        let ghost mut i_cap: int = l0.len() as int;
        let mut cap = match MsiCapability::new(config, self.device, self.current_cap_addr) {
            Some(c) => c,
            None => {
                proof {
                    let l = config.accesses();
                    assert(l.subrange(0, l.len() as int) =~= l);
                    assert(msi_walk(l, l0.len() as int, l.len() as int, dev, start, 1, None, start));
                }
                return None;
            },
        };
        let mut visited: usize = 1;
        while cap.capability_id() != MSI_CAPABILITY_ID
            invariant
                self.device == old(self).device,
                dev == *self.device,
                start == old(self).current_cap_addr,
                start != 0,
                l0 == old(config).accesses(),
                self.current_cap_addr != 0,
                1 <= visited <= MAX_CAPABILITIES,
                l0.len() <= i_cap,
                config.accesses().len() == i_cap + msi_read_count(data_at(config.accesses(), i_cap)),
                reads_at(config.accesses(), i_cap, register_of(dev, self.current_cap_addr as int)),
                msi_fits(self.current_cap_addr, data_at(config.accesses(), i_cap)),
                msi_reads_at(config.accesses(), i_cap, dev, self.current_cap_addr),
                cap.spec_regs() == msi_regs_read(config.accesses(), i_cap),
                config.accesses().subrange(0, l0.len() as int) == l0,
                forall|l2: Seq<ConfigAccess>, e: int, r: Option<(u8, Seq<u32>)>, nx: u8|
                    l2.len() >= config.accesses().len() && l2.subrange(0, config.accesses().len() as int)
                        == config.accesses() && #[trigger] msi_walk(l2, i_cap, e, dev, self.current_cap_addr, visited as nat, r, nx)
                        ==> msi_walk(l2, l0.len() as int, e, dev, start, 1, r, nx),
            decreases MAX_CAPABILITIES - visited,
        {
            let ghost cur = self.current_cap_addr;
            let ghost l1 = config.accesses();
            self.current_cap_addr = cap.next_pointer();
            if self.current_cap_addr == 0 || visited >= MAX_CAPABILITIES {
                proof {
                    assert(l1.subrange(0, l1.len() as int) =~= l1);
                    assert(msi_walk(l1, i_cap, l1.len() as int, dev, cur, visited as nat, None, self.current_cap_addr));
                }
                return None;
            }
            let ghost old_visited = visited as nat;
            let ghost old_i = i_cap;
            let next_cap = MsiCapability::new(config, self.device, self.current_cap_addr);
            proof {
                let l2now = config.accesses();
                let np = self.current_cap_addr;
                assert(l2now.subrange(0, l1.len() as int) =~= l1);
                lemma_prefix_trans(l0, l1, l2now);
                lemma_msi_reads_frame(l1, l2now, old_i, dev, cur);
                if next_cap is None {
                    assert(l2now.subrange(0, l2now.len() as int) =~= l2now);
                    assert(msi_walk(l2now, l1.len() as int, l2now.len() as int, dev, np, (old_visited + 1) as nat, None, np));
                    assert(msi_walk(l2now, old_i, l2now.len() as int, dev, cur, old_visited, None, np));
                }
            }
            cap = match next_cap {
                Some(c) => c,
                None => {
                    return None;
                },
            };
            visited = visited + 1;
            proof {
                i_cap = l1.len() as int;
                let l2now = config.accesses();
                let np = self.current_cap_addr;
                assert forall|l2: Seq<ConfigAccess>, e: int, r: Option<(u8, Seq<u32>)>, nx: u8|
                    l2.len() >= l2now.len() && l2.subrange(0, l2now.len() as int) == l2now
                        && #[trigger] msi_walk(l2, i_cap, e, dev, np, visited as nat, r, nx)
                    implies msi_walk(l2, l0.len() as int, e, dev, start, 1, r, nx) by {
                    lemma_prefix_trans(l1, l2now, l2);
                    lemma_msi_reads_frame(l1, l2, old_i, dev, cur);
                    assert(msi_walk(l2, old_i, e, dev, cur, old_visited, r, nx));
                }
            }
        }
        let current_cap_addr = self.current_cap_addr;
        self.current_cap_addr = cap.next_pointer();
        proof {
            let l = config.accesses();
            assert(l.subrange(0, l.len() as int) =~= l);
            assert(msi_walk(l, i_cap, l.len() as int, dev, current_cap_addr, visited as nat,
                Some((current_cap_addr, cap.spec_regs())), self.current_cap_addr));
        }
        Some((current_cap_addr, cap))
    }
}

/// `r` is `cap` programmed to send `msg_data` to `msg_addr`: as many vectors
/// as both the device and `2^num_vector_exponent` allow, MSI enabled,
/// everything else kept.
pub open spec fn configured_from(cap: MsiCapability, r: MsiCapability, msg_addr: u32, msg_data: u32, num_vector_exponent: usize) -> bool {
    &&& ({
            let old_mc = MessageControl::from_data_spec(cap.spec_message_control());
            let new_mc = MessageControl::from_data_spec(r.spec_message_control());
            &&& new_mc.spec_multiple_message_enable() == if old_mc.spec_multiple_message_capable() <= num_vector_exponent as u16 {
                    old_mc.spec_multiple_message_capable()
                } else {
                    num_vector_exponent as u16
                }
            &&& new_mc.spec_enable()
            &&& new_mc.spec_multiple_message_capable() == old_mc.spec_multiple_message_capable()
            &&& new_mc.spec_address_64_bit_capable() == old_mc.spec_address_64_bit_capable()
            &&& new_mc.spec_per_vector_masking() == old_mc.spec_per_vector_masking()
        })
    &&& r.spec_next_pointer() == cap.spec_next_pointer()
    &&& r.spec_capability_id() == cap.spec_capability_id()
    &&& r.spec_message_address() == msg_addr as u64
    &&& r.spec_message_data() == msg_data as u16
    &&& r.spec_regs()[4] == cap.spec_regs()[4]
    &&& r.spec_regs()[5] == cap.spec_regs()[5]
}

/// The capability programmed to send `msg_data` to `msg_addr` (see
/// `configured_from`).
pub fn configured_capability(cap: MsiCapability, msg_addr: u32, msg_data: u32, num_vector_exponent: usize) -> (r: MsiCapability)
    ensures
        configured_from(cap, r, msg_addr, msg_data, num_vector_exponent),
        ({
            let old_mc = MessageControl::from_data_spec(cap.spec_message_control());
            let new_mc = MessageControl::from_data_spec(r.spec_message_control());
            &&& new_mc.spec_multiple_message_enable() == if old_mc.spec_multiple_message_capable() <= num_vector_exponent as u16 {
                    old_mc.spec_multiple_message_capable()
                } else {
                    num_vector_exponent as u16
                }
            &&& new_mc.spec_enable()
            &&& new_mc.spec_multiple_message_capable() == old_mc.spec_multiple_message_capable()
            &&& new_mc.spec_address_64_bit_capable() == old_mc.spec_address_64_bit_capable()
            &&& new_mc.spec_per_vector_masking() == old_mc.spec_per_vector_masking()
        }),
        r.spec_next_pointer() == cap.spec_next_pointer(),
        r.spec_capability_id() == cap.spec_capability_id(),
        r.spec_message_address() == msg_addr as u64,
        r.spec_message_data() == msg_data as u16,
        r.spec_regs()[4] == cap.spec_regs()[4],
        r.spec_regs()[5] == cap.spec_regs()[5],
{
    let mut msi_cap = cap;
    let mut message_control = msi_cap.message_control();
    let capable = message_control.multiple_message_capable();
    if capable <= num_vector_exponent as u16 {
        message_control.set_multiple_message_enable(capable);
    } else {
        message_control.set_multiple_message_enable(num_vector_exponent as u16);
    }
    message_control.set_enable(true);
    msi_cap.set_message_control(message_control);
    msi_cap.set_message_address(msg_addr as u64);
    msi_cap.set_message_data(msg_data as u16);
    msi_cap
}

impl MessageControl {
    /// The register with raw value `data`.
    pub closed spec fn from_data_spec(data: u16) -> MessageControl {
        MessageControl(data)
    }

    pub proof fn lemma_from_data_spec(data: u16)
        ensures
            Self::from_data_spec(data).spec_data() == data,
    {
    }
}

} // verus!

verus! {

/// The configuration writes that store `msi_cap` at offset `cap_addr`, in
/// order: header, address low, address high (64-bit addresses only), message
/// data, then mask and pending words (per-vector masking only).
pub open spec fn msi_writes_spec(cap_addr: u8, msi_cap: MsiCapability) -> Seq<(u8, u32)> {
    let mc = MessageControl::from_data_spec(msi_cap.spec_message_control());
    let head = seq![(cap_addr, msi_cap.spec_regs()[0]), ((cap_addr + 4) as u8, msi_cap.spec_message_address() as u32)];
    let with_address = if mc.spec_address_64_bit_capable() {
        head.push(((cap_addr + 8) as u8, (msi_cap.spec_message_address() >> 32u64) as u32))
    } else {
        head
    };
    let data_addr = if mc.spec_address_64_bit_capable() { cap_addr + 12 } else { cap_addr + 8 };
    let with_data = with_address.push((data_addr as u8, msi_cap.spec_message_data() as u32));
    if mc.spec_per_vector_masking() {
        with_data.push(((data_addr + 4) as u8, msi_cap.spec_regs()[4])).push(((data_addr + 8) as u8, msi_cap.spec_regs()[5]))
    } else {
        with_data
    }
}

/// The configuration writes (offset, value) that store `msi_cap` at
/// `cap_addr`.
pub fn msi_capability_writes(cap_addr: u8, msi_cap: &MsiCapability) -> (w: Vec<(u8, u32)>)
    requires
        msi_fits(cap_addr, msi_cap.spec_regs()[0]),
    ensures
        w@ == msi_writes_spec(cap_addr, *msi_cap),
{
    let mc = msi_cap.message_control();
    proof {
        MessageControl::lemma_from_data_spec(msi_cap.spec_message_control());
    }
    let ghost h = msi_cap.spec_regs()[0];
    assert(mc.spec_address_64_bit_capable() == header_64_bit(h));
    assert(mc.spec_per_vector_masking() == header_masking(h));
    let mut writes: Vec<(u8, u32)> = Vec::new();
    writes.push((cap_addr, msi_cap.header()));
    writes.push((cap_addr + 4, msi_cap.message_address() as u32));
    let mut msg_data_addr = cap_addr + 8;
    if mc.address_64_bit_capable() {
        writes.push((cap_addr + 8, (msi_cap.message_address() >> 32) as u32));
        msg_data_addr = cap_addr + 12;
    }
    writes.push((msg_data_addr, msi_cap.message_data() as u32));
    if mc.per_vector_masking() {
        writes.push((msg_data_addr + 4, msi_cap.mask_bits()));
        writes.push((msg_data_addr + 8, msi_cap.pending_bits()));
    }
    proof {
        assert(writes@ =~= msi_writes_spec(cap_addr, *msi_cap));
    }
    writes
}

/// The accesses that make the configuration writes `writes` (offset, value)
/// to `device`.
pub open spec fn write_accesses(device: PciDevice, writes: Seq<(u8, u32)>) -> Seq<ConfigAccess> {
    writes.map_values(|w: (u8, u32)| ConfigAccess::Write { address: register_of(device, w.0 as int), data: w.1 })
}

/// Writes `msi_cap` back to the configuration space of `device` at
/// `cap_addr`, register by register as `msi_capability_writes` lists them.
pub fn write_msi_capability<C: ConfigSpace>(config: &mut Configuration<C>, device: &PciDevice, cap_addr: u8, msi_cap: MsiCapability)
    requires
        msi_fits(cap_addr, msi_cap.spec_regs()[0]),
    ensures
        final(config).accesses() == old(config).accesses() + write_accesses(*device, msi_writes_spec(cap_addr, msi_cap)),
{
    let writes = msi_capability_writes(cap_addr, &msi_cap);
    let ghost l0 = config.accesses();
    let mut i: usize = 0;
    proof {
        assert(l0 + write_accesses(*device, writes@.take(0)) =~= l0);
    }
    while i < writes.len()
        invariant
            i <= writes.len(),
            config.accesses() == l0 + write_accesses(*device, writes@.take(i as int)),
        decreases writes.len() - i,
    {
        let (offset, value) = writes[i];
        device.write_conf_reg(config, offset, value);
        proof {
            assert(writes@.take(i + 1) =~= writes@.take(i as int).push(writes@[i as int]));
            assert(write_accesses(*device, writes@.take(i + 1)) =~= write_accesses(*device, writes@.take(i as int)).push(
                ConfigAccess::Write { address: register_of(*device, offset as int), data: value },
            ));
            assert(config.accesses() =~= l0 + write_accesses(*device, writes@.take(i + 1)));
        }
        i = i + 1;
    }
    proof {
        assert(writes@.take(writes.len() as int) =~= writes@);
    }
}

/// Walking the capability list again on a longer log finds the same.
proof fn lemma_msi_walk_frame(
    log: Seq<ConfigAccess>,
    log2: Seq<ConfigAccess>,
    i: int,
    end: int,
    device: PciDevice,
    addr: u8,
    visited: nat,
    r: Option<(u8, Seq<u32>)>,
    nx: u8,
)
    requires
        msi_walk(log, i, end, device, addr, visited, r, nx),
        0 <= i,
        end <= log.len() <= log2.len(),
        log2.subrange(0, log.len() as int) == log,
    ensures
        msi_walk(log2, i, end, device, addr, visited, r, nx),
    decreases MAX_CAPABILITIES - visited,
{
    let h = data_at(log, i);
    let j = i + msi_read_count(h);
    let np = ((h >> 8u32) & mask32(8)) as u8;
    lemma_header_read_frame(log, log2, i, device, addr);
    if !msi_fits(addr, h) {
    } else if !((h & mask32(8)) as u8 == MSI_CAPABILITY_ID) && !(np == 0 || visited >= MAX_CAPABILITIES) {
        assert(reads_at(log, j, register_of(device, np as int))) by {
            reveal_with_fuel(msi_walk, 2);
        }
        lemma_msi_reads_frame(log, log2, i, device, addr);
        lemma_msi_walk_frame(log, log2, j, end, device, np, visited + 1, r, nx);
    } else {
        lemma_msi_reads_frame(log, log2, i, device, addr);
    }
}

/// From access `i` to `end` of `log`, `configure_msi`'s search, standing at
/// `addr` after `n` rounds, with `written` telling whether a capability was
/// written before, walks to the next MSI capability (see `msi_walk`) and
/// writes it back programmed (see `configured_from`), round after round,
/// until the walk finds none or `MAX_CAPABILITIES` rounds are done; `ok` is
/// whether a capability was written.
pub open spec fn msi_configure_walk(
    log: Seq<ConfigAccess>,
    i: int,
    end: int,
    device: PciDevice,
    addr: u8,
    n: nat,
    written: bool,
    msg_addr: u32,
    msg_data: u32,
    num_vector_exponent: usize,
    ok: bool,
) -> bool
    decreases MAX_CAPABILITIES - n,
{
    if n >= MAX_CAPABILITIES || addr == 0 {
        i == end && ok == written
    } else {
        exists|j: int, found: Option<(u8, Seq<u32>)>, nx: u8|
            #[trigger] msi_walk(log, i, j, device, addr, 1, found, nx) && match found {
                None => j == end && ok == written,
                Some((a, regs)) => exists|cap: MsiCapability, programmed: MsiCapability| {
                    let w = write_accesses(device, msi_writes_spec(a, programmed));
                    &&& #[trigger] configured_from(cap, programmed, msg_addr, msg_data, num_vector_exponent)
                    &&& cap.spec_regs() == regs
                    &&& j + w.len() <= log.len()
                    &&& log.subrange(j, j + w.len()) == w
                    &&& msi_configure_walk(log, j + w.len(), end, device, nx, n + 1, true, msg_addr, msg_data, num_vector_exponent, ok)
                },
            }
    }
}

/// No MSI capability was found on the device.
#[derive(Debug, Clone, Copy, PartialEq, Eq)]
pub struct MsiCapabilityNotFound;

/// What `configure_msi` does from access `i` of `log` on: it reads the
/// capabilities pointer (register 0x34) of `device`, then programs its MSI
/// capabilities from there (see `msi_configure_walk`); `ok` is whether it
/// found one.
pub open spec fn msi_configured(
    log: Seq<ConfigAccess>,
    i: int,
    device: PciDevice,
    msg_addr: u32,
    msg_data: u32,
    num_vector_exponent: usize,
    ok: bool,
) -> bool {
    &&& reads_at(log, i, register_of(device, 0x34))
    &&& msi_configure_walk(log, i + 1, log.len() as int, device, (data_at(log, i) & 0xff) as u8, 0, false, msg_addr,
        msg_data, num_vector_exponent, ok)
}

/// Programs every MSI capability of `device` (see `configured_capability`)
/// and writes it back; `Err` when the device has none.
pub fn configure_msi<C: ConfigSpace>(
    config: &mut Configuration<C>,
    pci_device: &PciDevice,
    msg_addr: u32,
    msg_data: u32,
    num_vector_exponent: usize,
) -> (r: Result<(), MsiCapabilityNotFound>)
    requires
        pci_device.spec_header_type().spec_value() == 0 || pci_device.spec_header_type().spec_value() == 1,
    ensures
        final(config).accesses().len() > old(config).accesses().len(),
        final(config).accesses().subrange(0, old(config).accesses().len() as int) == old(config).accesses(),
        msi_configured(final(config).accesses(), old(config).accesses().len() as int, *pci_device, msg_addr, msg_data,
            num_vector_exponent, r is Ok),
        r is Err ==> r == Err::<(), MsiCapabilityNotFound>(MsiCapabilityNotFound),
{
    let ghost l0 = config.accesses();
    let ghost dev = *pci_device;
    let cap_addr = pci_device.read_capabilities_pointer(config);
    let ghost l1 = config.accesses();
    let mut iter = MsiCapabilityIterator::new(pci_device, cap_addr);
    let mut written = false;
    let mut n: usize = 0;
    let ghost mut i: int = l1.len() as int;
    proof {
        assert(l1.subrange(0, l1.len() as int) =~= l1);
    }
    loop
        invariant_except_break
            n <= MAX_CAPABILITIES,
            iter.spec_device() == pci_device,
            dev == *pci_device,
            l0 == old(config).accesses(),
            appended(l0, l1, 1),
            reads_at(l1, l0.len() as int, register_of(dev, 0x34)),
            cap_addr == (data_at(l1, l0.len() as int) & 0xff) as u8,
            l1.len() <= i == config.accesses().len(),
            config.accesses().subrange(0, l1.len() as int) == l1,
            forall|l2: Seq<ConfigAccess>, e: int, ok: bool|
                l2.len() >= i && l2.subrange(0, i) == config.accesses()
                    && #[trigger] msi_configure_walk(l2, i, e, dev, iter.spec_current_cap_addr(), n as nat, written,
                    msg_addr, msg_data, num_vector_exponent, ok)
                    ==> msi_configure_walk(l2, l1.len() as int, e, dev, cap_addr, 0, false, msg_addr, msg_data,
                    num_vector_exponent, ok),
        ensures
            dev == *pci_device,
            l0 == old(config).accesses(),
            appended(l0, l1, 1),
            reads_at(l1, l0.len() as int, register_of(dev, 0x34)),
            cap_addr == (data_at(l1, l0.len() as int) & 0xff) as u8,
            l1.len() <= config.accesses().len(),
            config.accesses().subrange(0, l1.len() as int) == l1,
            msi_configure_walk(config.accesses(), l1.len() as int, config.accesses().len() as int, dev, cap_addr, 0, false,
                msg_addr, msg_data, num_vector_exponent, written),
        decreases MAX_CAPABILITIES - n,
    {
        if n >= MAX_CAPABILITIES {
            proof {
                let l = config.accesses();
                assert(l.subrange(0, l.len() as int) =~= l);
                assert(msi_configure_walk(l, i, l.len() as int, dev, iter.spec_current_cap_addr(), n as nat, written,
                    msg_addr, msg_data, num_vector_exponent, written));
            }
            break;
        }
        let ghost la = config.accesses();
        let ghost at = iter.spec_current_cap_addr();
        let ghost n0 = n as nat;
        let ghost written0 = written;
        match iter.next(config) {
            Some((addr, msi_cap)) => {
                let ghost lb = config.accesses();
                let programmed = configured_capability(msi_cap, msg_addr, msg_data, num_vector_exponent);
                proof {
                    MessageControl::lemma_from_data_spec(msi_cap.spec_message_control());
                    MessageControl::lemma_from_data_spec(programmed.spec_message_control());
                }
                write_msi_capability(config, pci_device, addr, programmed);
                written = true;
                n = n + 1;
                proof {
                    let lc = config.accesses();
                    let w = write_accesses(dev, msi_writes_spec(addr, programmed));
                    assert(lc.subrange(0, lb.len() as int) =~= lb);
                    assert(lc.subrange(lb.len() as int, (lb.len() + w.len()) as int) =~= w);
                    lemma_prefix_trans(l1, la, lb);
                    lemma_prefix_trans(l1, lb, lc);
                    i = lc.len() as int;
                    assert forall|l2: Seq<ConfigAccess>, e: int, ok: bool|
                        l2.len() >= i && l2.subrange(0, i) == lc
                            && #[trigger] msi_configure_walk(l2, i, e, dev, iter.spec_current_cap_addr(), n as nat, true,
                            msg_addr, msg_data, num_vector_exponent, ok)
                        implies msi_configure_walk(l2, l1.len() as int, e, dev, cap_addr, 0, false, msg_addr, msg_data,
                            num_vector_exponent, ok) by {
                        lemma_prefix_trans(lb, lc, l2);
                        lemma_prefix_trans(la, lb, l2);
                        lemma_msi_walk_frame(lb, l2, la.len() as int, lb.len() as int, dev, at, 1,
                            found_regs(Some((addr, msi_cap))), iter.spec_current_cap_addr());
                        assert(l2.subrange(lb.len() as int, (lb.len() + w.len()) as int) =~= lc.subrange(lb.len() as int, (lb.len() + w.len()) as int));
                        assert(configured_from(msi_cap, programmed, msg_addr, msg_data, num_vector_exponent));
                        assert(msi_configure_walk(l2, la.len() as int, e, dev, at, n0, written0, msg_addr, msg_data,
                            num_vector_exponent, ok));
                    }
                }
            },
            None => {
                proof {
                    let lb = config.accesses();
                    assert(lb.subrange(0, la.len() as int) =~= la);
                    lemma_prefix_trans(l1, la, lb);
                    assert(lb.subrange(0, lb.len() as int) =~= lb);
                    if at != 0 {
                        assert(msi_configure_walk(lb, la.len() as int, lb.len() as int, dev, at, n0, written0, msg_addr,
                            msg_data, num_vector_exponent, written0));
                    }
                    assert(msi_configure_walk(lb, la.len() as int, lb.len() as int, dev, at, n0, written0, msg_addr,
                        msg_data, num_vector_exponent, written0));
                }
                break;
            },
        }
    }
    proof {
        lemma_prefix_trans(l0, l1, config.accesses());
    }
    if !written {
        return Err(MsiCapabilityNotFound);
    }
    Ok(())
}

/// The interrupt vectors the kernel uses.
#[derive(Debug, Clone, Copy, PartialEq, Eq, Structural)]
pub enum InterruptVector {
    Xhci,
}

impl InterruptVector {
    pub open spec fn spec_number(self) -> u8 {
        match self {
            InterruptVector::Xhci => 64,
        }
    }

    /// The vector number.
    pub fn number(self) -> (r: u8)
        ensures
            r == self.spec_number(),
    {
        match self {
            InterruptVector::Xhci => 64,
        }
    }
}

/// The MSI message address and data that deliver `interrupt_vector` to the
/// local APIC `apic_id` with the given modes.
pub open spec fn msi_message_spec(apic_id: u8, trigger_mode: MSITriggerMode, delivery_mode: MSIDeliveryMode, interrupt_vector: InterruptVector) -> (u32, u32) {
    let msg_addr = 0xfee0_0000u32 | ((apic_id as u32) << 12u32);
    let data = (delivery_mode.spec_code() << 8u32) | (interrupt_vector.spec_number() as u32);
    let msg_data = match trigger_mode {
        MSITriggerMode::Level => data | 0xc000u32,
        MSITriggerMode::Edge => data,
    };
    (msg_addr, msg_data)
}

/// The MSI message sends to the local APIC `apic_id` (address 0xfee0_0000
/// with the APIC id in bits 12..20); its data carries the vector in bits
/// 0..8, the delivery mode in bits 8..11, and sets the trigger mode (bit 15)
/// and the level-asserted bit (bit 14) exactly for a level-triggered message:
/// an edge-triggered message is the delivery mode and vector alone.
pub proof fn lemma_msi_message(apic_id: u8, trigger_mode: MSITriggerMode, delivery_mode: MSIDeliveryMode, interrupt_vector: InterruptVector)
    ensures
        ({
            let (a, d) = msi_message_spec(apic_id, trigger_mode, delivery_mode, interrupt_vector);
            let level: u32 = if trigger_mode == MSITriggerMode::Level { 1 } else { 0 };
            &&& a == 0xfee0_0000u32 | ((apic_id as u32) << 12u32)
            &&& (d >> 15u32) & 1 == level
            &&& (d >> 14u32) & 1 == level
            &&& (d >> 8u32) & 7 == delivery_mode.spec_code()
            &&& d & 0xff == interrupt_vector.spec_number() as u32
            &&& trigger_mode == MSITriggerMode::Edge ==> d == (delivery_mode.spec_code() << 8u32) | (interrupt_vector.spec_number() as u32)
        }),
{
    let c = delivery_mode.spec_code();
    let v = interrupt_vector.spec_number() as u32;
    assert(c < 8);
    assert(v < 256);
    let data = (c << 8u32) | v;
    assert((data >> 15u32) & 1 == 0 && (data >> 14u32) & 1 == 0 && (data >> 8u32) & 7 == c && data & 0xff == v
        && ((data | 0xc000u32) >> 15u32) & 1 == 1 && ((data | 0xc000u32) >> 14u32) & 1 == 1
        && ((data | 0xc000u32) >> 8u32) & 7 == c && (data | 0xc000u32) & 0xff == v) by (bit_vector)
        requires
            c < 8,
            v < 256,
            data == (c << 8u32) | v,
    ;
}

/// Computes the MSI message address and data (see `msi_message_spec`).
pub fn msi_message(apic_id: u8, trigger_mode: MSITriggerMode, delivery_mode: MSIDeliveryMode, interrupt_vector: InterruptVector) -> (r: (u32, u32))
    ensures
        r == msi_message_spec(apic_id, trigger_mode, delivery_mode, interrupt_vector),
        r.0 == 0xfee0_0000u32 | ((apic_id as u32) << 12u32),
        (r.1 >> 15u32) & 1 == (if trigger_mode == MSITriggerMode::Level { 1u32 } else { 0u32 }),
        (r.1 >> 14u32) & 1 == (if trigger_mode == MSITriggerMode::Level { 1u32 } else { 0u32 }),
        (r.1 >> 8u32) & 7 == delivery_mode.spec_code(),
        r.1 & 0xff == interrupt_vector.spec_number() as u32,
        trigger_mode == MSITriggerMode::Edge ==> r.1 == (delivery_mode.spec_code() << 8u32) | (interrupt_vector.spec_number() as u32),
{
    proof {
        lemma_msi_message(apic_id, trigger_mode, delivery_mode, interrupt_vector);
    }
    let msg_addr = 0xfee0_0000u32 | ((apic_id as u32) << 12);
    let mut msg_data = (delivery_mode.code() << 8) | interrupt_vector.number() as u32;
    if let MSITriggerMode::Level = trigger_mode {
        msg_data = msg_data | 0xc000;
    }
    (msg_addr, msg_data)
}

/// Routes the device's MSIs to one local APIC.
pub fn configure_msi_fixed_destination<C: ConfigSpace>(
    config: &mut Configuration<C>,
    pci_device: &PciDevice,
    apic_id: u8,
    trigger_mode: MSITriggerMode,
    delivery_mode: MSIDeliveryMode,
    interrupt_vector: InterruptVector,
    num_vector_exponent: usize,
) -> (r: Result<(), MsiCapabilityNotFound>)
    requires
        pci_device.spec_header_type().spec_value() == 0 || pci_device.spec_header_type().spec_value() == 1,
    ensures
        final(config).accesses().len() > old(config).accesses().len(),
        final(config).accesses().subrange(0, old(config).accesses().len() as int) == old(config).accesses(),
        ({
            let (msg_addr, msg_data) = msi_message_spec(apic_id, trigger_mode, delivery_mode, interrupt_vector);
            msi_configured(final(config).accesses(), old(config).accesses().len() as int, *pci_device, msg_addr,
                msg_data, num_vector_exponent, r is Ok)
        }),
        r is Err ==> r == Err::<(), MsiCapabilityNotFound>(MsiCapabilityNotFound),
{
    let (msg_addr, msg_data) = msi_message(apic_id, trigger_mode, delivery_mode, interrupt_vector);
    configure_msi(config, pci_device, msg_addr, msg_data, num_vector_exponent)
}

} // verus!
