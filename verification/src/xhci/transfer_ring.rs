//! A Transfer Ring (xHCI §4.9.2) of one endpoint. Its TRBs live at
//! `segment_address` in memory the controller reads; the Link TRB in the
//! last slot points back there.
use vstd::prelude::*;
use crate::xhci::command_ring::{
    cycle_partitioned, lemma_pushed_keeps_partition, lemma_trb_words, pushed, trb_words,
};
use crate::usb::setup_packet::SetupPacketRaw;
use crate::xhci::trb::{
    cycle_of, data_stage_in_spec, is_normal_spec, link_spec, normal_spec, setup_stage_spec,
    status_stage_spec, with_buffer_of, with_cycle, TrbRaw, TRANSFER_TYPE_IN, TRANSFER_TYPE_NO_DATA,
};

verus! {

/// The size of a TRB in bytes.
pub const TRB_SIZE: u64 = 16;

/// A ring's contents, write index and cycle state after the TRBs `trbs` were
/// pushed one after the other onto a ring at `segment` in the state `s`.
pub open spec fn pushed_all(
    s: (Seq<Seq<u32>>, int, bool),
    trbs: Seq<Seq<u32>>,
    segment: u64,
) -> (Seq<Seq<u32>>, int, bool)
    decreases trbs.len(),
{
    if trbs.len() == 0 {
        s
    } else {
        let before = pushed_all(s, trbs.drop_last(), segment);
        pushed(before.0, before.1, before.2, trbs.last(), link_spec(segment, before.2))
    }
}

/// Pushing TRBs one after the other keeps a ring partitioned between the
/// current lap and the one before (see `cycle_partitioned`), whatever the
/// TRBs, and keeps its length and a write index before the Link TRB slot.
pub proof fn lemma_pushed_all_keeps_partition(
    s: (Seq<Seq<u32>>, int, bool),
    trbs: Seq<Seq<u32>>,
    segment: u64,
)
    requires
        s.0.len() >= 2,
        0 <= s.1 < s.0.len() - 1,
        forall|k: int| 0 <= k < trbs.len() ==> (#[trigger] trbs[k]).len() == 4,
        cycle_partitioned(s.0, s.1, s.2),
    ensures
        ({
            let r = pushed_all(s, trbs, segment);
            &&& r.0.len() == s.0.len()
            &&& 0 <= r.1 < r.0.len() - 1
            &&& cycle_partitioned(r.0, r.1, r.2)
        }),
    decreases trbs.len(),
{
    if trbs.len() > 0 {
        lemma_pushed_all_keeps_partition(s, trbs.drop_last(), segment);
        let before = pushed_all(s, trbs.drop_last(), segment);
        assert(trbs.last() == trbs[trbs.len() - 1]);
        lemma_pushed_keeps_partition(before.0, before.1, before.2, trbs.last(), link_spec(segment, before.2));
    }
}

/// The TRBs of a control transfer (xHCI §4.11.2.2) for the request `setup`:
/// with an IN data buffer (`Some((address, length))`), a Setup Stage of
/// Transfer Type IN, an IN Data Stage that interrupts on completion and a
/// Status Stage; without one, a Setup Stage of Transfer Type No Data and an
/// IN Status Stage that interrupts on completion.
pub open spec fn control_transfer_trbs(setup: SetupPacketRaw, data: Option<(u64, u32)>) -> Seq<
    Seq<u32>,
> {
    match data {
        Some((buffer, length)) => seq![
            setup_stage_spec(setup, TRANSFER_TYPE_IN as u32),
            data_stage_in_spec(buffer, length),
            status_stage_spec(false, false),
        ],
        None => seq![
            setup_stage_spec(setup, TRANSFER_TYPE_NO_DATA as u32),
            status_stage_spec(true, true),
        ],
    }
}

pub struct TransferRing {
    trb_buffer: Vec<TrbRaw>,
    write_index: usize,
    cycle_bit: bool,
    segment_address: u64,
}

impl TransferRing {
    pub closed spec fn trbs(&self) -> Seq<Seq<u32>> {
        trb_words(self.trb_buffer@)
    }

    pub closed spec fn spec_write_index(&self) -> int {
        self.write_index as int
    }

    pub closed spec fn spec_cycle_bit(&self) -> bool {
        self.cycle_bit
    }

    pub closed spec fn spec_segment_address(&self) -> u64 {
        self.segment_address
    }

    /// At least two slots, writing happens before the last one, and the
    /// segment is 16-byte aligned and addressable.
    pub open spec fn wf(&self) -> bool {
        &&& self.trbs().len() >= 2
        &&& 0 <= self.spec_write_index() < self.trbs().len() - 1
        &&& self.spec_segment_address() % 16 == 0
        &&& self.spec_segment_address() + 16 * self.trbs().len() <= u64::MAX
    }

    /// A ring of `buf_size` zeroed TRBs at `segment_address`, cycle state 1.
    pub fn new(buf_size: usize, segment_address: u64) -> (r: Self)
        requires
            buf_size >= 2,
            segment_address % 16 == 0,
            segment_address + 16 * buf_size <= u64::MAX,
        ensures
            r.wf(),
            r.trbs() == Seq::new(buf_size as nat, |i: int| seq![0u32, 0u32, 0u32, 0u32]),
            r.spec_write_index() == 0,
            r.spec_cycle_bit(),
            r.spec_segment_address() == segment_address,
    {
        let mut trb_buffer: Vec<TrbRaw> = Vec::new();
        let mut i: usize = 0;
        while i < buf_size
            invariant
                i <= buf_size,
                trb_buffer@.len() == i,
                forall|j: int| 0 <= j < i ==> trb_buffer@[j]@ == seq![0u32, 0u32, 0u32, 0u32],
            decreases buf_size - i,
        {
            trb_buffer.push(TrbRaw::zeroed());
            i = i + 1;
        }
        proof {
            lemma_trb_words(trb_buffer@);
            assert(trb_words(trb_buffer@) =~= Seq::new(buf_size as nat, |j: int| seq![0u32, 0u32, 0u32, 0u32]));
        }
        TransferRing { trb_buffer, write_index: 0, cycle_bit: true, segment_address }
    }

    pub fn buffer_len(&self) -> (n: usize)
        ensures
            n == self.trbs().len(),
    {
        self.trb_buffer.len()
    }

    /// The address of the ring's first TRB.
    pub fn buffer_ptr(&self) -> (a: u64)
        ensures
            a == self.spec_segment_address(),
    {
        self.segment_address
    }

    /// The address of the TRB in slot `index`.
    pub fn trb_address(&self, index: usize) -> (a: u64)
        requires
            self.wf(),
            index < self.trbs().len(),
        ensures
            a == self.spec_segment_address() + 16 * index,
    {
        self.segment_address + TRB_SIZE * (index as u64)
    }

    /// The TRB in slot `index`.
    pub fn trb_at(&self, index: usize) -> (t: TrbRaw)
        requires
            index < self.trbs().len(),
        ensures
            t@ == self.trbs()[index as int],
    {
        proof {
            lemma_trb_words(self.trb_buffer@);
        }
        self.trb_buffer[index]
    }

    /// The slot the next TRB goes into.
    pub fn write_index(&self) -> (i: usize)
        ensures
            i == self.spec_write_index(),
    {
        self.write_index
    }

    pub fn cycle_bit(&self) -> (b: bool)
        ensures
            b == self.spec_cycle_bit(),
    {
        self.cycle_bit
    }

    pub fn toggle_cycle_bit(&mut self)
        ensures
            final(self).spec_cycle_bit() == !old(self).spec_cycle_bit(),
            final(self).trbs() == old(self).trbs(),
            final(self).spec_write_index() == old(self).spec_write_index(),
            final(self).spec_segment_address() == old(self).spec_segment_address(),
    {
        self.cycle_bit = !self.cycle_bit;
    }

    /// The Cycle bits of the ring's TRBs, in order.
    pub fn cycle_bits(&self) -> (bits: Vec<bool>)
        ensures
            bits@.len() == self.trbs().len(),
            forall|i: int| 0 <= i < bits@.len() ==> bits@[i] == cycle_of(self.trbs()[i]),
    {
        proof {
            lemma_trb_words(self.trb_buffer@);
        }
        let mut bits: Vec<bool> = Vec::new();
        let mut i: usize = 0;
        while i < self.trb_buffer.len()
            invariant
                i <= self.trb_buffer@.len(),
                bits@.len() == i,
                forall|j: int| 0 <= j < i ==> bits@[j] == cycle_of(self.trbs()[j]),
                forall|j: int| 0 <= j < self.trb_buffer@.len() ==> #[trigger] trb_words(self.trb_buffer@)[j] == self.trb_buffer@[j]@,
            decreases self.trb_buffer@.len() - i,
        {
            bits.push(self.trb_buffer[i].cycle_bit());
            i = i + 1;
        }
        bits
    }

    /// Moves the write position one slot on from `index`, which was just
    /// written; at the end of the ring the Link TRB (with the cycle state as
    /// its Cycle bit) goes into the last slot, writing starts over at 0 and
    /// the cycle state toggles.
    fn advance_from(&mut self, index: usize)
        requires
            old(self).wf(),
            index < old(self).trbs().len() - 1,
        ensures
            final(self).wf(),
            final(self).spec_segment_address() == old(self).spec_segment_address(),
            (final(self).trbs(), final(self).spec_write_index(), final(self).spec_cycle_bit()) == if index + 1 == old(self).trbs().len() - 1 {
                (old(self).trbs().update(index + 1, link_spec(old(self).spec_segment_address(), old(self).spec_cycle_bit())), 0int, !old(self).spec_cycle_bit())
            } else {
                (old(self).trbs(), index + 1, old(self).spec_cycle_bit())
            },
    {
        proof {
            lemma_trb_words(self.trb_buffer@);
        }
        let len = self.trb_buffer.len();
        self.write_index = index + 1;
        if self.write_index == len - 1 {
            // reached the end of the ring
            let link = TrbRaw::link(self.segment_address, self.cycle_bit);
            let w = self.write_index;
            let mut last = self.trb_buffer[w];
            last.write_in_order(link);
            self.trb_buffer.set(w, last);
            proof {
                lemma_trb_words(self.trb_buffer@);
                lemma_trb_words(old(self).trb_buffer@);
                assert(self.trbs() =~= old(self).trbs().update(
                    index + 1,
                    link_spec(old(self).segment_address, old(self).cycle_bit),
                ));
            }
            self.write_index = 0;
            self.toggle_cycle_bit();
        }
    }

    /// Writes `trb` with the ring's cycle state and returns the index of its
    /// slot (see `pushed`).
    pub fn push(&mut self, trb: TrbRaw) -> (index: usize)
        requires
            old(self).wf(),
        ensures
            final(self).wf(),
            index == old(self).spec_write_index(),
            final(self).spec_segment_address() == old(self).spec_segment_address(),
            (final(self).trbs(), final(self).spec_write_index(), final(self).spec_cycle_bit())
                == pushed(
                old(self).trbs(),
                old(self).spec_write_index(),
                old(self).spec_cycle_bit(),
                trb@,
                link_spec(old(self).spec_segment_address(), old(self).spec_cycle_bit()),
            ),
    {
        proof {
            lemma_trb_words(self.trb_buffer@);
        }
        let mut stamped = trb;
        stamped.set_cycle_bit(self.cycle_bit);
        let index = self.write_index;
        let mut slot = self.trb_buffer[index];
        slot.write_in_order(stamped);
        self.trb_buffer.set(index, slot);
        proof {
            lemma_trb_words(self.trb_buffer@);
            lemma_trb_words(old(self).trb_buffer@);
            assert(self.trbs() =~= old(self).trbs().update(
                index as int,
                with_cycle(trb@, old(self).cycle_bit),
            ));
        }
        self.advance_from(index);
        index
    }

    /// Pushes the TRBs of a control transfer for `setup` (see
    /// `control_transfer_trbs`) and returns the addresses of the slots they
    /// went into, in order: the TRBs whose completion the caller awaits.
    pub fn push_control_transfer(
        &mut self,
        setup: SetupPacketRaw,
        data: Option<(u64, u32)>,
    ) -> (addresses: Vec<u64>)
        requires
            old(self).wf(),
            data matches Some((_, length)) ==> length < 0x2_0000,
        ensures
            final(self).wf(),
            final(self).spec_segment_address() == old(self).spec_segment_address(),
            ({
                let trbs = control_transfer_trbs(setup, data);
                let s0 = (old(self).trbs(), old(self).spec_write_index(), old(self).spec_cycle_bit());
                &&& (final(self).trbs(), final(self).spec_write_index(), final(self).spec_cycle_bit())
                    == pushed_all(s0, trbs, old(self).spec_segment_address())
                &&& addresses@.len() == trbs.len()
                &&& forall|k: int|
                    0 <= k < trbs.len() ==> #[trigger] addresses@[k] == old(self).spec_segment_address()
                        + 16 * pushed_all(s0, trbs.take(k), old(self).spec_segment_address()).1
            }),
    {
        let mut trbs: Vec<TrbRaw> = Vec::new();
        match data {
            Some((buffer, length)) => {
                trbs.push(TrbRaw::setup_stage(setup, TRANSFER_TYPE_IN));
                trbs.push(TrbRaw::data_stage_in(buffer, length));
                trbs.push(TrbRaw::status_stage(false, false));
            },
            None => {
                trbs.push(TrbRaw::setup_stage(setup, TRANSFER_TYPE_NO_DATA));
                trbs.push(TrbRaw::status_stage(true, true));
            },
        }
        let ghost words = control_transfer_trbs(setup, data);
        assert(trb_words(trbs@) =~= words) by {
            lemma_trb_words(trbs@);
        }
        let ghost s0 = (self.trbs(), self.spec_write_index(), self.spec_cycle_bit());
        let ghost segment = self.spec_segment_address();
        let mut addresses: Vec<u64> = Vec::new();
        let mut i: usize = 0;
        while i < trbs.len()
            invariant
                i <= trbs@.len(),
                trb_words(trbs@) == words,
                self.wf(),
                self.spec_segment_address() == segment,
                (self.trbs(), self.spec_write_index(), self.spec_cycle_bit()) == pushed_all(
                    s0,
                    words.take(i as int),
                    segment,
                ),
                addresses@.len() == i,
                forall|k: int|
                    0 <= k < i ==> #[trigger] addresses@[k] == segment + 16 * pushed_all(
                        s0,
                        words.take(k),
                        segment,
                    ).1,
            decreases trbs@.len() - i,
        {
            proof {
                lemma_trb_words(trbs@);
                assert(words.take(i as int + 1).drop_last() =~= words.take(i as int));
                assert(words.take(i as int + 1).last() == trbs@[i as int]@);
            }
            let index = self.push(trbs[i]);
            let a = self.trb_address(index);
            addresses.push(a);
            i = i + 1;
        }
        assert(words.take(words.len() as int) =~= words);
        addresses
    }

    /// Fills every slot but the last with a Normal TRB for `buf_size` bytes
    /// at the matching address of `buffers` (see `normal_spec`), pushed one
    /// after the other.
    pub fn fill_with_normal(&mut self, buffers: &Vec<u64>, buf_size: u32)
        requires
            old(self).wf(),
            buffers@.len() == old(self).trbs().len() - 1,
            buf_size < 0x2_0000,
        ensures
            final(self).wf(),
            final(self).spec_segment_address() == old(self).spec_segment_address(),
            (final(self).trbs(), final(self).spec_write_index(), final(self).spec_cycle_bit())
                == pushed_all(
                (old(self).trbs(), old(self).spec_write_index(), old(self).spec_cycle_bit()),
                buffers@.map_values(|b: u64| normal_spec(b, buf_size)),
                old(self).spec_segment_address(),
            ),
    {
        let ghost words = buffers@.map_values(|b: u64| normal_spec(b, buf_size));
        let ghost s0 = (self.trbs(), self.spec_write_index(), self.spec_cycle_bit());
        let ghost segment = self.spec_segment_address();
        let mut i: usize = 0;
        while i < buffers.len()
            invariant
                i <= buffers@.len(),
                buf_size < 0x2_0000,
                words == buffers@.map_values(|b: u64| normal_spec(b, buf_size)),
                self.wf(),
                self.spec_segment_address() == segment,
                (self.trbs(), self.spec_write_index(), self.spec_cycle_bit()) == pushed_all(
                    s0,
                    words.take(i as int),
                    segment,
                ),
            decreases buffers@.len() - i,
        {
            proof {
                assert(words.take(i as int + 1).drop_last() =~= words.take(i as int));
            }
            self.push(TrbRaw::normal(buffers[i], buf_size));
            i = i + 1;
        }
        assert(words.take(words.len() as int) =~= words);
    }

    /// Pushes `cmd` with the data buffer of the Normal TRB in the slot it
    /// goes into (see `with_buffer_of`), and returns that slot's index.
    pub fn push_with_existing_buf(&mut self, cmd: TrbRaw) -> (index: usize)
        requires
            old(self).wf(),
            is_normal_spec(old(self).trbs()[old(self).spec_write_index()]),
        ensures
            final(self).wf(),
            index == old(self).spec_write_index(),
            final(self).spec_segment_address() == old(self).spec_segment_address(),
            (final(self).trbs(), final(self).spec_write_index(), final(self).spec_cycle_bit())
                == pushed(
                old(self).trbs(),
                old(self).spec_write_index(),
                old(self).spec_cycle_bit(),
                with_buffer_of(cmd@, old(self).trbs()[old(self).spec_write_index()]),
                link_spec(old(self).spec_segment_address(), old(self).spec_cycle_bit()),
            ),
    {
        let existing = self.trb_at(self.write_index);
        self.push(cmd.with_buffer_of(existing))
    }

    /// The slot of the TRB at address `trb_pointer` in the ring.
    pub open spec fn slot_of(&self, trb_pointer: u64) -> int {
        (trb_pointer - self.spec_segment_address()) / 16
    }

    /// The controller completed the TRB at `trb_pointer`, which lies in the
    /// ring before its last slot: its Cycle bit is inverted, so that the slot
    /// can be handed to the controller again, and writing goes on after it.
    pub fn flip_cycle_bit_at(&mut self, trb_pointer: u64)
        requires
            old(self).wf(),
            old(self).spec_segment_address() <= trb_pointer,
            old(self).slot_of(trb_pointer) < old(self).trbs().len() - 1,
        ensures
            final(self).wf(),
            final(self).spec_segment_address() == old(self).spec_segment_address(),
            ({
                let i = old(self).slot_of(trb_pointer);
                let flipped = old(self).trbs().update(
                    i,
                    with_cycle(old(self).trbs()[i], !cycle_of(old(self).trbs()[i])),
                );
                (final(self).trbs(), final(self).spec_write_index(), final(self).spec_cycle_bit())
                    == if i + 1 == old(self).trbs().len() - 1 {
                    (
                        flipped.update(
                            i + 1,
                            link_spec(old(self).spec_segment_address(), old(self).spec_cycle_bit()),
                        ),
                        0int,
                        !old(self).spec_cycle_bit(),
                    )
                } else {
                    (flipped, i + 1, old(self).spec_cycle_bit())
                }
            }),
    {
        proof {
            lemma_trb_words(self.trb_buffer@);
        }
        let len = self.trb_buffer.len();
        let offset = (trb_pointer - self.segment_address) / TRB_SIZE;
        assert(offset < len);
        let index = offset as usize;
        let mut t = self.trb_buffer[index];
        t.toggle_cycle_bit();
        self.trb_buffer.set(index, t);
        proof {
            lemma_trb_words(self.trb_buffer@);
            lemma_trb_words(old(self).trb_buffer@);
            let i = old(self).slot_of(trb_pointer);
            assert(self.trbs() =~= old(self).trbs().update(
                i,
                with_cycle(old(self).trbs()[i], !cycle_of(old(self).trbs()[i])),
            ));
        }
        self.advance_from(index);
    }
}

} // verus!
