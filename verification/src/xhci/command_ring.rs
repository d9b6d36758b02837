//! The Command Ring (xHCI §4.6.1): software writes commands with its cycle
//! state; the last slot holds a Link TRB that sends the controller back to
//! the start and toggles the cycle state.
use vstd::prelude::*;
use crate::xhci::trb::{cycle_of, link_spec, with_cycle, TrbRaw};

verus! {

/// The TRBs of a ring as double words.
pub open spec fn trb_words(buffer: Seq<TrbRaw>) -> Seq<Seq<u32>> {
    buffer.map_values(|t: TrbRaw| t@)
}

pub proof fn lemma_trb_words(buffer: Seq<TrbRaw>)
    ensures
        trb_words(buffer).len() == buffer.len(),
        forall|i: int| 0 <= i < buffer.len() ==> #[trigger] trb_words(buffer)[i] == buffer[i]@,
{
}

/// The ring `trbs`, written at `write_index` with cycle state `cycle`, after
/// one more TRB `trb`: the TRB goes into the slot with the cycle state as its
/// Cycle bit; when that fills the slot before the last, `link` goes into the
/// last slot, writing starts over at 0 and the cycle state toggles.
pub open spec fn pushed(
    trbs: Seq<Seq<u32>>,
    write_index: int,
    cycle: bool,
    trb: Seq<u32>,
    link: Seq<u32>,
) -> (Seq<Seq<u32>>, int, bool) {
    let written = trbs.update(write_index, with_cycle(trb, cycle));
    if write_index + 1 == trbs.len() - 1 {
        (written.update(write_index + 1, link), 0, !cycle)
    } else {
        (written, write_index + 1, cycle)
    }
}

/// Who owns each slot of a ring written at `write_index` with cycle state
/// `cycle`: the slots before the write index hold TRBs of this lap (Cycle
/// bit equal to the cycle state), those from the write index up to the Link
/// TRB slot hold TRBs of the lap before (Cycle bit different). This is how
/// the controller tells the TRBs it may consume from stale ones.
pub open spec fn cycle_partitioned(trbs: Seq<Seq<u32>>, write_index: int, cycle: bool) -> bool {
    &&& forall|i: int| 0 <= i < write_index ==> #[trigger] cycle_of(trbs[i]) == cycle
    &&& forall|i: int| write_index <= i < trbs.len() - 1 ==> #[trigger] cycle_of(trbs[i]) != cycle
}

/// Setting the Cycle bit sets it.
pub proof fn lemma_with_cycle(t: Seq<u32>, c: bool)
    requires
        t.len() == 4,
    ensures
        cycle_of(with_cycle(t, c)) == c,
        with_cycle(t, c).len() == 4,
{
    let w = t[3];
    assert((w | 1) & 1 != 0 && (w & !1u32) & 1 == 0) by (bit_vector);
}

/// A fresh ring (all TRBs zero, writing at slot 0 with cycle state 1) is
/// partitioned: every slot still belongs to the lap before.
pub proof fn lemma_fresh_ring_partitioned(n: nat)
    ensures
        cycle_partitioned(Seq::new(n, |i: int| seq![0u32, 0u32, 0u32, 0u32]), 0, true),
{
    assert((0u32 & 1) == 0) by (bit_vector);
}

/// Pushing a TRB keeps the ring partitioned: the TRB gets the cycle state
/// of the lap it is written in, and when the lap ends the cycle state
/// toggles, so that all the TRBs just written belong to the lap before.
pub proof fn lemma_pushed_keeps_partition(
    trbs: Seq<Seq<u32>>,
    write_index: int,
    cycle: bool,
    trb: Seq<u32>,
    link: Seq<u32>,
)
    requires
        trbs.len() >= 2,
        0 <= write_index < trbs.len() - 1,
        trb.len() == 4,
        cycle_partitioned(trbs, write_index, cycle),
    ensures
        ({
            let (t, w, c) = pushed(trbs, write_index, cycle, trb, link);
            cycle_partitioned(t, w, c)
        }),
{
    lemma_with_cycle(trb, cycle);
    let written = trbs.update(write_index, with_cycle(trb, cycle));
    assert forall|i: int| 0 <= i <= write_index implies #[trigger] cycle_of(written[i]) == cycle by {
        if i < write_index {
            assert(cycle_of(trbs[i]) == cycle);
        }
    }
}

pub struct CommandRing {
    trb_buffer: Vec<TrbRaw>,
    write_index: usize,
    cycle_bit: bool,
}

impl CommandRing {
    pub closed spec fn trbs(&self) -> Seq<Seq<u32>> {
        trb_words(self.trb_buffer@)
    }

    pub closed spec fn spec_write_index(&self) -> int {
        self.write_index as int
    }

    pub closed spec fn spec_cycle_bit(&self) -> bool {
        self.cycle_bit
    }

    /// At least two slots, and writing happens before the last one.
    pub open spec fn wf(&self) -> bool {
        &&& self.trbs().len() >= 2
        &&& 0 <= self.spec_write_index() < self.trbs().len() - 1
    }

    /// A ring of `buf_size` zeroed TRBs with cycle state 1.
    pub fn new(buf_size: usize) -> (r: Self)
        requires
            buf_size >= 2,
        ensures
            r.wf(),
            r.trbs() == Seq::new(buf_size as nat, |i: int| seq![0u32, 0u32, 0u32, 0u32]),
            r.spec_write_index() == 0,
            r.spec_cycle_bit(),
    {
        let mut trb_buffer: Vec<TrbRaw> = Vec::new();
        let mut i: usize = 0;
        while i < buf_size
            invariant
                i <= buf_size,
                trb_buffer@.len() == i,
                forall|j: int| 0 <= j < i ==> trb_buffer@[j]@ == seq![0u32, 0u32, 0u32, 0u32],
            decreases buf_size - i,
        {
            trb_buffer.push(TrbRaw::zeroed());
            i = i + 1;
        }
        proof {
            lemma_trb_words(trb_buffer@);
            assert(trb_words(trb_buffer@) =~= Seq::new(buf_size as nat, |j: int| seq![0u32, 0u32, 0u32, 0u32]));
        }
        CommandRing { trb_buffer, write_index: 0, cycle_bit: true }
    }

    pub fn buffer_len(&self) -> (n: usize)
        ensures
            n == self.trbs().len(),
    {
        self.trb_buffer.len()
    }

    /// The TRB in slot `index`.
    pub fn trb_at(&self, index: usize) -> (t: TrbRaw)
        requires
            index < self.trbs().len(),
        ensures
            t@ == self.trbs()[index as int],
    {
        proof {
            lemma_trb_words(self.trb_buffer@);
        }
        self.trb_buffer[index]
    }

    /// The slot the next TRB goes into.
    pub fn write_index(&self) -> (i: usize)
        ensures
            i == self.spec_write_index(),
    {
        self.write_index
    }

    pub fn cycle_bit(&self) -> (b: bool)
        ensures
            b == self.spec_cycle_bit(),
    {
        self.cycle_bit
    }

    pub fn toggle_cycle_bit(&mut self)
        ensures
            final(self).spec_cycle_bit() == !old(self).spec_cycle_bit(),
            final(self).trbs() == old(self).trbs(),
            final(self).spec_write_index() == old(self).spec_write_index(),
    {
        self.cycle_bit = !self.cycle_bit;
    }

    /// Writes the command `cmd` with the ring's cycle state and returns the
    /// index of its slot; at the end of the ring a Link TRB (Toggle Cycle set)
    /// goes into the last slot.
    pub fn push(&mut self, cmd: TrbRaw) -> (index: usize)
        requires
            old(self).wf(),
        ensures
            final(self).wf(),
            index == old(self).spec_write_index(),
            (final(self).trbs(), final(self).spec_write_index(), final(self).spec_cycle_bit())
                == pushed(
                old(self).trbs(),
                old(self).spec_write_index(),
                old(self).spec_cycle_bit(),
                cmd@,
                link_spec(0, false),
            ),
    {
        proof {
            lemma_trb_words(self.trb_buffer@);
        }
        let len = self.trb_buffer.len();
        let mut stamped = cmd;
        stamped.set_cycle_bit(self.cycle_bit);
        let index = self.write_index;
        let mut slot = self.trb_buffer[index];
        slot.write_in_order(stamped);
        self.trb_buffer.set(index, slot);
        proof {
            lemma_trb_words(self.trb_buffer@);
            lemma_trb_words(old(self).trb_buffer@);
            assert(trb_words(self.trb_buffer@) =~= trb_words(old(self).trb_buffer@).update(
                index as int,
                with_cycle(cmd@, old(self).cycle_bit),
            ));
        }
        self.write_index = index + 1;
        if self.write_index == len - 1 {
            // reached the end of the ring
            let link = TrbRaw::link(0, false);
            let w = self.write_index;
            let mut last = self.trb_buffer[w];
            last.write_in_order(link);
            self.trb_buffer.set(w, last);
            proof {
                let before = trb_words(old(self).trb_buffer@).update(
                    index as int,
                    with_cycle(cmd@, old(self).cycle_bit),
                );
                lemma_trb_words(self.trb_buffer@);
                assert(self.trbs() =~= before.update(index + 1, link_spec(0, false)));
            }
            self.write_index = 0;
            self.toggle_cycle_bit();
        }
        index
    }
}

} // verus!
