//! What interrupt handlers leave for the kernel's main loop.
use vstd::prelude::*;
use crate::xhci::trb::TrbRaw;

verus! {

/// A message from an interrupt handler.
#[derive(Clone, Copy, Debug)]
pub enum InterruptionMessage {
    /// An event TRB that the xHCI controller posted.
    Xhci(TrbRaw),
}

} // verus!
