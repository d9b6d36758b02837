//! Requests that the USB drivers leave for the controller's event loop.
use vstd::prelude::*;
use std::collections::VecDeque;

verus! {

/// A device behind a hub port that is to be enabled and addressed.
#[derive(Clone, Copy, Debug, PartialEq, Eq, Structural)]
pub struct InitPortDevice {
    pub port_index: u8,
    pub routing: u32,
    pub speed: u8,
    pub parent_hub_slot_id: Option<u8>,
    pub parent_port_index: Option<u8>,
}

#[derive(Clone, Copy, Debug, PartialEq, Eq, Structural)]
pub enum UserEvent {
    InitPortDevice(InitPortDevice),
}

/// A first-in first-out queue of user events.
pub struct UserEventRing {
    queue: VecDeque<UserEvent>,
}

impl View for UserEventRing {
    type V = Seq<UserEvent>;

    closed spec fn view(&self) -> Seq<UserEvent> {
        self.queue@
    }
}

impl UserEventRing {
    pub fn new() -> (r: Self)
        ensures
            r@ == Seq::<UserEvent>::empty(),
    {
        UserEventRing { queue: VecDeque::new() }
    }

    /// Queues `event` behind the others.
    pub fn push(&mut self, event: UserEvent)
        ensures
            final(self)@ == old(self)@.push(event),
    {
        self.queue.push_back(event);
    }

    /// Takes the oldest event out, `None` when there is none.
    pub fn pop(&mut self) -> (r: Option<UserEvent>)
        ensures
            old(self)@.len() == 0 ==> r is None && final(self)@ == old(self)@,
            old(self)@.len() > 0 ==> r == Some(old(self)@[0]) && final(self)@ == old(self)@.drop_first(),
    {
        self.queue.pop_front()
    }
}

} // verus!
