//! Bookkeeping of the xHCI host controller driver.
use vstd::prelude::*;

pub mod port;
pub mod user_event_ring;
pub mod trb;
pub mod command_ring;
pub mod transfer_ring;
pub mod event_ring;
pub mod device_manager;

verus! {

/// The route for the first empty tier at or above tier `i`.
pub open spec fn route_from(routing: u32, port: u8, i: nat) -> u32
    decreases 4 - i,
{
    if i >= 4 {
        0
    } else if routing & (0xfu32 << (4 * i) as u32) == 0 {
        routing | ((port as u32) << (4 * i) as u32)
    } else {
        route_from(routing, port, i + 1)
    }
}

/// The route string of a device behind `port` of the hub reached by
/// `routing`: `port` goes into the first empty 4-bit tier among the lowest
/// four; 0 when all four are taken.
pub open spec fn next_route_spec(routing: u32, port: u8) -> u32 {
    route_from(routing, port, 0)
}

/// Extends a route string by one hub tier (see `next_route_spec`).
pub fn next_route(routing: u32, port: u8) -> (r: u32)
    ensures
        r == next_route_spec(routing, port),
{
    let mut shift: u32 = 0;
    let mut i: u32 = 0;
    while i < 4
        invariant
            i <= 4,
            shift == 4 * i,
            route_from(routing, port, i as nat) == next_route_spec(routing, port),
        decreases 4 - i,
    {
        if routing & (0xf << shift) == 0 {
            return routing | ((port as u32) << shift);
        }
        shift = shift + 4;
        i = i + 1;
    }
    0
}

} // verus!
