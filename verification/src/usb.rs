//! USB device enumeration: descriptors, setup packets, endpoint indices and
//! the class drivers' state machines.

pub mod descriptor;
pub mod setup_packet;
pub mod device;
pub mod class_driver;
