//! Verified core of a small x86-64 hobby kernel: memory allocation arithmetic,
//! a text console, window layers, PCI / MSI register layouts and the xHCI
//! bookkeeping that decides how USB ports are brought up.

pub mod allocator;
pub mod console;
pub mod pixel;
pub mod types;
pub mod layer;
pub mod lifegame;
pub mod render;
pub mod bits;
pub mod pci;
pub mod pci_register;
pub mod xhci;
pub mod usb;
pub mod futures;
pub mod multitasking;
pub mod shapes;
pub mod bootloader;
pub mod font;
pub mod font_text;
pub mod graphics;
pub mod memory;
pub mod interrupts;
