# lemola

The logic of a small x86-64 hobby kernel, verified with Verus: a text
console, window layers and drawing, an 8x16 bitmap font and its text format,
the game of life, heap allocators, PCI configuration and MSI set-up, the
xHCI host controller's rings, ports and device slots, USB descriptors,
setup packets and the state machines of the keyboard and hub drivers, a
round-robin task queue, and the ELF load range of the kernel image.

- `src/` is the verified library. Every public function states what it
  returns or changes; the laws that span several functions are public proof
  functions next to the code they are about. The few calls into the
  `bit_field`, `usb-host`, `xhci` and `elf` crates go through small trusted
  wrappers whose contracts say what those crates do.
- `tests/` runs the library on concrete values.
- `app/` is the kernel around it: frame buffer and serial output, the log,
  PCI configuration ports, the controller's memory-mapped registers and DMA
  memory, and the task loop. It takes no decisions of its own.
