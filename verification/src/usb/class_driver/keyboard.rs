//! The boot-protocol keyboard: finding its endpoint and reading its reports.
use vstd::prelude::*;
use crate::usb::descriptor::{
    chain_from, chain_ok, Descriptor, DescriptorIter, EndpointDescriptor, InterfaceDescriptor,
};
use crate::usb::class_driver::{EndpointSearcher, InputOnlyDriver};
use crate::usb::device::is_boot_keyboard_interface;

verus! {

/// The interface number and endpoint of a device's boot keyboard.
#[derive(Clone, Copy, Debug, PartialEq, Eq, Structural)]
pub struct EndpointInfo {
    pub interface_num: u8,
    pub endpoint: EndpointDescriptor,
}

/// Scans `ds` for an endpoint descriptor that belongs to a boot keyboard
/// interface: `found` is the number of the interface being read, if it is a
/// boot keyboard one; the result is the first endpoint read while it is.
pub open spec fn bootkbd_scan(ds: Seq<Descriptor>, found: Option<u8>) -> Option<EndpointInfo>
    decreases ds.len(),
{
    if ds.len() == 0 {
        None
    } else {
        match ds[0] {
            Descriptor::Interface(i) => bootkbd_scan(
                ds.drop_first(),
                if is_boot_keyboard_interface(i) {
                    Some(i.b_interface_number)
                } else {
                    None
                },
            ),
            Descriptor::Endpoint(e) => match found {
                Some(n) => Some(EndpointInfo { interface_num: n, endpoint: e }),
                None => bootkbd_scan(ds.drop_first(), found),
            },
            _ => bootkbd_scan(ds.drop_first(), found),
        }
    }
}

/// The boot keyboard endpoint of a configuration, if it has one: the first
/// endpoint that follows a boot keyboard interface descriptor.
pub fn ep_for_bootkbd(buf: &[u8]) -> (r: Option<EndpointInfo>)
    requires
        chain_ok(buf@, 0),
    ensures
        r == bootkbd_scan(chain_from(buf@, 0), None),
{
    let mut parser = DescriptorIter::new(buf);
    let mut interface_found: Option<u8> = None;
    loop
        invariant
            parser.well_formed(),
            bootkbd_scan(parser.remaining(), interface_found) == bootkbd_scan(
                chain_from(buf@, 0),
                None,
            ),
        decreases parser.remaining().len(),
    {
        let ghost before = parser.remaining();
        match parser.next() {
            None => {
                return None;
            },
            Some(desc) => {
                assert(before.drop_first() =~= parser.remaining());
                if let Descriptor::Interface(idesc) = desc {
                    if idesc.b_interface_class == 0x03 && idesc.b_interface_sub_class == 0x01
                        && idesc.b_interface_protocol == 0x01 {
                        interface_found = Some(idesc.b_interface_number);
                    } else {
                        interface_found = None;
                    }
                } else if let Descriptor::Endpoint(edesc) = desc {
                    if let Some(interface_num) = interface_found {
                        return Some(EndpointInfo { interface_num, endpoint: edesc });
                    }
                }
            },
        }
    }
}

/// Left and right shift in the modifier byte of a boot keyboard report.
pub const SHIFT_BITMASK: u8 = 0b0010_0010;

/// The characters of the boot keyboard usage codes 0 to 143, unshifted.
pub const KEYCODE_MAP: [char; 144] = [
    '\0', '\0', '\0', '\0', 'a', 'b', 'c', 'd',
    'e', 'f', 'g', 'h', 'i', 'j', 'k', 'l',
    'm', 'n', 'o', 'p', 'q', 'r', 's', 't',
    'u', 'v', 'w', 'x', 'y', 'z', '1', '2',
    '3', '4', '5', '6', '7', '8', '9', '0',
    '\n', '\u{08}', '\u{08}', '\t', ' ', '-', '=', '[',
    ']', '\\', '#', ';', '\'', '`', ',', '.',
    '/', '\0', '\0', '\0', '\0', '\0', '\0', '\0',
    '\0', '\0', '\0', '\0', '\0', '\0', '\0', '\0',
    '\0', '\0', '\0', '\0', '\0', '\0', '\0', '\0',
    '\0', '\0', '\0', '\0', '/', '*', '-', '+',
    '\n', '1', '2', '3', '4', '5', '6', '7',
    '8', '9', '0', '.', '\\', '\0', '\0', '=',
    '\0', '\0', '\0', '\0', '\0', '\0', '\0', '\0',
    '\0', '\0', '\0', '\0', '\0', '\0', '\0', '\0',
    '\0', '\0', '\0', '\0', '\0', '\0', '\0', '\0',
    '\0', '\0', '\0', '\0', '\0', '\0', '\0', '\0',
    '\0', '\\', '\0', '\0', '\0', '\0', '\0', '\0',
];

/// The characters of the boot keyboard usage codes 0 to 143 with shift.
pub const KEYCODE_MAP_SHIFTED: [char; 144] = [
    '\0', '\0', '\0', '\0', 'A', 'B', 'C', 'D',
    'E', 'F', 'G', 'H', 'I', 'J', 'K', 'L',
    'M', 'N', 'O', 'P', 'Q', 'R', 'S', 'T',
    'U', 'V', 'W', 'X', 'Y', 'Z', '!', '@',
    '#', '$', '%', '^', '&', '*', '(', ')',
    '\n', '\u{08}', '\u{08}', '\t', ' ', '_', '+', '{',
    '}', '|', '~', ':', '"', '~', '<', '>',
    '?', '\0', '\0', '\0', '\0', '\0', '\0', '\0',
    '\0', '\0', '\0', '\0', '\0', '\0', '\0', '\0',
    '\0', '\0', '\0', '\0', '\0', '\0', '\0', '\0',
    '\0', '\0', '\0', '\0', '/', '*', '-', '+',
    '\n', '1', '2', '3', '4', '5', '6', '7',
    '8', '9', '0', '.', '\\', '\0', '\0', '=',
    '\0', '\0', '\0', '\0', '\0', '\0', '\0', '\0',
    '\0', '\0', '\0', '\0', '\0', '\0', '\0', '\0',
    '\0', '\0', '\0', '\0', '\0', '\0', '\0', '\0',
    '\0', '\0', '\0', '\0', '\0', '\0', '\0', '\0',
    '\0', '|', '\0', '\0', '\0', '\0', '\0', '\0',
];

/// The character of usage code `keycode`.
pub open spec fn keycode_char(keycode: u8, shifted: bool) -> char {
    if shifted {
        KEYCODE_MAP_SHIFTED@[keycode as int]
    } else {
        KEYCODE_MAP@[keycode as int]
    }
}

/// Looks up usage code `keycode` (below 144).
pub fn keycode_to_char(keycode: u8, shifted: bool) -> (c: char)
    requires
        keycode < 144,
    ensures
        c == keycode_char(keycode, shifted),
        shifted ==> c == KEYCODE_MAP_SHIFTED@[keycode as int],
        !shifted ==> c == KEYCODE_MAP@[keycode as int],
{
    if shifted {
        KEYCODE_MAP_SHIFTED[keycode as usize]
    } else {
        KEYCODE_MAP[keycode as usize]
    }
}

/// Every usage code below 144 types the character of `KEYCODE_MAP_SHIFTED`
/// when shift is held and that of `KEYCODE_MAP` when it is not: shift changes
/// punctuation as well as letters, e.g. '-' (0x2d) becomes '_' and '/'
/// (0x38) becomes '?'.
pub proof fn lemma_keycode_char_tables(keycode: u8)
    requires
        keycode < 144,
    ensures
        keycode_char(keycode, true) == KEYCODE_MAP_SHIFTED@[keycode as int],
        keycode_char(keycode, false) == KEYCODE_MAP@[keycode as int],
{
}

/// Milliseconds to wait after setting a keyboard's address before talking
/// to it again (USB 2.0 §9.2.6.3).
pub const SETTLE_DELAY: usize = 2;

/// How many keyboards the driver supports.
pub const MAX_DEVICES: usize = 32;

/// How many endpoints the driver keeps per keyboard.
pub const MAX_ENDPOINTS: usize = 2;

/// The longest configuration the driver reads.
pub const CONFIG_BUFFER_LEN: u16 = 256;

/// The length of a boot keyboard report.
pub const N_IN_TRANSFER_BYTES: usize = 8;

impl InputOnlyDriver {
    /// The boot-protocol keyboard driver.
    pub fn new_boot_keyboard() -> (d: Self)
        ensures
            d.devices@ == Seq::new(MAX_DEVICES as nat, |i: int| None::<crate::usb::class_driver::InputOnlyDevice>),
            d.endpoint_searcher == EndpointSearcher::BootKeyboard,
            d.max_endpoints == MAX_ENDPOINTS,
            d.settle_delay == SETTLE_DELAY,
            d.config_buffer_len == CONFIG_BUFFER_LEN,
            d.n_in_transfer_bytes == N_IN_TRANSFER_BYTES,
    {
        InputOnlyDriver::new(
            MAX_DEVICES,
            EndpointSearcher::BootKeyboard,
            MAX_ENDPOINTS,
            SETTLE_DELAY,
            CONFIG_BUFFER_LEN,
            N_IN_TRANSFER_BYTES,
        )
    }
}

} // verus!
