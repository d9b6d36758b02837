//! What the kernel does with the reports of a boot keyboard and a mouse.
use vstd::prelude::*;
use crate::console::AsciiWriter;
use crate::layer::{first_index, ids_of, move_ok, moved, LayerId, LayerManager, Position};
use crate::lifegame::{board_position_spec, frame_buffer_position_to_board_position};
use crate::render::Vector2D;
use crate::usb::class_driver::keyboard::{keycode_char, keycode_to_char, KEYCODE_MAP, KEYCODE_MAP_SHIFTED, SHIFT_BITMASK};

verus! {

/// The characters typed by the usage codes `codes`, skipping the zero
/// ("no key") codes.
pub open spec fn report_chars(codes: Seq<u8>, shifted: bool) -> Seq<char>
    decreases codes.len(),
{
    if codes.len() == 0 {
        seq![]
    } else if codes[0] == 0 {
        report_chars(codes.drop_first(), shifted)
    } else {
        seq![keycode_char(codes[0], shifted)] + report_chars(codes.drop_first(), shifted)
    }
}

/// A shift key is held in the report whose modifier byte is `modifiers`.
pub open spec fn shifted_spec(modifiers: u8) -> bool {
    modifiers & SHIFT_BITMASK != 0
}

/// Shift is held exactly when the left shift bit (bit 1) or the right shift
/// bit (bit 5) of the modifier byte is set.
pub proof fn lemma_shifted(modifiers: u8)
    ensures
        shifted_spec(modifiers) <==> (modifiers & 0x02 != 0 || modifiers & 0x20 != 0),
{
    assert((modifiers & 0x22 != 0) <==> (modifiers & 0x02 != 0 || modifiers & 0x20 != 0)) by (bit_vector);
}

/// Usage codes that are all keys (none zero) type one character each, in
/// order: the entry of the code in `KEYCODE_MAP_SHIFTED` with shift held, in
/// `KEYCODE_MAP` without.
pub proof fn lemma_report_chars_keys(codes: Seq<u8>, shifted: bool)
    requires
        forall|i: int| 0 <= i < codes.len() ==> 0 < #[trigger] codes[i] < 144,
    ensures
        report_chars(codes, shifted).len() == codes.len(),
        forall|i: int| 0 <= i < codes.len() ==> #[trigger] report_chars(codes, shifted)[i] == if shifted {
            KEYCODE_MAP_SHIFTED@[codes[i] as int]
        } else {
            KEYCODE_MAP@[codes[i] as int]
        },
    decreases codes.len(),
{
    if codes.len() > 0 {
        let rest = codes.drop_first();
        assert forall|i: int| 0 <= i < rest.len() implies 0 < #[trigger] rest[i] < 144 by {
            assert(rest[i] == codes[i + 1]);
        }
        lemma_report_chars_keys(rest, shifted);
        assert(codes[0] != 0);
        let r = report_chars(codes, shifted);
        assert(r == seq![keycode_char(codes[0], shifted)] + report_chars(rest, shifted));
        assert forall|i: int| 0 <= i < codes.len() implies #[trigger] r[i] == if shifted {
            KEYCODE_MAP_SHIFTED@[codes[i] as int]
        } else {
            KEYCODE_MAP@[codes[i] as int]
        } by {
            if i > 0 {
                assert(r[i] == report_chars(rest, shifted)[i - 1]);
                assert(rest[i - 1] == codes[i]);
            }
        }
    }
}

/// The characters a boot keyboard report types: byte 0 holds the modifier
/// keys, the bytes after it the usage codes of the keys held down.
pub fn keyboard(buf: &[u8]) -> (typed: Vec<char>)
    requires
        buf@.len() >= 1,
        forall|i: int| 1 <= i < buf@.len() ==> buf@[i] < 144,
    ensures
        typed@ == report_chars(buf@.drop_first(), shifted_spec(buf@[0])),
{
    let shifted = (buf[0] & SHIFT_BITMASK) != 0;
    let mut typed: Vec<char> = Vec::new();
    let mut i: usize = 1;
    while i < buf.len()
        invariant
            1 <= i <= buf@.len(),
            forall|j: int| 1 <= j < buf@.len() ==> buf@[j] < 144,
            shifted == shifted_spec(buf@[0]),
            typed@ + report_chars(buf@.skip(i as int), shifted) == report_chars(
                buf@.drop_first(),
                shifted,
            ),
        decreases buf@.len() - i,
    {
        let keycode = buf[i];
        assert(buf@.skip(i as int).drop_first() =~= buf@.skip(i + 1));
        if keycode != 0 {
            let c = keycode_to_char(keycode, shifted);
            typed.push(c);
            assert(typed@ + report_chars(buf@.skip(i + 1), shifted) =~= typed@.drop_last() + (
            seq![c] + report_chars(buf@.skip(i + 1), shifted)));
        }
        i = i + 1;
    }
    assert(buf@.skip(i as int) =~= Seq::<u8>::empty());
    assert(buf@.skip(1) =~= buf@.drop_first());
    typed
}

/// The three bytes of a boot mouse report that the kernel reads.
#[derive(Clone, Copy, Debug, PartialEq, Eq, Structural)]
pub struct MouseReport {
    pub left_click: bool,
    pub x_diff: i8,
    pub y_diff: i8,
}

pub open spec fn mouse_report_spec(buf: Seq<u8>) -> MouseReport {
    MouseReport { left_click: buf[0] & 1 != 0, x_diff: buf[1] as i8, y_diff: buf[2] as i8 }
}

/// Decodes a boot mouse report: buttons in byte 0 (bit 0 the left one),
/// then the signed movements along x and y.
pub fn decode_mouse_report(buf: &[u8]) -> (r: MouseReport)
    requires
        buf@.len() >= 3,
    ensures
        r == mouse_report_spec(buf@),
{
    MouseReport { left_click: buf[0] & 1 != 0, x_diff: buf[1] as i8, y_diff: buf[2] as i8 }
}

/// The position of the window of layer `id` in the list `layers`.
pub open spec fn layer_position_in(layers: Seq<crate::layer::Layer>, id: LayerId) -> Position {
    layers[first_index(ids_of(layers), id)].spec_window().spec_position()
}

/// Handles a mouse report: the board cell under the pointer when the left
/// button is down, and the pointer's layer `mouse_layer` moved by the
/// report's movement.
pub fn mouse<'a, W: AsciiWriter + ?Sized>(
    mgr: &mut LayerManager<'a, W>,
    mouse_layer: LayerId,
    buf: &[u8],
) -> (clicked: Option<(usize, usize)>)
    requires
        buf@.len() >= 3,
        ids_of(old(mgr).spec_layers()).contains(mouse_layer),
        move_ok(layer_position_in(old(mgr).spec_layers(), mouse_layer).x, (buf@[1] as i8) as isize),
        move_ok(layer_position_in(old(mgr).spec_layers(), mouse_layer).y, (buf@[2] as i8) as isize),
    ensures
        ({
            let p = layer_position_in(old(mgr).spec_layers(), mouse_layer);
            let i = first_index(ids_of(old(mgr).spec_layers()), mouse_layer);
            &&& clicked == if buf@[0] & 1 != 0 {
                board_position_spec(Vector2D { x: p.x, y: p.y })
            } else {
                None
            }
            &&& final(mgr).spec_layers() == old(mgr).spec_layers().update(
                i,
                old(mgr).spec_layers()[i].at(
                    Position {
                        x: moved(p.x, (buf@[1] as i8) as isize),
                        y: moved(p.y, (buf@[2] as i8) as isize),
                    },
                ),
            )
        }),
        final(mgr).spec_stack() == old(mgr).spec_stack(),
        final(mgr).spec_next_id() == old(mgr).spec_next_id(),
        old(mgr).wf() ==> final(mgr).wf(),
{
    let report = decode_mouse_report(buf);
    let layer = mgr.layer(mouse_layer);
    let pos = match layer {
        Some(l) => l.window().position(),
        None => {
            return None;
        },
    };
    let clicked = if report.left_click {
        frame_buffer_position_to_board_position(Vector2D::new(pos.x, pos.y))
    } else {
        None
    };
    mgr.move_relative(mouse_layer, report.x_diff as isize, report.y_diff as isize);
    clicked
}

} // verus!
