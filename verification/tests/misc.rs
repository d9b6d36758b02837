use lemola::bootloader::{
    calc_load_address_range, kernel_load_range, segment_ends_fit, ProgramSegment, PT_LOAD,
};
use lemola::console::Color;
use lemola::futures::{yield_pending, PendingOnceFuture, PollState};
use lemola::lifegame::{frame_buffer_position_to_board_position, LifegameAction, LifegameCadence, CLICK_ROUNDS};
use lemola::memory::{largest_usable_region, MemoryRegion};
use lemola::multitasking::{Executor, Priority, Task};
use lemola::render::Vector2D;
use lemola::shapes::{decode, CursorShape, MouseCursorPixel, Shape};

#[test]
fn pending_once_future_yields_exactly_once() {
    let mut f = PendingOnceFuture::new();
    assert_eq!(f.poll(), PollState::Pending);
    assert_eq!(f.poll(), PollState::Ready);
    assert_eq!(f.poll(), PollState::Ready);
    let mut g = yield_pending();
    assert!(!g.polled);
    assert_eq!(g.poll(), PollState::Pending);
}

#[test]
fn executor_is_round_robin() {
    let mut e: Executor<u32> = Executor::new();
    assert_eq!(e.next_task(), None);
    e.spawn(1);
    e.spawn(2);
    e.spawn(3);
    let t = e.next_task().unwrap();
    assert_eq!(t, 1);
    e.polled(t, false);
    let t = e.next_task().unwrap();
    assert_eq!(t, 2);
    e.polled(t, true);
    assert_eq!(e.next_task(), Some(3));
    assert_eq!(e.next_task(), Some(1));
    assert_eq!(e.next_task(), None);
    assert_eq!(Priority::High.value(), 0);
    assert_eq!(Priority::Default.value(), 10);
}

#[test]
fn cursor_rows_decode_and_render() {
    let row = decode(b"@ .");
    assert_eq!(row, vec![MouseCursorPixel::Frame, MouseCursorPixel::BackGround, MouseCursorPixel::Cursor]);
    assert_eq!(Color::from(MouseCursorPixel::Cursor), Color::new(255, 255, 255));
    assert_eq!(Color::from(MouseCursorPixel::Frame), Color::new(0, 0, 0));
    assert_eq!(Color::from(MouseCursorPixel::BackGround), Color::new(173, 216, 230));
    let shape = CursorShape::new(vec![decode(b"@.."), decode(b"@@ ")]);
    assert_eq!(shape.get_width(), 3);
    assert_eq!(shape.get_height(), 2);
    assert_eq!(shape.get_pixel(1, 0), Color::new(255, 255, 255));
    assert_eq!(shape.get_pixel(2, 1), Color::new(173, 216, 230));
}

/// A little-endian ELF64 file with the given program headers.
fn elf_file(headers: &[(u32, u64, u64)]) -> Vec<u8> {
    let mut f = vec![0u8; 64];
    f[0..4].copy_from_slice(&[0x7f, b'E', b'L', b'F']);
    f[4] = 2; // 64-bit
    f[5] = 1; // little endian
    f[6] = 1; // version
    f[16..18].copy_from_slice(&2u16.to_le_bytes()); // executable
    f[18..20].copy_from_slice(&0x3eu16.to_le_bytes()); // x86-64
    f[20..24].copy_from_slice(&1u32.to_le_bytes());
    f[32..40].copy_from_slice(&64u64.to_le_bytes()); // e_phoff
    f[52..54].copy_from_slice(&64u16.to_le_bytes()); // e_ehsize
    f[54..56].copy_from_slice(&56u16.to_le_bytes()); // e_phentsize
    f[56..58].copy_from_slice(&(headers.len() as u16).to_le_bytes());
    for (p_type, vaddr, memsz) in headers {
        let mut h = vec![0u8; 56];
        h[0..4].copy_from_slice(&p_type.to_le_bytes());
        h[16..24].copy_from_slice(&vaddr.to_le_bytes());
        h[24..32].copy_from_slice(&vaddr.to_le_bytes());
        h[40..48].copy_from_slice(&memsz.to_le_bytes());
        f.extend_from_slice(&h);
    }
    f
}

#[test]
fn load_range_covers_the_loadable_segments() {
    let file = elf_file(&[(1, 0x10_0000, 0x2000), (4, 0x10, 0x10), (1, 0x20_0000, 0x500)]);
    assert_eq!(kernel_load_range(&file), Some((0x10_0000, 0x20_0500)));
    assert_eq!(kernel_load_range(b"not an elf file"), None);
    // a segment ending beyond the address space
    let wrap = elf_file(&[(1, u64::MAX - 4, 0x10)]);
    assert_eq!(kernel_load_range(&wrap), None);
}

#[test]
fn load_range_of_segment_lists() {
    let segs = vec![
        ProgramSegment { p_type: PT_LOAD, p_offset: 0, p_vaddr: 0x3000, p_memsz: 0x100 },
        ProgramSegment { p_type: 2, p_offset: 0, p_vaddr: 0x10, p_memsz: 0x1_0000 },
        ProgramSegment { p_type: PT_LOAD, p_offset: 0, p_vaddr: 0x1000, p_memsz: 0x10 },
    ];
    assert!(segment_ends_fit(&segs));
    assert_eq!(calc_load_address_range(&segs), (0x1000, 0x3100));
    assert_eq!(calc_load_address_range(&vec![]), (u64::MAX, 0));
}

#[test]
fn clicks_map_to_board_cells() {
    assert_eq!(frame_buffer_position_to_board_position(Vector2D::new(45, 61)), Some((1, 2)));
    assert_eq!(frame_buffer_position_to_board_position(Vector2D::new(600, 0)), None);
    assert_eq!(frame_buffer_position_to_board_position(Vector2D::new(usize::MAX, 0)), None);
}

#[test]
fn tasks_compare_by_priority() {
    let a = Task::new(Priority::High, 1u8);
    let b = Task::new(Priority::High, 2u8);
    let c = Task::new(Priority::Default, 1u8);
    assert!(a == b);
    assert!(a != c);
    assert_eq!(c.future, 1);
    assert_eq!(c.priority, Priority::Default);
}

#[test]
fn the_heap_is_the_largest_usable_region_the_last_of_equals() {
    let regions = vec![
        MemoryRegion::new(7, 0x1000, 4),
        MemoryRegion::new(0, 0x10_0000, 100),
        MemoryRegion::new(3, 0x20_0000, 8),
        MemoryRegion::new(4, 0x30_0000, 8),
        MemoryRegion::new(2, 0x40_0000, 8),
    ];
    assert!(!regions[1].usable);
    assert!(!regions[4].usable);
    let i = largest_usable_region(&regions).unwrap();
    assert_eq!(i, 3);
    assert_eq!(regions[i].end(), 0x30_8000);
    let none = vec![MemoryRegion::new(1, 0, 10)];
    assert_eq!(largest_usable_region(&none), None);
}

#[test]
fn the_game_takes_clicks_then_flushes_then_advances() {
    let mut cadence = LifegameCadence::new();
    for _ in 0..CLICK_ROUNDS {
        assert_eq!(cadence.next_action(), LifegameAction::TakeClicks);
    }
    assert_eq!(cadence.next_action(), LifegameAction::Flush);
    assert_eq!(cadence.next_action(), LifegameAction::Advance);
    assert_eq!(cadence.next_action(), LifegameAction::TakeClicks);
}
