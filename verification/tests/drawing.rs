use std::cell::RefCell;

use lemola::console::{AsciiWriter, Color, PixcelInfo, PixcelWritable};
use lemola::font::{glyph_pixels, write_ascii, write_glyph};
use lemola::layer::{Layer, LayerId, LayerManager, Position, Window};
use lemola::lifegame::{apply_clicks, initial_board, process, INITIAL_PATTERN, SIZE};
use lemola::render::{Renderer, RendererMut, Vector2D};
use lemola::shapes::{CursorShape, MouseCursorPixel};
use lemola::types::PixcelFormat;
use lemola::usb::class_driver::callbacks::mouse;

const SCREEN: usize = 64;

/// A screen that records the pixels drawn on it one by one.
struct Screen {
    pixels: RefCell<Vec<Vec<Option<Color>>>>,
}

impl Screen {
    fn new() -> Self {
        Self {
            pixels: RefCell::new(vec![vec![None; SCREEN]; SCREEN]),
        }
    }

    fn at(&self, x: usize, y: usize) -> Option<Color> {
        self.pixels.borrow()[y][x]
    }
}

impl PixcelWritable for Screen {
    fn write(&self, x: usize, y: usize, color: Color) {
        self.pixels.borrow_mut()[y][x] = Some(color);
    }

    fn write_bytes(&self, _byte_offset: usize, _bytes: &[u8]) {
        panic!("a transparent window is drawn pixel by pixel")
    }
}

impl PixcelInfo for Screen {
    fn reported_horizontal_resolution(&self) -> usize {
        self.horizontal_resolution()
    }

    fn reported_pixcels_per_scan_line(&self) -> usize {
        self.pixcels_per_scan_line()
    }

    fn get_pixcel_format(&self) -> PixcelFormat {
        PixcelFormat::Bgr
    }
    fn get_num_pixcels(&self) -> usize {
        SCREEN * SCREEN
    }
    fn horizontal_resolution(&self) -> usize {
        SCREEN
    }
    fn vertical_resolution(&self) -> usize {
        SCREEN
    }
    fn pixcels_per_scan_line(&self) -> usize {
        SCREEN
    }
}

impl AsciiWriter for Screen {
    fn write_ascii(&self, _x: usize, _y: usize, _c: char, _bg: Color, _fg: Color) {}
}

fn clear() -> Color {
    Color::new(1, 2, 3)
}

/// A layer of `w` by `h` pixels at the origin whose untouched pixels are
/// transparent, so that flushing it shows exactly what was drawn.
fn canvas(w: usize, h: usize) -> Layer {
    let window = Window::new(w, h, PixcelFormat::Bgr, Some(clear()), Position::new(0, 0));
    Layer::new(LayerId::uninitialized(), window)
}

fn shown(layer: &Layer) -> Screen {
    let screen = Screen::new();
    layer.window().flush(&screen);
    screen
}

#[test]
fn fill_rect_paints_the_rectangle_only() {
    let mut layer = canvas(10, 10);
    let red = Color::new(255, 0, 0);
    layer.fill_rect(Vector2D::new(2, 3), Vector2D::new(4, 2), red);
    let screen = shown(&layer);
    for y in 0..10 {
        for x in 0..10 {
            let inside = (2..6).contains(&x) && (3..5).contains(&y);
            assert_eq!(screen.at(x, y), if inside { Some(red) } else { None }, "({x}, {y})");
        }
    }
}

#[test]
fn draw_rect_outline_paints_the_border_only() {
    let mut layer = canvas(10, 10);
    let green = Color::new(0, 255, 0);
    layer.draw_rect_outline(Vector2D::new(1, 1), Vector2D::new(4, 3), green);
    let screen = shown(&layer);
    for y in 0..10 {
        for x in 0..10 {
            let in_box = (1..5).contains(&x) && (1..4).contains(&y);
            let border = in_box && (x == 1 || x == 4 || y == 1 || y == 3);
            assert_eq!(screen.at(x, y), if border { Some(green) } else { None }, "({x}, {y})");
        }
    }
}

#[test]
fn render_board_draws_cells_with_white_outlines() {
    let mut layer = canvas(12, 12);
    let blue = Color::new(0, 0, 255);
    let board = vec![vec![true, false], vec![false, true]];
    layer.render_board(&board, Vector2D::new(1, 1), 4, blue);
    let screen = shown(&layer);
    let white = Color::white();
    let black = Color::new(0, 0, 0);
    for y in 0..12 {
        for x in 0..12 {
            let expected = if (1..9).contains(&x) && (1..9).contains(&y) {
                let (cx, cy) = ((x - 1) / 4, (y - 1) / 4);
                let (ox, oy) = ((x - 1) % 4, (y - 1) % 4);
                if ox == 0 || oy == 0 || ox == 3 || oy == 3 {
                    Some(white)
                } else if board[cy][cx] {
                    Some(blue)
                } else {
                    Some(black)
                }
            } else {
                None
            };
            assert_eq!(screen.at(x, y), expected, "({x}, {y})");
        }
    }
}

#[test]
fn fill_shape_copies_the_picture() {
    let rows = vec![
        vec![MouseCursorPixel::Frame, MouseCursorPixel::Cursor, MouseCursorPixel::BackGround],
        vec![MouseCursorPixel::Cursor, MouseCursorPixel::Frame, MouseCursorPixel::Frame],
    ];
    let shape = CursorShape::new(rows.clone());
    let mut layer = canvas(8, 8);
    layer.fill_shape(Vector2D::new(3, 4), &shape);
    let screen = shown(&layer);
    for y in 0..8 {
        for x in 0..8 {
            let expected = if (3..6).contains(&x) && (4..6).contains(&y) {
                Some(Color::from(rows[y - 4][x - 3]))
            } else {
                None
            };
            assert_eq!(screen.at(x, y), expected, "({x}, {y})");
        }
    }
    assert_eq!(Color::from(MouseCursorPixel::BackGround), Color::new(173, 216, 230));
}

#[test]
fn glyphs_set_the_pixels_of_their_set_bits() {
    let mut glyph = [0u8; 16];
    glyph[0] = 0b1000_0001;
    glyph[15] = 0b0001_0000;
    let mut layer = canvas(20, 20);
    let fg = Color::new(9, 9, 9);
    write_glyph(&mut layer, 2, 1, &glyph, fg);
    let screen = shown(&layer);
    for y in 0..20 {
        for x in 0..20 {
            let set = (x, y) == (2, 1) || (x, y) == (9, 1) || (x, y) == (5, 16);
            assert_eq!(screen.at(x, y), if set { Some(fg) } else { None }, "({x}, {y})");
        }
    }
}

#[test]
fn write_ascii_takes_the_glyph_of_the_character_code() {
    let mut font: Vec<Vec<u8>> = vec![vec![0u8; 16]; 0x42];
    font[0x41][3] = 0b0100_0000;
    let mut layer = canvas(10, 20);
    let fg = Color::new(7, 7, 7);
    write_ascii(&mut layer, 0, 0, 'A', &font, fg);
    // 'B' has no glyph in this font and draws nothing
    write_ascii(&mut layer, 0, 0, 'B', &font, fg);
    let screen = shown(&layer);
    for y in 0..20 {
        for x in 0..10 {
            let set = (x, y) == (1, 3);
            assert_eq!(screen.at(x, y), if set { Some(fg) } else { None }, "({x}, {y})");
        }
    }
}

#[test]
fn initial_board_follows_the_pattern() {
    let board = initial_board();
    assert_eq!(board.len(), SIZE);
    for r in 0..SIZE {
        assert_eq!(board[r].len(), SIZE);
        for c in 0..SIZE {
            assert_eq!(board[r][c], INITIAL_PATTERN[r][c] == 1);
        }
    }
    assert!(board[6][13] && board[6][14] && board[6][15]);
    assert!(!board[0][0]);
}

#[test]
fn clicks_bring_cells_to_life() {
    let mut board = vec![vec![false; 3]; 3];
    board[0][0] = true;
    apply_clicks(&mut board, &vec![(2, 1), (0, 2)]);
    assert_eq!(
        board,
        vec![
            vec![true, false, false],
            vec![false, false, true],
            vec![true, false, false]
        ]
    );
}

#[test]
fn blinker_oscillates() {
    let mut board = vec![vec![false; 5]; 5];
    board[2][1] = true;
    board[2][2] = true;
    board[2][3] = true;
    process::<5>(&mut board);
    let mut vertical = vec![vec![false; 5]; 5];
    vertical[1][2] = true;
    vertical[2][2] = true;
    vertical[3][2] = true;
    assert_eq!(board, vertical);
    process::<5>(&mut board);
    assert_eq!(board[2], vec![false, true, true, true, false]);
}

#[test]
fn mouse_moves_its_layer_and_reports_clicks() {
    let screen = Screen::new();
    let mut mgr = LayerManager::new(&screen);
    let window = Window::new(2, 2, PixcelFormat::Bgr, None, Position::new(100, 100));
    let id = mgr.new_layer(window);
    // no button, moved by (+5, -3)
    let clicked = mouse(&mut mgr, id, &[0, 5, 0xfd]);
    assert_eq!(clicked, None);
    let p = mgr.layer(id).unwrap().window().position();
    assert_eq!((p.x, p.y), (105, 97));
    // left button down: the cell under the pointer before it moves
    let clicked = mouse(&mut mgr, id, &[1, 0, 0]);
    assert_eq!(clicked, Some((3, 3)));
    // a move past the left edge stops at 0
    let _ = mouse(&mut mgr, id, &[0, 0x80, 0]);
    let p = mgr.layer(id).unwrap().window().position();
    assert_eq!((p.x, p.y), (0, 97));
}

#[test]
fn glyph_pixels_lists_the_set_bits() {
    let mut glyph = [0u8; 16];
    glyph[0] = 0b1000_0001;
    glyph[15] = 0b0001_0000;
    let pixels = glyph_pixels(2, 1, &glyph);
    assert_eq!(pixels, vec![(2, 1), (9, 1), (5, 16)]);
}

#[test]
fn a_shared_screen_is_filled_and_outlined_in_place() {
    let screen = Screen::new();
    let red = Color::new(255, 0, 0);
    let green = Color::new(0, 255, 0);
    screen.fill_rect(Vector2D::new(2, 3), Vector2D::new(4, 2), red);
    screen.draw_rect_outline(Vector2D::new(10, 10), Vector2D::new(4, 3), green);
    for y in 0..20 {
        for x in 0..20 {
            let in_fill = (2..6).contains(&x) && (3..5).contains(&y);
            let in_box = (10..14).contains(&x) && (10..13).contains(&y);
            let border = in_box && (x == 10 || x == 13 || y == 10 || y == 12);
            let expected = if in_fill {
                Some(red)
            } else if border {
                Some(green)
            } else {
                None
            };
            assert_eq!(screen.at(x, y), expected, "({x}, {y})");
        }
    }
}

#[test]
fn a_shared_screen_shows_the_board_and_the_shape() {
    let screen = Screen::new();
    let blue = Color::new(0, 0, 255);
    let board = vec![vec![false, true], vec![true, false]];
    screen.render_board(&board, Vector2D::new(1, 1), 4, blue);
    let rows = vec![vec![MouseCursorPixel::Cursor, MouseCursorPixel::Frame]];
    screen.fill_shape(Vector2D::new(20, 30), &CursorShape::new(rows.clone()));
    let black = Color::new(0, 0, 0);
    for y in 0..40 {
        for x in 0..40 {
            let expected = if (1..9).contains(&x) && (1..9).contains(&y) {
                let (cx, cy) = ((x - 1) / 4, (y - 1) / 4);
                let (ox, oy) = ((x - 1) % 4, (y - 1) % 4);
                if ox == 0 || oy == 0 || ox == 3 || oy == 3 {
                    Some(Color::white())
                } else if board[cy][cx] {
                    Some(blue)
                } else {
                    Some(black)
                }
            } else if y == 30 && (20..22).contains(&x) {
                Some(Color::from(rows[0][x - 20]))
            } else {
                None
            };
            assert_eq!(screen.at(x, y), expected, "({x}, {y})");
        }
    }
}
