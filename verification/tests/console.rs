use std::cell::RefCell;

use lemola::console::{AsciiWriter, Color, PixcelInfo, PixcelWritable, Writer};
use lemola::types::PixcelFormat;

const N_ROW: usize = 10;
const N_COLUMN: usize = 10;
const N_PIXCELS_ROW: usize = 16 * N_ROW;
const N_PIXCELS_COLUMN: usize = 8 * N_COLUMN;

#[derive(Debug, Clone, PartialEq, Eq)]
pub struct MockWriter {
    pub buffer: RefCell<[[char; N_COLUMN]; N_ROW]>,
}

impl MockWriter {
    pub const fn new() -> Self {
        Self {
            buffer: RefCell::new([[' '; N_ROW]; N_COLUMN]),
        }
    }
}

impl PixcelWritable for MockWriter {
    fn write(&self, _x: usize, _y: usize, _color: Color) {
        panic!("should not be called")
    }

    fn write_bytes(&self, _byte_offset: usize, _bytes: &[u8]) {
        panic!("should not be called")
    }
}

impl PixcelInfo for MockWriter {
    fn reported_horizontal_resolution(&self) -> usize {
        self.horizontal_resolution()
    }

    fn reported_pixcels_per_scan_line(&self) -> usize {
        self.pixcels_per_scan_line()
    }

    fn get_pixcel_format(&self) -> PixcelFormat {
        PixcelFormat::Bgr
    }
    fn get_num_pixcels(&self) -> usize {
        self.pixcels_per_scan_line() * self.vertical_resolution()
    }
    fn horizontal_resolution(&self) -> usize {
        N_PIXCELS_COLUMN
    }
    fn vertical_resolution(&self) -> usize {
        N_PIXCELS_ROW
    }
    fn pixcels_per_scan_line(&self) -> usize {
        self.horizontal_resolution() / 4
    }
}

impl AsciiWriter for MockWriter {
    fn write_ascii(&self, x: usize, y: usize, c: char, _bg_color: Color, _fg_color: Color) {
        let mut buffer = self.buffer.borrow_mut();
        buffer[y / 16][x / 8] = c;
    }
}

#[test]
fn test_writer() {
    let mock_writer = MockWriter::new();
    let mut writer = Writer::<MockWriter, N_ROW, N_COLUMN>::new(&mock_writer);
    // 10 * 10
    let string = "abcdefghij";
    assert_eq!(string.len(), 10);
    writer.put_string(string);
    assert_eq!(mock_writer.buffer.borrow()[0], [' '; 10]);
    writer.put_char('\n');
    assert_eq!(
        mock_writer.buffer.borrow()[0],
        &string.chars().collect::<Vec<_>>()[..]
    );
    for i in 0..9 {
        writer.put_string(format!("{}\n", i).as_str());
    }
    {
        let buffers = mock_writer.buffer.borrow();
        for (idx, buffer) in (&(buffers)[1..]).into_iter().enumerate() {
            let mut expected = [' '; 10];
            expected[0] = format!("{}", idx).chars().next().unwrap();
            assert_eq!(*buffer, expected);
        }
    }
    writer.put_char('\n');
    let buffers = mock_writer.buffer.borrow();
    for (idx, buffer) in (&(buffers)[0..9]).into_iter().enumerate() {
        let mut expected = [' '; 10];
        expected[0] = format!("{}", idx).chars().next().unwrap();
        assert_eq!(*buffer, expected);
    }
    assert_eq!(buffers[9], [' '; 10]);
}

#[test]
fn test_writer2() {
    let mock_writer = MockWriter::new();
    let mut writer = Writer::<MockWriter, N_ROW, N_COLUMN>::new(&mock_writer);
    // 10 * 10
    for i in 0..200usize {
        writer.put_char((('a' as u8) + (i % 26) as u8) as char);
        writer.put_char('\n')
    }

    for idx in 0..10 {
        let mut expected = [' '; 10];
        expected[0] = (('a' as u8) + ((190 + idx) % 26) as u8) as char;
        assert_eq!(mock_writer.buffer.borrow()[idx], expected);
    }
}

#[test]
fn scroll_moves_lines_up_and_blanks_the_bottom() {
    let mock_writer = MockWriter::new();
    let mut writer = Writer::<MockWriter, 3, 2>::new(&mock_writer);
    writer.put_string("ab\ncd\nef\n");
    // the cursor is below the last line; the next character scrolls
    writer.put_char('g');
    writer.flush();
    let b = mock_writer.buffer.borrow();
    assert_eq!(&b[0][..2], &['c', 'd']);
    assert_eq!(&b[1][..2], &['e', 'f']);
    assert_eq!(&b[2][..2], &['g', ' ']);
}

#[test]
fn a_full_last_line_takes_no_more_characters() {
    let mock_writer = MockWriter::new();
    let mut writer = Writer::<MockWriter, 2, 2>::new(&mock_writer);
    writer.put_string("ab");
    // wrapping to the second line is fine
    assert!(writer.can_put_char('c'));
    writer.put_string("cd");
    // the cursor is at the end of the last line: a character would land
    // below it, a line feed scrolls
    assert!(!writer.can_put_char('e'));
    assert!(writer.can_put_char('\n'));
    writer.put_char('\n');
    assert!(writer.can_put_char('e'));
}
