use lemola::font_text::{gen_font_impl, FontError};

/// A glyph in the font text format: a blank line, the code line and the
/// 16 rows.
fn glyph(code: &str, rows: &[&str; 16]) -> String {
    let mut s = String::new();
    s.push('\n');
    s.push_str(code);
    s.push('\n');
    for r in rows {
        s.push_str(r);
        s.push('\n');
    }
    s
}

fn rows_with(first: &'static str, last: &'static str) -> [&'static str; 16] {
    let mut rows = ["........"; 16];
    rows[0] = first;
    rows[15] = last;
    rows
}

#[test]
fn glyphs_land_at_their_codes() {
    let text = glyph("0x02 'x'", &rows_with("@.......", ".......@"))
        + &glyph("0x04", &rows_with("@@@@@@@@", "..@@..@@"));
    let table = gen_font_impl(&text).unwrap();
    assert_eq!(table.len(), 5);
    assert_eq!(table[0], vec![0u8; 16]);
    assert_eq!(table[1], vec![0u8; 16]);
    assert_eq!(table[2][0], 0x80);
    assert_eq!(table[2][15], 0x01);
    assert_eq!(table[2][1..15], [0u8; 14]);
    assert_eq!(table[3], vec![0u8; 16]);
    assert_eq!(table[4][0], 0xff);
    assert_eq!(table[4][15], 0x33);
}

#[test]
fn crlf_line_endings_are_read_too() {
    let text = glyph("0x01", &rows_with("*.......", "........")).replace('\n', "\r\n");
    let table = gen_font_impl(&text).unwrap();
    assert_eq!(table.len(), 2);
    assert_eq!(table[1][0], 0x80);
}

#[test]
fn empty_text_gives_an_empty_table() {
    assert_eq!(gen_font_impl("").unwrap(), Vec::<Vec<u8>>::new());
}

#[test]
fn a_bad_code_is_reported_with_its_line() {
    let text = glyph("0xzz", &rows_with("........", "........"));
    assert_eq!(gen_font_impl(&text), Err(FontError::CharCode(1)));
}

#[test]
fn a_short_row_is_reported_with_its_line() {
    let text = glyph("0x10", &rows_with("........", "......."));
    assert_eq!(gen_font_impl(&text), Err(FontError::Row(17)));
}
