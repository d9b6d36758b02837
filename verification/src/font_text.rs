//! The text format of the bitmap font and the glyph table built from it.
//!
//! The text is read line by line, lines numbered from 0 and empty lines
//! counted but skipped. A glyph takes 18 lines: line `18k + 1` starts with
//! the character code as `0x` and hexadecimal digits, lines `18k + 2` to
//! `18k + 17` are its rows of 8 characters, `.` for a clear pixel and any
//! other character for a set one; the glyph is complete at line `18k + 17`.
//! The table has an entry for every code up to the last glyph's; codes
//! without a glyph get 16 zero rows.
use vstd::prelude::*;

verus! {

/// What makes a font text unreadable, with the number of the line.
#[derive(Clone, Copy, Debug, PartialEq, Eq, Structural)]
pub enum FontError {
    /// The character code of a glyph is not a hexadecimal number that fits
    /// in a `usize`.
    CharCode(usize),
    /// A row does not have 8 characters.
    Row(usize),
}

/// `char::is_whitespace`: the characters with the Unicode White_Space
/// property.
pub open spec fn is_white(c: char) -> bool {
    let u = c as u32;
    ||| 0x9 <= u <= 0xd
    ||| u == 0x20 || u == 0x85 || u == 0xa0 || u == 0x1680
    ||| 0x2000 <= u <= 0x200a
    ||| u == 0x2028 || u == 0x2029 || u == 0x202f || u == 0x205f || u == 0x3000
}

/// The number of bytes of `c` in UTF-8.
pub open spec fn utf8_len(c: char) -> int {
    let u = c as u32;
    if u < 0x80 {
        1
    } else if u < 0x800 {
        2
    } else if u < 0x1_0000 {
        3
    } else {
        4
    }
}

/// The first index at or after `i` that holds a character that is not
/// whitespace, or the length.
pub open spec fn skip_white(line: Seq<char>, i: int) -> int
    decreases line.len() - i,
{
    if i >= line.len() || i < 0 {
        line.len() as int
    } else if is_white(line[i]) {
        skip_white(line, i + 1)
    } else {
        i
    }
}

/// The first index at or after `i` that holds whitespace, or the length.
pub open spec fn token_end(line: Seq<char>, i: int) -> int
    decreases line.len() - i,
{
    if i >= line.len() || i < 0 {
        line.len() as int
    } else if is_white(line[i]) {
        i
    } else {
        token_end(line, i + 1)
    }
}

/// The first whitespace-separated word of `line`, if it has one.
pub open spec fn first_token(line: Seq<char>) -> Option<Seq<char>> {
    let s = skip_white(line, 0);
    if s >= line.len() {
        None
    } else {
        Some(line.subrange(s, token_end(line, s)))
    }
}

/// The word `t` without its first two bytes; `None` where those two bytes
/// do not end at a character boundary.
pub open spec fn after_two_bytes(t: Seq<char>) -> Option<Seq<char>> {
    if t.len() == 0 {
        None
    } else if utf8_len(t[0]) == 2 {
        Some(t.skip(1))
    } else if utf8_len(t[0]) == 1 && t.len() >= 2 && utf8_len(t[1]) == 1 {
        Some(t.skip(2))
    } else {
        None
    }
}

/// The value of a hexadecimal digit, `None` for another character.
pub open spec fn hex_digit(c: char) -> Option<int> {
    let u = c as u32;
    if 0x30 <= u <= 0x39 {
        Some(u - 0x30)
    } else if 0x61 <= u <= 0x66 {
        Some(u - 0x61 + 10)
    } else if 0x41 <= u <= 0x46 {
        Some(u - 0x41 + 10)
    } else {
        None
    }
}

/// All of `ds` are hexadecimal digits.
pub open spec fn all_hex(ds: Seq<char>) -> bool {
    forall|i: int| 0 <= i < ds.len() ==> #[trigger] hex_digit(ds[i]) is Some
}

/// The number that the hexadecimal digits `ds` spell.
pub open spec fn hex_value(ds: Seq<char>) -> int
    decreases ds.len(),
{
    if ds.len() == 0 {
        0
    } else {
        16 * hex_value(ds.drop_last()) + hex_digit(ds.last())->0
    }
}

/// `usize::from_str_radix(s, 16)`: an optional `+`, then at least one
/// hexadecimal digit, and a value that fits.
pub open spec fn parse_hex(s: Seq<char>) -> Option<usize> {
    let ds = if s.len() > 0 && s[0] == '+' {
        s.drop_first()
    } else {
        s
    };
    if ds.len() == 0 || !all_hex(ds) || hex_value(ds) > usize::MAX {
        None
    } else {
        Some(hex_value(ds) as usize)
    }
}

/// The byte that a row of 8 characters stands for: bit `7 - i` is set
/// where character `i` is not `.`.
pub open spec fn row_value(row: Seq<char>) -> int
    decreases row.len(),
{
    if row.len() == 0 {
        0
    } else {
        2 * row_value(row.drop_last()) + if row.last() == '.' {
            0int
        } else {
            1
        }
    }
}

/// What the reading has found: the code of the glyph being read, its rows
/// so far, and the completed glyphs.
pub struct FontScan {
    pub code: usize,
    pub rows: Seq<u8>,
    pub glyphs: Seq<(usize, Seq<u8>)>,
}

/// The scan after line `idx`, `line`: `None` where reading it has no
/// defined outcome (a code line without a word, or whose word's first two
/// bytes cut a character).
pub open spec fn step(s: FontScan, idx: int, line: Seq<char>) -> Option<Result<FontScan, FontError>> {
    if line.len() == 0 {
        Some(Ok(s))
    } else if idx % 18 == 1 {
        match first_token(line) {
            None => None,
            Some(t) => match after_two_bytes(t) {
                None => None,
                Some(digits) => match parse_hex(digits) {
                    Some(code) => Some(Ok(FontScan { code, ..s })),
                    None => Some(Err(FontError::CharCode(idx as usize))),
                },
            },
        }
    } else if line.len() != 8 {
        Some(Err(FontError::Row(idx as usize)))
    } else {
        let rows = s.rows.push(row_value(line) as u8);
        if idx % 18 == 17 {
            Some(Ok(FontScan { code: s.code, rows: Seq::empty(), glyphs: s.glyphs.push((s.code, rows)) }))
        } else {
            Some(Ok(FontScan { rows, ..s }))
        }
    }
}

/// A line without the carriage return of a `\r\n` line ending.
pub open spec fn strip_cr(line: Seq<char>) -> Seq<char> {
    if line.len() > 0 && line.last() == '\r' {
        line.drop_last()
    } else {
        line
    }
}

/// Reading `cs` from index `i`, with the characters `cur` of the current
/// line read already and `idx` the current line's number: lines end at
/// `\n` (after which a `\r` before it is dropped) or at the end of a text
/// that does not end with `\n`.
pub open spec fn scan(cs: Seq<char>, i: int, cur: Seq<char>, idx: int, s: FontScan) -> Option<
    Result<FontScan, FontError>,
>
    decreases cs.len() - i,
{
    if i >= cs.len() || i < 0 {
        if cur.len() == 0 {
            Some(Ok(s))
        } else {
            step(s, idx, cur)
        }
    } else if cs[i] == '\n' {
        match step(s, idx, strip_cr(cur)) {
            Some(Ok(s2)) => scan(cs, i + 1, Seq::empty(), idx + 1, s2),
            other => other,
        }
    } else {
        scan(cs, i + 1, cur.push(cs[i]), idx, s)
    }
}

/// The glyphs' codes increase strictly.
pub open spec fn codes_increase(glyphs: Seq<(usize, Seq<u8>)>) -> bool {
    forall|i: int, j: int| 0 <= i < j < glyphs.len() ==> glyphs[i].0 < glyphs[j].0
}

/// The table of `glyphs`: entry `n` holds the rows of the glyph of code `n`
/// and 16 zero rows where there is none; the last entry is the last glyph's.
pub open spec fn table(glyphs: Seq<(usize, Seq<u8>)>) -> Seq<Seq<u8>> {
    if glyphs.len() == 0 {
        Seq::empty()
    } else {
        Seq::new(
            (glyphs.last().0 + 1) as nat,
            |n: int|
                if exists|k: int| 0 <= k < glyphs.len() && glyphs[k].0 == n {
                    glyphs[choose|k: int| 0 <= k < glyphs.len() && glyphs[k].0 == n].1
                } else {
                    Seq::new(16, |r: int| 0u8)
                },
        )
    }
}

/// The glyph table of the font text `text`, or the error the text has;
/// `None` where the outcome is not defined: a code line that cannot be
/// read, codes that do not increase (the table would never end), or a last
/// code of `usize::MAX` (a table too long for memory).
pub open spec fn gen_font_spec(text: Seq<char>) -> Option<Result<Seq<Seq<u8>>, FontError>> {
    match scan(text, 0, Seq::empty(), 0, FontScan { code: 0, rows: Seq::empty(), glyphs: Seq::empty() }) {
        None => None,
        Some(Err(e)) => Some(Err(e)),
        Some(Ok(s)) => if codes_increase(s.glyphs) && (s.glyphs.len() > 0 ==> s.glyphs.last().0
            < usize::MAX) {
            Some(Ok(table(s.glyphs)))
        } else {
            None
        },
    }
}

fn is_white_char(c: char) -> (b: bool)
    ensures
        b == is_white(c),
{
    let u = c as u32;
    (0x9 <= u && u <= 0xd) || u == 0x20 || u == 0x85 || u == 0xa0 || u == 0x1680 || (0x2000 <= u && u
        <= 0x200a) || u == 0x2028 || u == 0x2029 || u == 0x202f || u == 0x205f || u == 0x3000
}

fn utf8_len_of(c: char) -> (n: usize)
    ensures
        n == utf8_len(c),
{
    let u = c as u32;
    if u < 0x80 {
        1
    } else if u < 0x800 {
        2
    } else if u < 0x1_0000 {
        3
    } else {
        4
    }
}

fn hex_digit_of(c: char) -> (d: Option<u32>)
    ensures
        match hex_digit(c) {
            Some(v) => d == Some(v as u32),
            None => d is None,
        },
{
    let u = c as u32;
    if 0x30 <= u && u <= 0x39 {
        Some(u - 0x30)
    } else if 0x61 <= u && u <= 0x66 {
        Some(u - 0x61 + 10)
    } else if 0x41 <= u && u <= 0x46 {
        Some(u - 0x41 + 10)
    } else {
        None
    }
}

/// A prefix of hexadecimal digits is worth no more than all of them.
proof fn lemma_hex_prefix(ds: Seq<char>, k: int)
    requires
        all_hex(ds),
        0 <= k <= ds.len(),
    ensures
        0 <= hex_value(ds.take(k)) <= hex_value(ds),
    decreases ds.len(),
{
    if ds.len() > 0 {
        assert(all_hex(ds.drop_last()));
        if k < ds.len() {
            lemma_hex_prefix(ds.drop_last(), k);
            assert(ds.drop_last().take(k) =~= ds.take(k));
        } else {
            assert(ds.take(k) =~= ds);
            lemma_hex_prefix(ds.drop_last(), k - 1);
            assert(ds.drop_last().take(k - 1) =~= ds.drop_last());
        }
    }
}

/// `parse_hex` of the characters `s`.
fn parse_hex_chars(s: &Vec<char>) -> (r: Option<usize>)
    ensures
        r == parse_hex(s@),
{
    let start: usize = if s.len() > 0 && s[0] == '+' {
        1
    } else {
        0
    };
    let ghost ds = if s@.len() > 0 && s@[0] == '+' {
        s@.drop_first()
    } else {
        s@
    };
    assert(ds =~= s@.skip(start as int));
    if s.len() == start {
        assert(ds.len() == 0);
        assert(parse_hex(s@) is None);
        return None;
    }
    let mut value: usize = 0;
    let mut i: usize = start;
    while i < s.len()
        invariant
            start <= i <= s@.len(),
            ds =~= s@.skip(start as int),
            ds == (if s@.len() > 0 && s@[0] == '+' {
                s@.drop_first()
            } else {
                s@
            }),
            ds.len() > 0,
            all_hex(ds.take(i - start)),
            value == hex_value(ds.take(i - start)),
        decreases s@.len() - i,
    {
        let ghost k = (i - start) as int;
        assert(ds.take(k + 1).drop_last() =~= ds.take(k));
        assert(ds.take(k + 1).last() == s@[i as int]);
        let d = match hex_digit_of(s[i]) {
            Some(d) => d,
            None => {
                assert(hex_digit(ds[k]) is None);
                assert(!all_hex(ds));
                return None;
            },
        };
        assert(all_hex(ds.take(k + 1))) by {
            assert forall|j: int| 0 <= j < k + 1 implies #[trigger] hex_digit(ds.take(k + 1)[j]) is Some by {
                if j < k {
                    assert(ds.take(k + 1)[j] == ds.take(k)[j]);
                }
            }
        }
        let next = match value.checked_mul(16) {
            Some(v) => v.checked_add(d as usize),
            None => None,
        };
        match next {
            Some(v) => {
                value = v;
            },
            None => {
                proof {
                    if all_hex(ds) {
                        lemma_hex_prefix(ds, k + 1);
                        assert(hex_value(ds.take(k + 1)) == 16 * value + d);
                        assert(hex_value(ds) > usize::MAX);
                    }
                }
                return None;
            },
        }
        i = i + 1;
    }
    assert(ds.take(ds.len() as int) =~= ds);
    Some(value)
}

/// The first whitespace-separated word of `line` as the range of its
/// indices.
fn first_token_of(line: &Vec<char>) -> (r: Option<(usize, usize)>)
    ensures
        match first_token(line@) {
            None => r is None,
            Some(t) => r matches Some((s, e)) && s <= e <= line@.len() && t == line@.subrange(
                s as int,
                e as int,
            ),
        },
{
    let mut s: usize = 0;
    while s < line.len() && is_white_char(line[s])
        invariant
            s <= line@.len(),
            skip_white(line@, s as int) == skip_white(line@, 0),
        decreases line@.len() - s,
    {
        s = s + 1;
    }
    if s >= line.len() {
        return None;
    }
    let mut e: usize = s;
    while e < line.len() && !is_white_char(line[e])
        invariant
            s <= e <= line@.len(),
            token_end(line@, e as int) == token_end(line@, s as int),
        decreases line@.len() - e,
    {
        e = e + 1;
    }
    Some((s, e))
}

/// A row of `n` characters is worth less than 2 to the `n`.
proof fn lemma_row_value_bound(row: Seq<char>)
    ensures
        0 <= row_value(row) < pow2_of(row.len()),
    decreases row.len(),
{
    if row.len() > 0 {
        lemma_row_value_bound(row.drop_last());
    }
}

proof fn lemma_pow2_of_mono(a: nat, b: nat)
    requires
        a <= b,
    ensures
        1 <= pow2_of(a) <= pow2_of(b),
    decreases b,
{
    if a < b {
        lemma_pow2_of_mono(a, (b - 1) as nat);
    } else if a > 0 {
        lemma_pow2_of_mono((a - 1) as nat, (a - 1) as nat);
    }
}

/// The value of a row of 8 characters.
fn row_value_of(row: &Vec<char>) -> (v: u8)
    requires
        row@.len() == 8,
    ensures
        v == row_value(row@),
{
    let mut v: u32 = 0;
    let mut i: usize = 0;
    while i < 8
        invariant
            i <= 8,
            row@.len() == 8,
            v == row_value(row@.take(i as int)),
        decreases 8 - i,
    {
        proof {
            lemma_row_value_bound(row@.take(i as int));
            lemma_pow2_of_mono(i as nat, 7);
            reveal_with_fuel(pow2_of, 8);
            assert(pow2_of(7) == 128);
        }
        assert(row@.take(i + 1).drop_last() =~= row@.take(i as int));
        assert(row@.take(i + 1).last() == row@[i as int]);
        let bit: u32 = if row[i] == '.' {
            0
        } else {
            1
        };
        v = 2 * v + bit;
        i = i + 1;
    }
    assert(row@.take(8) =~= row@);
    proof {
        lemma_row_value_bound(row@);
        reveal_with_fuel(pow2_of, 9);
        assert(pow2_of(8) == 256);
    }
    v as u8
}

/// 2 to the `n`.
spec fn pow2_of(n: nat) -> int
    decreases n,
{
    if n == 0 {
        1
    } else {
        2 * pow2_of((n - 1) as nat)
    }
}

/// The scan state kept while reading.
struct Scanning {
    code: usize,
    rows: Vec<u8>,
    glyphs: Vec<(usize, Vec<u8>)>,
}

impl Scanning {
    spec fn view(&self) -> FontScan {
        FontScan {
            code: self.code,
            rows: self.rows@,
            glyphs: self.glyphs@.map_values(|g: (usize, Vec<u8>)| (g.0, g.1@)),
        }
    }

    /// Reads line `idx` (see `step`).
    fn step(&mut self, idx: usize, line: &Vec<char>) -> (r: Result<(), FontError>)
        requires
            step(old(self).view(), idx as int, line@) is Some,
        ensures
            match step(old(self).view(), idx as int, line@) {
                Some(Ok(s)) => r is Ok && final(self).view() == s,
                Some(Err(e)) => r == Err::<(), FontError>(e),
                None => false,
            },
    {
        if line.len() == 0 {
            return Ok(());
        }
        if idx % 18 == 1 {
            let (s, e) = match first_token_of(line) {
                Some(range) => range,
                None => return Ok(()),
            };
            let ghost t = line@.subrange(s as int, e as int);
            let first = line[s];
            let skip: usize = if utf8_len_of(first) == 2 {
                1
            } else {
                2
            };
            assert(after_two_bytes(t) matches Some(d) && d == t.skip(skip as int));
            let mut digits: Vec<char> = Vec::new();
            let mut j: usize = s + skip;
            while j < e
                invariant
                    s + skip <= j <= e <= line@.len(),
                    digits@ =~= line@.subrange(s + skip, j as int),
                decreases e - j,
            {
                digits.push(line[j]);
                j = j + 1;
            }
            assert(digits@ =~= t.skip(skip as int));
            match parse_hex_chars(&digits) {
                Some(code) => {
                    self.code = code;
                    Ok(())
                },
                None => Err(FontError::CharCode(idx)),
            }
        } else if line.len() != 8 {
            Err(FontError::Row(idx))
        } else {
            let v = row_value_of(line);
            self.rows.push(v);
            if idx % 18 == 17 {
                let mut rows: Vec<u8> = Vec::new();
                std::mem::swap(&mut rows, &mut self.rows);
                let ghost before = old(self).glyphs@;
                self.glyphs.push((self.code, rows));
                assert(self.view().glyphs =~= old(self).view().glyphs.push(
                    (old(self).code, old(self).rows@.push(v)),
                ));
            }
            Ok(())
        }
    }
}

/// The glyph table of the font text `text` (see `gen_font_spec`), or the
/// first error the text has.
pub fn gen_font_impl(text: &str) -> (r: Result<Vec<Vec<u8>>, FontError>)
    requires
        gen_font_spec(text@) is Some,
    ensures
        match gen_font_spec(text@) {
            Some(Ok(t)) => r matches Ok(table) && table@.map_values(|row: Vec<u8>| row@) == t,
            Some(Err(e)) => r == Err::<Vec<Vec<u8>>, FontError>(e),
            None => false,
        },
{
    broadcast use vstd::string::axiom_spec_iter;

    let mut cs: Vec<char> = Vec::new();
    for c in it: text.chars()
        invariant
            it.seq() == text@,
            cs@ == text@.take(it.index() as int),
    {
        assert(text@.take(it.index() + 1) =~= cs@.push(c));
        cs.push(c);
    }
    assert(cs@ =~= text@);
    let ghost init = FontScan { code: 0, rows: Seq::empty(), glyphs: Seq::empty() };
    let mut st = Scanning { code: 0, rows: Vec::new(), glyphs: Vec::new() };
    assert(st.view() =~= init) by {
        assert(st.view().glyphs =~= Seq::<(usize, Seq<u8>)>::empty());
    }
    let mut cur: Vec<char> = Vec::new();
    let mut idx: usize = 0;
    let mut i: usize = 0;
    while i < cs.len()
        invariant
            i <= cs@.len(),
            idx <= i,
            cs@ == text@,
            init == (FontScan { code: 0, rows: Seq::empty(), glyphs: Seq::empty() }),
            scan(cs@, i as int, cur@, idx as int, st.view()) == scan(cs@, 0, Seq::empty(), 0, init),
            scan(cs@, 0, Seq::empty(), 0, init) is Some,
        decreases cs@.len() - i,
    {
        if cs[i] == '\n' {
            let ghost before = cur@;
            let mut line = cur;
            if line.len() > 0 && line[line.len() - 1] == '\r' {
                line.pop();
            }
            assert(line@ =~= strip_cr(before));
            match st.step(idx, &line) {
                Ok(()) => {},
                Err(e) => return Err(e),
            }
            cur = Vec::new();
            idx = idx + 1;
        } else {
            cur.push(cs[i]);
        }
        i = i + 1;
    }
    if cur.len() > 0 {
        match st.step(idx, &cur) {
            Ok(()) => {},
            Err(e) => return Err(e),
        }
    }
    Ok(build_table(&st.glyphs))
}

/// A copy of `rows`.
fn copy_rows(rows: &Vec<u8>) -> (c: Vec<u8>)
    ensures
        c@ == rows@,
{
    let mut c: Vec<u8> = Vec::new();
    let mut i: usize = 0;
    while i < rows.len()
        invariant
            i <= rows@.len(),
            c@ == rows@.take(i as int),
        decreases rows@.len() - i,
    {
        c.push(rows[i]);
        i = i + 1;
        assert(c@ =~= rows@.take(i as int));
    }
    assert(rows@.take(rows@.len() as int) =~= rows@);
    c
}

/// Sixteen zero rows.
fn zero_rows() -> (rows: Vec<u8>)
    ensures
        rows@ == Seq::new(16, |r: int| 0u8),
{
    let mut rows: Vec<u8> = Vec::new();
    let mut i: usize = 0;
    while i < 16
        invariant
            i <= 16,
            rows@ == Seq::new(i as nat, |r: int| 0u8),
        decreases 16 - i,
    {
        rows.push(0);
        i = i + 1;
        assert(rows@ =~= Seq::new(i as nat, |r: int| 0u8));
    }
    rows
}

/// The glyphs' rows, by view.
pub open spec fn glyphs_view(glyphs: Seq<(usize, Vec<u8>)>) -> Seq<(usize, Seq<u8>)> {
    glyphs.map_values(|g: (usize, Vec<u8>)| (g.0, g.1@))
}

/// The table of `glyphs` (see `table`).
fn build_table(glyphs: &Vec<(usize, Vec<u8>)>) -> (t: Vec<Vec<u8>>)
    requires
        codes_increase(glyphs_view(glyphs@)),
        glyphs@.len() > 0 ==> glyphs@.last().0 < usize::MAX,
    ensures
        t@.map_values(|row: Vec<u8>| row@) == table(glyphs_view(glyphs@)),
{
    let ghost gv = glyphs_view(glyphs@);
    let mut t: Vec<Vec<u8>> = Vec::new();
    if glyphs.len() == 0 {
        assert(t@.map_values(|row: Vec<u8>| row@) =~= table(gv));
        return t;
    }
    let len = glyphs.len();
    let last = glyphs[len - 1].0;
    let mut k: usize = 0;
    let mut n: usize = 0;
    while n <= last
        invariant
            gv == glyphs_view(glyphs@),
            codes_increase(gv),
            len == glyphs@.len(),
            gv.len() == len > 0,
            last == gv[len - 1].0,
            last < usize::MAX,
            n <= last + 1,
            k <= len,
            forall|j: int| 0 <= j < k ==> gv[j].0 < n,
            k < len ==> gv[k as int].0 >= n,
            table(gv).len() == last + 1,
            t@.map_values(|row: Vec<u8>| row@) == table(gv).take(n as int),
        decreases last + 1 - n,
    {
        assert(k < len) by {
            if k == len {
                assert(gv[len - 1].0 < n);
            }
        }
        let ghost tv = table(gv);
        let row = if glyphs[k].0 == n {
            assert(exists|j: int| 0 <= j < gv.len() && gv[j].0 == n) by {
                assert(gv[k as int].0 == n);
            }
            let ghost c = choose|j: int| 0 <= j < gv.len() && gv[j].0 == n;
            assert(c == k) by {
                if c < k {
                    assert(gv[c].0 < n);
                } else if c > k {
                    assert(gv[k as int].0 < gv[c].0);
                }
            }
            assert(tv[n as int] == gv[k as int].1);
            let r = copy_rows(&glyphs[k].1);
            k = k + 1;
            r
        } else {
            assert(!exists|j: int| 0 <= j < gv.len() && gv[j].0 == n) by {
                assert forall|j: int| 0 <= j < gv.len() implies gv[j].0 != n by {
                    if j > k {
                        assert(gv[k as int].0 < gv[j].0);
                    }
                }
            }
            assert(tv[n as int] == Seq::new(16, |r: int| 0u8));
            zero_rows()
        };
        assert(row@ == tv[n as int]);
        let ghost before = t@;
        t.push(row);
        assert(t@.map_values(|row: Vec<u8>| row@) =~= before.map_values(|row: Vec<u8>| row@).push(
            row@,
        ));
        assert(tv.take(n + 1) =~= tv.take(n as int).push(tv[n as int]));
        n = n + 1;
    }
    assert(table(gv).take(n as int) =~= table(gv));
    t
}

} // verus!
