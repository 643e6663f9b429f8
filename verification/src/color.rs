//! Colours: the palette, colour names as templates write them, and the colours
//! that stand for a severity or a GPS fix.
use vstd::prelude::*;

use crate::text::{
    chars_of, decimal_digit, is_digit, parse_unsigned, same_text, trim, trimmed, unsigned_number,
};

verus! {

/// A colour.
#[derive(Clone, Copy, Debug, PartialEq, Eq, Structural)]
pub struct Rgb {
    pub r: u8,
    pub g: u8,
    pub b: u8,
}

/// A shade of grey.
pub open spec fn gray(n: u8) -> Rgb {
    Rgb { r: n, g: n, b: n }
}

impl Rgb {
    /// A colour of its three parts.
    pub fn from_rgb(r: u8, g: u8, b: u8) -> (c: Rgb)
        ensures
            c == (Rgb { r, g, b }),
    {
        Rgb { r, g, b }
    }

    /// A shade of grey.
    pub fn from_gray(n: u8) -> (c: Rgb)
        ensures
            c == gray(n),
    {
        Rgb { r: n, g: n, b: n }
    }
}

/// Colour `i` of the ten of the palette.
pub open spec fn palette(i: int) -> Rgb {
    if i == 0 {
        Rgb { r: 0x1f, g: 0x77, b: 0xb4 }
    } else if i == 1 {
        Rgb { r: 0xff, g: 0x7f, b: 0x0e }
    } else if i == 2 {
        Rgb { r: 0x2c, g: 0xa0, b: 0x2c }
    } else if i == 3 {
        Rgb { r: 0xd6, g: 0x27, b: 0x28 }
    } else if i == 4 {
        Rgb { r: 0x94, g: 0x67, b: 0xbd }
    } else if i == 5 {
        Rgb { r: 0x8c, g: 0x56, b: 0x4b }
    } else if i == 6 {
        Rgb { r: 0xe3, g: 0x77, b: 0xc2 }
    } else if i == 7 {
        Rgb { r: 0x7f, g: 0x7f, b: 0x7f }
    } else if i == 8 {
        Rgb { r: 0xbc, g: 0xbd, b: 0x22 }
    } else {
        Rgb { r: 0x17, g: 0xbe, b: 0xcf }
    }
}

/// Colour `i` of the palette, which starts again after ten.
pub fn tab10(i: usize) -> (c: Rgb)
    ensures
        c == palette(i as int % 10),
{
    let k: usize = i % 10;
    if k == 0 {
        Rgb { r: 0x1f, g: 0x77, b: 0xb4 }
    } else if k == 1 {
        Rgb { r: 0xff, g: 0x7f, b: 0x0e }
    } else if k == 2 {
        Rgb { r: 0x2c, g: 0xa0, b: 0x2c }
    } else if k == 3 {
        Rgb { r: 0xd6, g: 0x27, b: 0x28 }
    } else if k == 4 {
        Rgb { r: 0x94, g: 0x67, b: 0xbd }
    } else if k == 5 {
        Rgb { r: 0x8c, g: 0x56, b: 0x4b }
    } else if k == 6 {
        Rgb { r: 0xe3, g: 0x77, b: 0xc2 }
    } else if k == 7 {
        Rgb { r: 0x7f, g: 0x7f, b: 0x7f }
    } else if k == 8 {
        Rgb { r: 0xbc, g: 0xbd, b: 0x22 }
    } else {
        Rgb { r: 0x17, g: 0xbe, b: 0xcf }
    }
}

/// The value of a hexadecimal digit.
pub open spec fn hex_digit(c: char) -> Option<u8> {
    let n = c as int;
    if 48 <= n <= 57 {
        Some((n - 48) as u8)
    } else if 97 <= n <= 102 {
        Some((n - 87) as u8)
    } else if 65 <= n <= 70 {
        Some((n - 55) as u8)
    } else {
        None
    }
}

/// The value of two hexadecimal digits.
pub open spec fn hex_pair(a: char, b: char) -> Option<u8> {
    match (hex_digit(a), hex_digit(b)) {
        (Some(x), Some(y)) => Some((16 * x + y) as u8),
        _ => None,
    }
}

/// The colour of six hexadecimal digits.
pub open spec fn hex_color(h: Seq<char>) -> Option<Rgb> {
    if h.len() != 6 {
        None
    } else {
        match (hex_pair(h[0], h[1]), hex_pair(h[2], h[3]), hex_pair(h[4], h[5])) {
            (Some(r), Some(g), Some(b)) => Some(Rgb { r, g, b }),
            _ => None,
        }
    }
}

fn digit_value(c: char) -> (r: Option<u8>)
    ensures
        r == hex_digit(c),
{
    if '0' <= c && c <= '9' {
        Some(((c as u32) - 48) as u8)
    } else if 'a' <= c && c <= 'f' {
        Some(((c as u32) - 87) as u8)
    } else if 'A' <= c && c <= 'F' {
        Some(((c as u32) - 55) as u8)
    } else {
        None
    }
}

fn pair_value(a: char, b: char) -> (r: Option<u8>)
    ensures
        r == hex_pair(a, b),
{
    match (digit_value(a), digit_value(b)) {
        (Some(x), Some(y)) => Some(16 * x + y),
        _ => None,
    }
}

/// The colour of the hexadecimal digits behind the first character of `v`.
fn hex_value(v: &Vec<char>) -> (r: Option<Rgb>)
    requires
        v.len() > 0,
    ensures
        r == hex_color(v@.drop_first()),
{
    if v.len() != 7 {
        return None;
    }
    match (pair_value(v[1], v[2]), pair_value(v[3], v[4]), pair_value(v[5], v[6])) {
        (Some(r), Some(g), Some(b)) => Some(Rgb { r, g, b }),
        _ => None,
    }
}

/// The colour of a one-letter name.
pub open spec fn named_color(s: Seq<char>) -> Option<Rgb> {
    if s == "k"@ {
        Some(gray(20))
    } else if s == "w"@ {
        Some(gray(255))
    } else if s == "r"@ {
        Some(palette(3))
    } else if s == "g"@ {
        Some(palette(2))
    } else if s == "b"@ {
        Some(palette(0))
    } else if s == "c"@ {
        Some(palette(9))
    } else if s == "m"@ {
        Some(palette(6))
    } else if s == "y"@ {
        Some(palette(8))
    } else {
        None
    }
}

/// The colour that a template's text stands for: `C` and the digits of a number for one
/// of the palette, `#rrggbb`, or a letter.
pub open spec fn color_value(spec: Seq<char>) -> Option<Rgb> {
    let s = trimmed(spec);
    if s.len() > 1 && s[0] == 'C' && is_digit(s[1]) && unsigned_number(s.drop_first(), usize::MAX as nat) is Ok {
        Some(palette(unsigned_number(s.drop_first(), usize::MAX as nat)->Ok_0 as int % 10))
    } else if s.len() > 0 && s[0] == '#' {
        hex_color(s.drop_first())
    } else {
        named_color(s)
    }
}

/// The colour that a template's text stands for.
pub fn parse_color(spec: &str) -> (r: Option<Rgb>)
    ensures
        r == color_value(spec@),
{
    let s = trim(spec);
    let v = chars_of(s);
    proof {
        reveal_strlit("k");
        reveal_strlit("w");
        reveal_strlit("r");
        reveal_strlit("g");
        reveal_strlit("b");
        reveal_strlit("c");
        reveal_strlit("m");
        reveal_strlit("y");
    }
    if v.len() == 0 {
        return None;
    }
    if v.len() > 1 && v[0] == 'C' && decimal_digit(v[1]) {
        let rest = s.substring_char(1, v.len());
        proof {
            assert(rest@ =~= s@.drop_first());
        }
        match parse_unsigned(rest, usize::MAX as u64) {
            Ok(n) => {
                return Some(tab10(n as usize));
            },
            Err(_) => {},
        }
    }
    if v[0] == '#' {
        proof {
            assert(v@.drop_first() =~= s@.drop_first());
        }
        return hex_value(&v);
    }
    if same_text(s, "k") {
        Some(Rgb::from_gray(20))
    } else if same_text(s, "w") {
        Some(Rgb::from_gray(255))
    } else if same_text(s, "r") {
        Some(tab10(3))
    } else if same_text(s, "g") {
        Some(tab10(2))
    } else if same_text(s, "b") {
        Some(tab10(0))
    } else if same_text(s, "c") {
        Some(tab10(9))
    } else if same_text(s, "m") {
        Some(tab10(6))
    } else if same_text(s, "y") {
        Some(tab10(8))
    } else {
        None
    }
}

/// The colour of a line: as written, else from the palette.
pub open spec fn line_color(spec: Seq<char>, idx: int) -> Rgb {
    match color_value(spec) {
        Some(c) => c,
        None => palette(idx % 10),
    }
}

/// The colour of a line: as written, else from the palette.
pub fn color_for(spec: &str, idx: usize) -> (c: Rgb)
    ensures
        c == line_color(spec@, idx as int),
{
    match parse_color(spec) {
        Some(c) => c,
        None => tab10(idx),
    }
}

/// The colour of a trail: `#rrggbb`, else a light grey.
pub open spec fn trail_color(spec: Seq<char>) -> Rgb {
    let s = trimmed(spec);
    if s.len() > 0 && s[0] == '#' && hex_color(s.drop_first()) is Some {
        hex_color(s.drop_first())->0
    } else {
        gray(200)
    }
}

/// The colour of a trail: `#rrggbb`, else a light grey.
pub fn parse_trail_color(spec: &str) -> (c: Rgb)
    ensures
        c == trail_color(spec@),
{
    let s = trim(spec);
    let v = chars_of(s);
    if v.len() > 0 && v[0] == '#' {
        proof {
            assert(v@.drop_first() =~= s@.drop_first());
        }
        match hex_value(&v) {
            Some(c) => {
                return c;
            },
            None => {},
        }
    }
    Rgb::from_gray(200)
}

/// The colour of text that can be read on a background.
pub open spec fn ink_on(bg: Rgb) -> Rgb {
    if bg.r + bg.g + bg.b > 380 {
        gray(20)
    } else {
        gray(255)
    }
}

/// The colour that stands out on `bg`.
pub fn text_color_on(bg: Rgb) -> (c: Rgb)
    ensures
        c == ink_on(bg),
{
    if bg.r as u32 + bg.g as u32 + bg.b as u32 > 380 {
        Rgb::from_gray(20)
    } else {
        Rgb::from_gray(255)
    }
}

/// The colour of a section's banner.
pub open spec fn banner_color(spec: Seq<char>) -> Rgb {
    match color_value(spec) {
        Some(c) => c,
        None => Rgb { r: 0x33, g: 0x44, b: 0x55 },
    }
}

/// The colour of a banner: as written, else slate.
pub fn section_color(spec: &str) -> (c: Rgb)
    ensures
        c == banner_color(spec@),
{
    match parse_color(spec) {
        Some(c) => c,
        None => Rgb { r: 0x33, g: 0x44, b: 0x55 },
    }
}

/// The colour of a message severity: red up to an error, amber for a warning, blue
/// for a notice, grey for the rest.
pub open spec fn severity(sev: u8) -> Rgb {
    if sev <= 3 {
        palette(3)
    } else if sev == 4 {
        Rgb { r: 0xe6, g: 0xa9, b: 0x00 }
    } else if sev == 5 {
        palette(0)
    } else {
        gray(170)
    }
}

/// The colour of a message severity.
pub fn status_severity_color(sev: u8) -> (c: Rgb)
    ensures
        c == severity(sev),
{
    if sev <= 3 {
        tab10(3)
    } else if sev == 4 {
        Rgb { r: 0xe6, g: 0xa9, b: 0x00 }
    } else if sev == 5 {
        tab10(0)
    } else {
        Rgb::from_gray(170)
    }
}

/// The words and the colour for a GPS fix.
pub open spec fn fix_chip(n: int) -> (Seq<char>, Rgb) {
    if n == 0 {
        ("No fix"@, palette(3))
    } else if n == 1 {
        ("2D"@, Rgb { r: 0xe6, g: 0xa9, b: 0x00 })
    } else if n == 2 {
        ("3D"@, palette(2))
    } else if n == 3 {
        ("DGPS"@, palette(0))
    } else if n == 4 {
        ("RTK float"@, palette(4))
    } else if n == 5 || n == 6 {
        ("RTK fixed"@, palette(2))
    } else {
        ("—"@, gray(170))
    }
}

/// The words and the colour for a GPS fix.
pub fn status_fix_type_chip(n: i64) -> (r: (&'static str, Rgb))
    ensures
        (r.0@, r.1) == fix_chip(n as int),
{
    if n == 0 {
        ("No fix", tab10(3))
    } else if n == 1 {
        ("2D", Rgb { r: 0xe6, g: 0xa9, b: 0x00 })
    } else if n == 2 {
        ("3D", tab10(2))
    } else if n == 3 {
        ("DGPS", tab10(0))
    } else if n == 4 {
        ("RTK float", tab10(4))
    } else if n == 5 || n == 6 {
        ("RTK fixed", tab10(2))
    } else {
        ("—", Rgb::from_gray(170))
    }
}

} // verus!
