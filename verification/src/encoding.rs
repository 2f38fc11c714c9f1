use vstd::prelude::*;

verus! {

/// The character that the Windows-1252 code page assigns to a byte.
/// Bytes outside 0x80..=0x9F stand for the Unicode code point of the same
/// number; the five bytes that the code page leaves unassigned (0x81, 0x8D,
/// 0x8F, 0x90, 0x9D) do so too.
pub open spec fn cp1252_char(b: u8) -> char {
    if b == 0x80 { '\u{20AC}' }
    else if b == 0x82 { '\u{201A}' }
    else if b == 0x83 { '\u{0192}' }
    else if b == 0x84 { '\u{201E}' }
    else if b == 0x85 { '\u{2026}' }
    else if b == 0x86 { '\u{2020}' }
    else if b == 0x87 { '\u{2021}' }
    else if b == 0x88 { '\u{02C6}' }
    else if b == 0x89 { '\u{2030}' }
    else if b == 0x8A { '\u{0160}' }
    else if b == 0x8B { '\u{2039}' }
    else if b == 0x8C { '\u{0152}' }
    else if b == 0x8E { '\u{017D}' }
    else if b == 0x91 { '\u{2018}' }
    else if b == 0x92 { '\u{2019}' }
    else if b == 0x93 { '\u{201C}' }
    else if b == 0x94 { '\u{201D}' }
    else if b == 0x95 { '\u{2022}' }
    else if b == 0x96 { '\u{2013}' }
    else if b == 0x97 { '\u{2014}' }
    else if b == 0x98 { '\u{02DC}' }
    else if b == 0x99 { '\u{2122}' }
    else if b == 0x9A { '\u{0161}' }
    else if b == 0x9B { '\u{203A}' }
    else if b == 0x9C { '\u{0153}' }
    else if b == 0x9E { '\u{017E}' }
    else if b == 0x9F { '\u{0178}' }
    else { b as char }
}

/// Decodes one byte of Windows-1252 text.
pub fn cp1252_decode(b: u8) -> (c: char)
    ensures
        c == cp1252_char(b),
{
    match b {
        0x80 => '\u{20AC}',
        0x82 => '\u{201A}',
        0x83 => '\u{0192}',
        0x84 => '\u{201E}',
        0x85 => '\u{2026}',
        0x86 => '\u{2020}',
        0x87 => '\u{2021}',
        0x88 => '\u{02C6}',
        0x89 => '\u{2030}',
        0x8A => '\u{0160}',
        0x8B => '\u{2039}',
        0x8C => '\u{0152}',
        0x8E => '\u{017D}',
        0x91 => '\u{2018}',
        0x92 => '\u{2019}',
        0x93 => '\u{201C}',
        0x94 => '\u{201D}',
        0x95 => '\u{2022}',
        0x96 => '\u{2013}',
        0x97 => '\u{2014}',
        0x98 => '\u{02DC}',
        0x99 => '\u{2122}',
        0x9A => '\u{0161}',
        0x9B => '\u{203A}',
        0x9C => '\u{0153}',
        0x9E => '\u{017E}',
        0x9F => '\u{0178}',
        _ => b as char,
    }
}

} // verus!
