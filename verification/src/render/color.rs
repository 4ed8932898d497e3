use super::escape::{decimal, law_decimal_spells_number, push_char, push_decimal, read_decimal};
use vstd::prelude::*;

verus! {

/// The palette index of black.
pub const BLACK: u8 = 0;

/// The palette index of white.
pub const WHITE: u8 = 7;

/// A terminal text mode (bold, italics, ...), identified by its SGR code.
#[derive(Debug, Clone, Copy, PartialEq, Eq)]
pub struct Mode(u8);

/// Whether `s` is one of the SGR codes that `Mode` accepts.
pub open spec fn is_mode_code(s: u8) -> bool {
    !((s > 9 && s < 22) || s == 6 || s == 26 || s > 29)
}

/// The escape sequence `ESC [ <code> m`.
pub open spec fn sgr(code: Seq<char>) -> Seq<char> {
    seq!['\x1b', '['] + code + seq!['m']
}

impl Mode {
    /// The mode for SGR code `s`, if `s` is a mode code.
    pub fn new(s: u8) -> (r: Option<Self>)
        ensures
            r is Some <==> is_mode_code(s),
            r matches Some(m) ==> m.code() == s,
    {
        if (s > 9 && s < 22) || s == 6 || s == 26 || s > 29 {
            None
        } else {
            Some(Self(s))
        }
    }

    pub closed spec fn code(&self) -> u8 {
        self.0
    }

    /// The escape sequence that switches the mode on or off.
    pub fn render(&self) -> (r: String)
        ensures
            r@ == sgr(decimal(self.code() as nat)),
    {
        let mut s = String::new();
        push_char(&mut s, '\x1b');
        push_char(&mut s, '[');
        push_decimal(&mut s, self.0 as u64);
        push_char(&mut s, 'm');
        assert(s@ =~= sgr(decimal(self.code() as nat)));
        s
    }
}

/// A terminal color, as a foreground or a background.
#[derive(Debug, Clone, Copy, PartialEq, Eq)]
pub enum Color {
    IsoForeground(u8),
    IsoBackground(u8),
    ExtendedForeground(u8),
    ExtendedBackground(u8),
    RgbForeground(u8, u8, u8),
    RgbBackground(u8, u8, u8),
}

/// `r;g;b` in decimal.
pub open spec fn rgb_code(r: u8, g: u8, b: u8) -> Seq<char> {
    decimal(r as nat) + seq![';'] + decimal(g as nat) + seq![';'] + decimal(b as nat)
}

/// The escape sequence that selects a color.
pub open spec fn color_code(c: Color) -> Seq<char> {
    match c {
        Color::IsoForeground(v) => sgr(seq!['3'] + decimal(v as nat)),
        Color::IsoBackground(v) => sgr(seq!['4'] + decimal(v as nat)),
        Color::ExtendedForeground(v) => sgr(seq!['3', '8', ';', '5', ';'] + decimal(v as nat)),
        Color::ExtendedBackground(v) => sgr(seq!['4', '8', ';', '5', ';'] + decimal(v as nat)),
        Color::RgbForeground(r, g, b) => sgr(seq!['3', '8', ';', '2', ';'] + rgb_code(r, g, b)),
        Color::RgbBackground(r, g, b) => sgr(seq!['4', '8', ';', '2', ';'] + rgb_code(r, g, b)),
    }
}

fn push_rgb(s: &mut String, r: u8, g: u8, b: u8)
    ensures
        final(s)@ == old(s)@ + rgb_code(r, g, b),
{
    push_decimal(s, r as u64);
    push_char(s, ';');
    push_decimal(s, g as u64);
    push_char(s, ';');
    push_decimal(s, b as u64);
    assert(s@ =~= old(s)@ + rgb_code(r, g, b));
}

fn push_extended_prefix(s: &mut String, lead: char)
    ensures
        final(s)@ == old(s)@ + seq![lead, '8', ';'],
{
    push_char(s, lead);
    push_char(s, '8');
    push_char(s, ';');
    assert(s@ =~= old(s)@ + seq![lead, '8', ';']);
}

impl Color {
    /// The escape sequence that selects this color.
    pub fn render(&self) -> (r: String)
        ensures
            r@ == color_code(*self),
    {
        let mut s = String::new();
        push_char(&mut s, '\x1b');
        push_char(&mut s, '[');
        let ghost start = s@;
        match *self {
            Color::IsoForeground(v) => {
                push_char(&mut s, '3');
                push_decimal(&mut s, v as u64);
            },
            Color::IsoBackground(v) => {
                push_char(&mut s, '4');
                push_decimal(&mut s, v as u64);
            },
            Color::ExtendedForeground(v) => {
                push_extended_prefix(&mut s, '3');
                push_char(&mut s, '5');
                push_char(&mut s, ';');
                push_decimal(&mut s, v as u64);
            },
            Color::ExtendedBackground(v) => {
                push_extended_prefix(&mut s, '4');
                push_char(&mut s, '5');
                push_char(&mut s, ';');
                push_decimal(&mut s, v as u64);
            },
            Color::RgbForeground(r, g, b) => {
                push_extended_prefix(&mut s, '3');
                push_char(&mut s, '2');
                push_char(&mut s, ';');
                push_rgb(&mut s, r, g, b);
            },
            Color::RgbBackground(r, g, b) => {
                push_extended_prefix(&mut s, '4');
                push_char(&mut s, '2');
                push_char(&mut s, ';');
                push_rgb(&mut s, r, g, b);
            },
        }
        push_char(&mut s, 'm');
        assert(s@ =~= color_code(*self));
        s
    }
}

/// The text modes are the SGR codes 0 to 5, 7 to 9, 22 to 25 and 27 to
/// 29.
pub proof fn law_mode_codes(s: u8)
    ensures
        is_mode_code(s) <==> (s <= 5 || 7 <= s <= 9 || 22 <= s <= 25 || 27 <= s <= 29),
{
}

/// A color code is `ESC [`, then `3` for a foreground or `4` for a
/// background, then the color's number for the eight basic colors, or
/// `8;5;` and the palette index for a palette color, and `m` last.
pub proof fn law_color_code_shape(v: u8)
    ensures
        ({
            let f = color_code(Color::IsoForeground(v));
            let b = color_code(Color::IsoBackground(v));
            &&& f.subrange(0, 3) == seq!['\x1b', '[', '3'] && f.last() == 'm'
            &&& read_decimal(f.subrange(3, f.len() - 1)) == v
            &&& b.subrange(0, 3) == seq!['\x1b', '[', '4'] && b.last() == 'm'
            &&& read_decimal(b.subrange(3, b.len() - 1)) == v
        }),
        ({
            let f = color_code(Color::ExtendedForeground(v));
            let b = color_code(Color::ExtendedBackground(v));
            &&& f.subrange(0, 7) == seq!['\x1b', '[', '3', '8', ';', '5', ';'] && f.last() == 'm'
            &&& read_decimal(f.subrange(7, f.len() - 1)) == v
            &&& b.subrange(0, 7) == seq!['\x1b', '[', '4', '8', ';', '5', ';'] && b.last() == 'm'
            &&& read_decimal(b.subrange(7, b.len() - 1)) == v
        }),
{
    law_decimal_spells_number(v as nat);
    let d = decimal(v as nat);
    let f = color_code(Color::IsoForeground(v));
    assert(f.subrange(3, f.len() - 1) =~= d);
    assert(f.subrange(0, 3) =~= seq!['\x1b', '[', '3']);
    let b = color_code(Color::IsoBackground(v));
    assert(b.subrange(3, b.len() - 1) =~= d);
    assert(b.subrange(0, 3) =~= seq!['\x1b', '[', '4']);
    let ef = color_code(Color::ExtendedForeground(v));
    assert(ef.subrange(7, ef.len() - 1) =~= d);
    assert(ef.subrange(0, 7) =~= seq!['\x1b', '[', '3', '8', ';', '5', ';']);
    let eb = color_code(Color::ExtendedBackground(v));
    assert(eb.subrange(7, eb.len() - 1) =~= d);
    assert(eb.subrange(0, 7) =~= seq!['\x1b', '[', '4', '8', ';', '5', ';']);
}

} // verus!
