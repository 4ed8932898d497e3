use super::border::Border;
use crate::render::color::{color_code, Color, BLACK, WHITE};
use crate::render::character::string_chars;
use crate::render::escape::push_chars;
use vstd::prelude::*;

verus! {

/// A length: a number of cells, or a percentage of what is available.
#[derive(Debug, Copy, Clone, Hash, PartialEq, Eq, Structural, PartialOrd, Ord)]
pub enum Measure {
    Cell(u32),
    Percent(u8),
}

/// The length `m` stands for when `max` cells are available: a cell count
/// as it is, a percentage as `max * p / 100` rounded down.
pub open spec fn measure_len(m: Measure, max: nat) -> nat {
    match m {
        Measure::Cell(v) => v as nat,
        Measure::Percent(p) => max * (p as nat) / 100,
    }
}

/// `measure_len` capped at the largest `usize`.
pub open spec fn measure_len_capped(m: Measure, max: nat) -> nat {
    if measure_len(m, max) > usize::MAX {
        usize::MAX as nat
    } else {
        measure_len(m, max)
    }
}

/// The number a measure holds, whatever its unit.
pub open spec fn measure_raw(m: Measure) -> nat {
    match m {
        Measure::Cell(v) => v as nat,
        Measure::Percent(p) => p as nat,
    }
}

impl Measure {
    /// The length this measure stands for when `max` cells are available;
    /// a percentage over a hundred that would not fit in a `usize` gives the
    /// largest `usize`.
    pub fn get(&self, max: usize) -> (r: usize)
        ensures
            r == measure_len_capped(*self, max as nat),
    {
        match *self {
            Measure::Cell(val) => val as usize,
            Measure::Percent(val) => {
                let m: u128 = max as u128;
                let p: u128 = val as u128;
                assert(m * p <= 0xffff_ffff_ffff_ffffu128 * 255) by (nonlinear_arith)
                    requires
                        m <= 0xffff_ffff_ffff_ffffu128,
                        p <= 255,
                ;
                let prod: u128 = m * p;
                let q: u128 = prod / 100;
                if q > usize::MAX as u128 {
                    usize::MAX
                } else {
                    q as usize
                }
            },
        }
    }

    /// The number this measure holds, whatever its unit.
    pub fn get_raw(&self) -> (r: usize)
        ensures
            r == measure_raw(*self),
    {
        match *self {
            Measure::Cell(val) => val as usize,
            Measure::Percent(val) => val as usize,
        }
    }
}

/// A full, a half and a quarter of the available length are exactly the
/// whole, half and a quarter of it, rounded down.
pub proof fn law_percent_fractions(max: usize)
    ensures
        measure_len_capped(Measure::Percent(100), max as nat) == max,
        measure_len_capped(Measure::Percent(50), max as nat) == max / 2,
        measure_len_capped(Measure::Percent(25), max as nat) == max / 4,
{
    assert(max as nat * 100 / 100 == max as nat) by (nonlinear_arith);
    assert(max as nat * 50 / 100 == max as nat / 2) by (nonlinear_arith);
    assert(max as nat * 25 / 100 == max as nat / 4) by (nonlinear_arith);
}

/// A measure never stands for more than the available length when it is a
/// percentage of at most a hundred.
pub proof fn law_percent_within(p: u8, max: usize)
    requires
        p <= 100,
    ensures
        measure_len_capped(Measure::Percent(p), max as nat) <= max,
{
    assert(max as nat * (p as nat) / 100 <= max as nat) by (nonlinear_arith)
        requires
            p <= 100,
    ;
}

/// Horizontal placement.
#[derive(Debug, Copy, Clone, Hash, PartialEq, Eq, Structural, PartialOrd, Ord)]
pub enum Justify {
    Left,
    Right,
    Center,
}

/// Vertical placement.
#[derive(Debug, Copy, Clone, Hash, PartialEq, Eq, Structural, PartialOrd, Ord)]
pub enum Align {
    Top,
    Bottom,
    Center,
}

/// Where content sits inside its box, across and down.
#[derive(Clone, Copy, Debug, PartialEq, Eq, Structural)]
pub struct Alignment {
    pub justify: Justify,
    pub align: Align,
}

impl Alignment {
    pub fn centered() -> (r: Self)
        ensures
            r == (Alignment { justify: Justify::Center, align: Align::Center }),
    {
        Self { justify: Justify::Center, align: Align::Center }
    }

    pub fn top_right() -> (r: Self)
        ensures
            r == (Alignment { justify: Justify::Right, align: Align::Top }),
    {
        Self { justify: Justify::Right, align: Align::Top }
    }

    pub fn bot_left() -> (r: Self)
        ensures
            r == (Alignment { justify: Justify::Left, align: Align::Bottom }),
    {
        Self { justify: Justify::Left, align: Align::Bottom }
    }

    pub fn bot_right() -> (r: Self)
        ensures
            r == (Alignment { justify: Justify::Right, align: Align::Bottom }),
    {
        Self { justify: Justify::Right, align: Align::Bottom }
    }
}

impl Default for Alignment {
    /// Top left.
    fn default() -> (r: Self)
        ensures
            r == (Alignment { justify: Justify::Left, align: Align::Top }),
    {
        Self { justify: Justify::Left, align: Align::Top }
    }
}

/// A box's width and height, each given or left to the content.
#[derive(Debug, Copy, Clone, Hash, PartialEq, Eq, Structural, PartialOrd, Ord)]
pub struct Size {
    pub width: Option<Measure>,
    pub height: Option<Measure>,
}

impl Size {
    pub fn new(w: Option<Measure>, h: Option<Measure>) -> (r: Self)
        ensures
            r == (Size { width: w, height: h }),
    {
        Self { width: w, height: h }
    }

    pub fn w_only(w: Measure) -> (r: Self)
        ensures
            r == (Size { width: Some(w), height: None }),
    {
        Self { width: Some(w), height: None }
    }

    pub fn h_only(h: Measure) -> (r: Self)
        ensures
            r == (Size { width: None, height: Some(h) }),
    {
        Self { width: None, height: Some(h) }
    }

    pub fn square(size: Measure) -> (r: Self)
        ensures
            r == (Size { width: Some(size), height: Some(size) }),
    {
        Self { width: Some(size), height: Some(size) }
    }

    pub fn rect(width: Measure, height: Measure) -> (r: Self)
        ensures
            r == (Size { width: Some(width), height: Some(height) }),
    {
        Self { width: Some(width), height: Some(height) }
    }
}

impl Default for Size {
    /// Both lengths left to the content.
    fn default() -> (r: Self)
        ensures
            r == (Size { width: None, height: None }),
    {
        Self { width: None, height: None }
    }
}

/// A foreground and a background color (palette indices).
#[derive(Clone, Copy, Debug, PartialEq, Eq, Structural)]
pub struct Coloring {
    pub foreground: u8,
    pub background: u8,
}

/// The escape sequences that select `c`: background, then foreground.
pub open spec fn coloring_code(c: Coloring) -> Seq<char> {
    color_code(Color::ExtendedBackground(c.background)) + color_code(
        Color::ExtendedForeground(c.foreground),
    )
}

impl Coloring {
    pub fn new(fg: u8, bg: u8) -> (r: Self)
        ensures
            r == (Coloring { foreground: fg, background: bg }),
    {
        Self { foreground: fg, background: bg }
    }

    pub fn set_fg(self, fg: u8) -> (r: Self)
        ensures
            r == (Coloring { foreground: fg, ..self }),
    {
        Self { foreground: fg, ..self }
    }

    pub fn set_bg(self, bg: u8) -> (r: Self)
        ensures
            r == (Coloring { background: bg, ..self }),
    {
        Self { background: bg, ..self }
    }

    /// The escape sequences that select these colors.
    pub fn render(&self) -> (r: String)
        ensures
            r@ == coloring_code(*self),
    {
        let mut s = Color::ExtendedBackground(self.background).render();
        let fg = Color::ExtendedForeground(self.foreground).render();
        let fg_chars = string_chars(&fg);
        push_chars(&mut s, &fg_chars);
        s
    }
}

impl Default for Coloring {
    /// White on black.
    fn default() -> (r: Self)
        ensures
            r == (Coloring { foreground: WHITE, background: BLACK }),
    {
        Self { foreground: WHITE, background: BLACK }
    }
}

/// How a box looks: its size, border, placement of content and colors.
#[derive(Debug)]
pub struct Style {
    pub size: Size,
    pub border: Option<Border>,
    pub alignment: Alignment,
    pub color: Coloring,
}

impl Style {
    /// A style from its parts; the separate `justify` and `align` are not
    /// used, `alignment` decides.
    pub fn from(
        size: Size,
        border: Option<Border>,
        alignment: Alignment,
        justify: Justify,
        align: Align,
        color: Coloring,
    ) -> (r: Self)
        ensures
            r == (Style { size, border, alignment, color }),
    {
        Self { size, border, alignment, color }
    }

    pub fn set_width(self, w: Measure) -> (r: Self)
        ensures
            r == (Style { size: Size { width: Some(w), ..self.size }, ..self }),
    {
        let mut s = self;
        s.size.width = Some(w);
        s
    }

    pub fn set_height(self, h: Measure) -> (r: Self)
        ensures
            r == (Style { size: Size { height: Some(h), ..self.size }, ..self }),
    {
        let mut s = self;
        s.size.height = Some(h);
        s
    }

    pub fn set_size(self, size: Size) -> (r: Self)
        ensures
            r == (Style { size, ..self }),
    {
        let mut s = self;
        s.size = size;
        s
    }

    pub fn set_border(self, b: Border) -> (r: Self)
        ensures
            r == (Style { border: Some(b), ..self }),
    {
        let mut s = self;
        s.border = Some(b);
        s
    }

    pub fn set_justify(self, j: Justify) -> (r: Self)
        ensures
            r == (Style { alignment: Alignment { justify: j, ..self.alignment }, ..self }),
    {
        let mut s = self;
        s.alignment.justify = j;
        s
    }

    pub fn set_align(self, a: Align) -> (r: Self)
        ensures
            r == (Style { alignment: Alignment { align: a, ..self.alignment }, ..self }),
    {
        let mut s = self;
        s.alignment.align = a;
        s
    }

    pub fn set_fg(self, fg: u8) -> (r: Self)
        ensures
            r == (Style { color: Coloring { foreground: fg, ..self.color }, ..self }),
    {
        let mut s = self;
        s.color.foreground = fg;
        s
    }

    pub fn set_bg(self, bg: u8) -> (r: Self)
        ensures
            r == (Style { color: Coloring { background: bg, ..self.color }, ..self }),
    {
        let mut s = self;
        s.color.background = bg;
        s
    }

    pub fn justify(&self) -> (r: Justify)
        ensures
            r == self.alignment.justify,
    {
        self.alignment.justify
    }

    pub fn align(&self) -> (r: Align)
        ensures
            r == self.alignment.align,
    {
        self.alignment.align
    }

    pub fn fg(&self) -> (r: u8)
        ensures
            r == self.color.foreground,
    {
        self.color.foreground
    }

    pub fn bg(&self) -> (r: u8)
        ensures
            r == self.color.background,
    {
        self.color.background
    }

    pub fn height(&self) -> (r: Option<&Measure>)
        ensures
            r matches Some(m) ==> self.size.height == Some(*m),
            r is None <==> self.size.height is None,
    {
        self.size.height.as_ref()
    }

    pub fn width(&self) -> (r: Option<&Measure>)
        ensures
            r matches Some(m) ==> self.size.width == Some(*m),
            r is None <==> self.size.width is None,
    {
        self.size.width.as_ref()
    }
}

impl Clone for Style {
    fn clone(&self) -> (r: Self)
        ensures
            r == *self,
    {
        Style {
            size: self.size,
            border: match &self.border {
                Some(b) => Some(b.clone()),
                None => None,
            },
            alignment: self.alignment,
            color: self.color,
        }
    }
}

impl Default for Style {
    /// Content-sized, no border, top left, white on black.
    fn default() -> (r: Self)
        ensures
            r == (Style {
                size: Size { width: None, height: None },
                border: None,
                alignment: Alignment { justify: Justify::Left, align: Align::Top },
                color: Coloring { foreground: WHITE, background: BLACK },
            }),
    {
        Self {
            size: Size::default(),
            border: None,
            alignment: Alignment::default(),
            color: Coloring::default(),
        }
    }
}

} // verus!
