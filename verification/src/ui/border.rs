use super::consts::{
    BOTTOM_BLOCK, DOUBLE_BLC, DOUBLE_BRC, DOUBLE_H_LINE, DOUBLE_TLC, DOUBLE_TRC, DOUBLE_V_LINE, FULL_BLOCK,
    HEAVY_BLC, HEAVY_BRC, HEAVY_H_LINE, HEAVY_TLC, HEAVY_TRC, HEAVY_V_LINE, TOP_BLOCK,
};
use crate::render::character::string_chars;
use vstd::prelude::*;
use vstd::string::StringSliceAdditionalSpecFns;
use vstd::utf8::encode_utf8;

verus! {

/// What a side of a border is drawn with: one character, a repeating
/// string, or nothing.
#[derive(Debug, PartialEq, Eq, Hash, PartialOrd, Ord)]
pub enum BorderSprite {
    Char(char),
    String(String),
    NoSprite,
}

/// The character a side shows at step `iter`: the character itself, or the
/// string's characters in turn (`None` for no sprite).
pub open spec fn side_char(s: BorderSprite, iter: nat) -> Option<char> {
    match s {
        BorderSprite::Char(c) => Some(c),
        BorderSprite::String(t) => Some(t@[(iter % t@.len()) as int]),
        BorderSprite::NoSprite => None,
    }
}

/// Whether two sprites draw the same: the same character, strings with the
/// same characters, or both nothing.
pub open spec fn sprite_eq(a: BorderSprite, b: BorderSprite) -> bool {
    match (a, b) {
        (BorderSprite::Char(c), BorderSprite::Char(d)) => c == d,
        (BorderSprite::String(x), BorderSprite::String(y)) => x@ == y@,
        (BorderSprite::NoSprite, BorderSprite::NoSprite) => true,
        _ => false,
    }
}

/// Whether `byte_step_char` is defined: a string sprite must not be empty.
pub open spec fn byte_steps_ok(s: BorderSprite) -> bool {
    match s {
        BorderSprite::String(t) => encode_utf8(t@).len() > 0,
        _ => true,
    }
}

/// The character at step `iter` when a string is stepped through modulo
/// its length in bytes: past the last character of a string with multi-byte
/// characters there is none.
pub open spec fn byte_step_char(s: BorderSprite, iter: nat) -> Option<char> {
    match s {
        BorderSprite::Char(c) => Some(c),
        BorderSprite::NoSprite => None,
        BorderSprite::String(t) => {
            let k = iter % encode_utf8(t@).len();
            if k < t@.len() {
                Some(t@[k as int])
            } else {
                None
            }
        },
    }
}

/// Whether `side_char` is defined: a string sprite must not be empty.
pub open spec fn side_ok(s: BorderSprite) -> bool {
    s matches BorderSprite::String(t) ==> t@.len() > 0
}

impl BorderSprite {
    pub fn is_none(&self) -> (r: bool)
        ensures
            r == (*self is NoSprite),
    {
        match self {
            BorderSprite::NoSprite => true,
            _ => false,
        }
    }

    /// The character at step `iter`. A string sprite steps through its
    /// characters modulo its length in bytes, so a step past the last
    /// character of a string with multi-byte characters gives `None`.
    pub fn next(&self, iter: usize) -> (r: Option<char>)
        requires
            byte_steps_ok(*self),
        ensures
            r == byte_step_char(*self, iter as nat),
    {
        match self {
            BorderSprite::Char(c) => Some(*c),
            BorderSprite::String(s) => {
                let st = s.as_str();
                let n = st.as_bytes().len();
                let k = iter % n;
                let cs = string_chars(s);
                if k < cs.len() {
                    Some(cs[k])
                } else {
                    None
                }
            },
            BorderSprite::NoSprite => None,
        }
    }

    /// Whether the sprite can be stepped through: not an empty string.
    pub fn can_step(&self) -> (r: bool)
        ensures
            r == side_ok(*self),
    {
        match self {
            BorderSprite::String(s) => string_chars(s).len() > 0,
            _ => true,
        }
    }

    /// A sprite that draws the same.
    pub fn duplicate(&self) -> (r: BorderSprite)
        ensures
            sprite_eq(r, *self),
    {
        match self {
            BorderSprite::Char(c) => BorderSprite::Char(*c),
            BorderSprite::String(s) => BorderSprite::String(s.clone()),
            BorderSprite::NoSprite => BorderSprite::NoSprite,
        }
    }

    /// The character at step `iter`, cycling through a string by its
    /// characters.
    fn nth(&self, iter: usize) -> (r: Option<char>)
        requires
            side_ok(*self),
        ensures
            r == side_char(*self, iter as nat),
    {
        match self {
            BorderSprite::NoSprite => None,
            BorderSprite::Char(c) => Some(*c),
            BorderSprite::String(s) => {
                let cs = string_chars(s);
                Some(cs[iter % cs.len()])
            },
        }
    }
}

/// Blank space inside a border, per side.
#[derive(Debug, Clone, Copy, PartialEq, Eq, Hash, PartialOrd, Ord)]
pub struct Padding {
    pub top: usize,
    pub bottom: usize,
    pub right: usize,
    pub left: usize,
}

impl Padding {
    /// The same padding on every side.
    pub fn square(s: usize) -> (r: Self)
        ensures
            r == (Padding { top: s, bottom: s, right: s, left: s }),
    {
        Self { top: s, bottom: s, right: s, left: s }
    }

    /// `w` on the left and right, `l` on the top and bottom.
    pub fn rectangle(w: usize, l: usize) -> (r: Self)
        ensures
            r == (Padding { top: l, bottom: l, right: w, left: w }),
    {
        Self { top: l, bottom: l, right: w, left: w }
    }
}

impl Default for Padding {
    fn default() -> (r: Self)
        ensures
            r == (Padding { top: 0, bottom: 0, right: 0, left: 0 }),
    {
        Self { top: 0, bottom: 0, right: 0, left: 0 }
    }
}

/// A frame around a box: four sides, four corners, and padding inside.
#[derive(Debug, PartialEq, Eq, Hash, PartialOrd, Ord)]
pub struct Border {
    pub top: BorderSprite,
    pub top_left_corner: Option<char>,
    pub top_right_corner: Option<char>,
    pub bottom: BorderSprite,
    pub bottom_left_corner: Option<char>,
    pub bottom_right_corner: Option<char>,
    pub left: BorderSprite,
    pub right: BorderSprite,
    pub padding: Padding,
}

/// A border drawn on the left: a left side or a left corner.
pub open spec fn has_left(b: Border) -> bool {
    !(b.left is NoSprite) || b.top_left_corner is Some || b.bottom_left_corner is Some
}

/// A border drawn on the right: a right side or a right corner.
pub open spec fn has_right(b: Border) -> bool {
    !(b.right is NoSprite) || b.top_right_corner is Some || b.bottom_right_corner is Some
}

/// A border drawn on the top: a top side or a top corner.
pub open spec fn has_top(b: Border) -> bool {
    !(b.top is NoSprite) || b.top_left_corner is Some || b.top_right_corner is Some
}

/// A border drawn on the bottom: a bottom side or a bottom corner.
pub open spec fn has_bottom(b: Border) -> bool {
    !(b.bottom is NoSprite) || b.bottom_left_corner is Some || b.bottom_right_corner is Some
}

/// The columns a border takes: one per drawn side, plus the left and right
/// padding.
pub open spec fn border_width(b: Border) -> int {
    (if has_left(b) { 1int } else { 0 }) + (if has_right(b) { 1int } else { 0 }) + b.padding.left
        + b.padding.right
}

/// The rows a border takes: one for a top side, one for a bottom side,
/// plus the top and bottom padding.
pub open spec fn border_height(b: Border) -> int {
    (if has_top(b) { 1int } else { 0 }) + (if has_bottom(b) { 1int } else { 0 }) + b.padding.bottom
        + b.padding.top
}

/// Every side of a border may be drawn: no side is an empty string.
pub open spec fn border_ok(b: Border) -> bool {
    side_ok(b.top) && side_ok(b.bottom) && side_ok(b.left) && side_ok(b.right)
}

impl Border {
    /// A border with nothing drawn and no padding.
    pub fn new() -> (r: Self)
        ensures
            r == Border::from_parts(BorderSprite::NoSprite, None, Padding { top: 0, bottom: 0, right: 0, left: 0 }),
    {
        Self {
            top: BorderSprite::NoSprite,
            top_left_corner: None,
            top_right_corner: None,
            bottom: BorderSprite::NoSprite,
            bottom_left_corner: None,
            bottom_right_corner: None,
            left: BorderSprite::NoSprite,
            right: BorderSprite::NoSprite,
            padding: Padding { top: 0, bottom: 0, right: 0, left: 0 },
        }
    }

    /// The border with `s` on every side, `corner` in every corner and
    /// padding `p`.
    pub open spec fn from_parts(s: BorderSprite, corner: Option<char>, p: Padding) -> Border {
        Border {
            top: s,
            top_left_corner: corner,
            top_right_corner: corner,
            bottom: s,
            bottom_left_corner: corner,
            bottom_right_corner: corner,
            left: s,
            right: s,
            padding: p,
        }
    }

    /// A heavy line border.
    pub fn as_heavy(pad: Padding) -> (r: Self)
        ensures
            r == (Border {
                top: BorderSprite::Char(HEAVY_H_LINE),
                top_left_corner: Some(HEAVY_TLC),
                top_right_corner: Some(HEAVY_TRC),
                bottom: BorderSprite::Char(HEAVY_H_LINE),
                bottom_left_corner: Some(HEAVY_BLC),
                bottom_right_corner: Some(HEAVY_BRC),
                left: BorderSprite::Char(HEAVY_V_LINE),
                right: BorderSprite::Char(HEAVY_V_LINE),
                padding: pad,
            }),
    {
        Self {
            top: BorderSprite::Char(HEAVY_H_LINE),
            top_right_corner: Some(HEAVY_TRC),
            top_left_corner: Some(HEAVY_TLC),
            bottom: BorderSprite::Char(HEAVY_H_LINE),
            bottom_right_corner: Some(HEAVY_BRC),
            bottom_left_corner: Some(HEAVY_BLC),
            right: BorderSprite::Char(HEAVY_V_LINE),
            left: BorderSprite::Char(HEAVY_V_LINE),
            padding: pad,
        }
    }

    /// A double line border.
    pub fn as_double(pad: Padding) -> (r: Self)
        ensures
            r == (Border {
                top: BorderSprite::Char(DOUBLE_H_LINE),
                top_left_corner: Some(DOUBLE_TLC),
                top_right_corner: Some(DOUBLE_TRC),
                bottom: BorderSprite::Char(DOUBLE_H_LINE),
                bottom_left_corner: Some(DOUBLE_BLC),
                bottom_right_corner: Some(DOUBLE_BRC),
                left: BorderSprite::Char(DOUBLE_V_LINE),
                right: BorderSprite::Char(DOUBLE_V_LINE),
                padding: pad,
            }),
    {
        Self {
            top: BorderSprite::Char(DOUBLE_H_LINE),
            top_right_corner: Some(DOUBLE_TRC),
            top_left_corner: Some(DOUBLE_TLC),
            bottom: BorderSprite::Char(DOUBLE_H_LINE),
            bottom_right_corner: Some(DOUBLE_BRC),
            bottom_left_corner: Some(DOUBLE_BLC),
            right: BorderSprite::Char(DOUBLE_V_LINE),
            left: BorderSprite::Char(DOUBLE_V_LINE),
            padding: pad,
        }
    }

    /// A border of block characters.
    pub fn as_block(pad: Padding) -> (r: Self)
        ensures
            r == (Border {
                top: BorderSprite::Char(TOP_BLOCK),
                top_left_corner: Some(FULL_BLOCK),
                top_right_corner: Some(FULL_BLOCK),
                bottom: BorderSprite::Char(BOTTOM_BLOCK),
                bottom_left_corner: Some(FULL_BLOCK),
                bottom_right_corner: Some(FULL_BLOCK),
                left: BorderSprite::Char(FULL_BLOCK),
                right: BorderSprite::Char(FULL_BLOCK),
                padding: pad,
            }),
    {
        Self {
            top: BorderSprite::Char(TOP_BLOCK),
            top_right_corner: Some(FULL_BLOCK),
            top_left_corner: Some(FULL_BLOCK),
            bottom: BorderSprite::Char(BOTTOM_BLOCK),
            bottom_right_corner: Some(FULL_BLOCK),
            bottom_left_corner: Some(FULL_BLOCK),
            right: BorderSprite::Char(FULL_BLOCK),
            left: BorderSprite::Char(FULL_BLOCK),
            padding: pad,
        }
    }

    /// A border of `#`.
    pub fn as_hash(pad: Padding) -> (r: Self)
        ensures
            r == Border::from_parts(BorderSprite::Char('#'), Some('#'), pad),
    {
        Self {
            top: BorderSprite::Char('#'),
            top_right_corner: Some('#'),
            top_left_corner: Some('#'),
            bottom: BorderSprite::Char('#'),
            bottom_right_corner: Some('#'),
            bottom_left_corner: Some('#'),
            right: BorderSprite::Char('#'),
            left: BorderSprite::Char('#'),
            padding: pad,
        }
    }

    pub fn is_top_none(&self) -> (r: bool)
        ensures
            r == (self.top is NoSprite),
    {
        self.top.is_none()
    }

    pub fn is_top_left_corner_none(&self) -> (r: bool)
        ensures
            r == (self.top_left_corner is None),
    {
        self.top_left_corner.is_none()
    }

    pub fn is_top_right_corner_none(&self) -> (r: bool)
        ensures
            r == (self.top_right_corner is None),
    {
        self.top_right_corner.is_none()
    }

    pub fn is_bottom_none(&self) -> (r: bool)
        ensures
            r == (self.bottom is NoSprite),
    {
        self.bottom.is_none()
    }

    pub fn is_bottom_left_corner_none(&self) -> (r: bool)
        ensures
            r == (self.bottom_left_corner is None),
    {
        self.bottom_left_corner.is_none()
    }

    pub fn is_bottom_right_corner_none(&self) -> (r: bool)
        ensures
            r == (self.bottom_right_corner is None),
    {
        self.bottom_right_corner.is_none()
    }

    pub fn is_left_none(&self) -> (r: bool)
        ensures
            r == (self.left is NoSprite),
    {
        self.left.is_none()
    }

    pub fn is_right_none(&self) -> (r: bool)
        ensures
            r == (self.right is NoSprite),
    {
        self.right.is_none()
    }

    /// Whether this border has sprite `s` on every side (up to equal
    /// drawing), corners `corner` and padding `p`.
    pub open spec fn is_uniform(self, s: BorderSprite, corner: Option<char>, p: Padding) -> bool {
        &&& sprite_eq(self.top, s)
        &&& sprite_eq(self.bottom, s)
        &&& sprite_eq(self.left, s)
        &&& sprite_eq(self.right, s)
        &&& self.top_left_corner == corner
        &&& self.top_right_corner == corner
        &&& self.bottom_left_corner == corner
        &&& self.bottom_right_corner == corner
        &&& self.padding == p
    }

    /// The string `s` repeated on every side, no corners, no padding.
    pub fn from_str(s: &str) -> (r: Self)
        ensures
            r.top matches BorderSprite::String(t) && t@ == s@,
            r.is_uniform(r.top, None, Padding { top: 0, bottom: 0, right: 0, left: 0 }),
    {
        let t = String::from_str(s);
        Self {
            top: BorderSprite::String(t.clone()),
            top_left_corner: None,
            top_right_corner: None,
            bottom: BorderSprite::String(t.clone()),
            bottom_left_corner: None,
            bottom_right_corner: None,
            left: BorderSprite::String(t.clone()),
            right: BorderSprite::String(t),
            padding: Padding::square(0),
        }
    }

    /// The string `s` repeated on every side, no corners, no padding.
    pub fn from_string(s: &String) -> (r: Self)
        ensures
            r.top matches BorderSprite::String(t) && t@ == s@,
            r.is_uniform(r.top, None, Padding { top: 0, bottom: 0, right: 0, left: 0 }),
    {
        Self::from_str(s.as_str())
    }

    pub fn set_top(self, sprite: BorderSprite) -> (r: Self)
        ensures
            r == (Border { top: sprite, ..self }),
    {
        Self { top: sprite, ..self }
    }

    pub fn set_top_l(self, sprite: Option<char>) -> (r: Self)
        ensures
            r == (Border { top_left_corner: sprite, ..self }),
    {
        Self { top_left_corner: sprite, ..self }
    }

    pub fn set_top_r(self, sprite: Option<char>) -> (r: Self)
        ensures
            r == (Border { top_right_corner: sprite, ..self }),
    {
        Self { top_right_corner: sprite, ..self }
    }

    pub fn set_bot(self, sprite: BorderSprite) -> (r: Self)
        ensures
            r == (Border { bottom: sprite, ..self }),
    {
        Self { bottom: sprite, ..self }
    }

    pub fn set_bot_l(self, sprite: Option<char>) -> (r: Self)
        ensures
            r == (Border { bottom_left_corner: sprite, ..self }),
    {
        Self { bottom_left_corner: sprite, ..self }
    }

    pub fn set_bot_r(self, sprite: Option<char>) -> (r: Self)
        ensures
            r == (Border { bottom_right_corner: sprite, ..self }),
    {
        Self { bottom_right_corner: sprite, ..self }
    }

    pub fn set_l(self, sprite: BorderSprite) -> (r: Self)
        ensures
            r == (Border { left: sprite, ..self }),
    {
        Self { left: sprite, ..self }
    }

    pub fn set_r(self, sprite: BorderSprite) -> (r: Self)
        ensures
            r == (Border { right: sprite, ..self }),
    {
        Self { right: sprite, ..self }
    }

    pub fn set_top_pad(self, val: usize) -> (r: Self)
        ensures
            r == (Border { padding: Padding { top: val, ..self.padding }, ..self }),
    {
        Self { padding: Padding { top: val, ..self.padding }, ..self }
    }

    pub fn set_bot_pad(self, val: usize) -> (r: Self)
        ensures
            r == (Border { padding: Padding { bottom: val, ..self.padding }, ..self }),
    {
        Self { padding: Padding { bottom: val, ..self.padding }, ..self }
    }

    pub fn set_l_pad(self, val: usize) -> (r: Self)
        ensures
            r == (Border { padding: Padding { left: val, ..self.padding }, ..self }),
    {
        Self { padding: Padding { left: val, ..self.padding }, ..self }
    }

    pub fn set_pad(self, pad: Padding) -> (r: Self)
        ensures
            r == (Border { padding: pad, ..self }),
    {
        Self { padding: pad, ..self }
    }

    pub fn pad_right(self, val: usize) -> (r: Self)
        ensures
            r == (Border { padding: Padding { right: val, ..self.padding }, ..self }),
    {
        Self { padding: Padding { right: val, ..self.padding }, ..self }
    }

    /// `s` on every side, no corners, padding `p`.
    pub fn from(s: BorderSprite, p: Padding) -> (r: Self)
        ensures
            r.is_uniform(s, None, p),
    {
        Self {
            top: s.duplicate(),
            top_right_corner: None,
            top_left_corner: None,
            bottom: s.duplicate(),
            bottom_right_corner: None,
            bottom_left_corner: None,
            left: s.duplicate(),
            right: s,
            padding: p,
        }
    }

    /// The columns the border takes: its drawn sides plus padding.
    pub fn width(&self) -> (r: usize)
        requires
            border_width(*self) <= usize::MAX,
        ensures
            r == border_width(*self),
    {
        let mut w: usize = 0;
        if !self.left.is_none() || self.top_left_corner.is_some() || self.bottom_left_corner.is_some() {
            w += 1;
        }
        if !self.right.is_none() || self.top_right_corner.is_some()
            || self.bottom_right_corner.is_some() {
            w += 1;
        }
        w + self.padding.left + self.padding.right
    }

    pub fn has_left_border(&self) -> (r: bool)
        ensures
            r == has_left(*self),
    {
        !self.is_bottom_left_corner_none() || !self.is_left_none() || !self.is_top_left_corner_none()
    }

    pub fn has_right_border(&self) -> (r: bool)
        ensures
            r == has_right(*self),
    {
        !self.is_bottom_right_corner_none() || !self.is_right_none()
            || !self.is_top_right_corner_none()
    }

    pub fn has_top_border(&self) -> (r: bool)
        ensures
            r == has_top(*self),
    {
        !self.is_top_left_corner_none() || !self.is_top_right_corner_none() || !self.is_top_none()
    }

    pub fn has_bot_border(&self) -> (r: bool)
        ensures
            r == has_bottom(*self),
    {
        !self.is_bottom_left_corner_none() || !self.is_bottom_right_corner_none()
            || !self.is_bottom_none()
    }

    /// The rows the border takes: one for each side drawn (top, bottom),
    /// plus padding.
    pub fn height(&self) -> (r: usize)
        requires
            border_height(*self) <= usize::MAX,
        ensures
            r == border_height(*self),
    {
        let mut h: usize = 0;
        if !self.top.is_none() || self.top_left_corner.is_some() || self.top_right_corner.is_some() {
            h += 1;
        }
        if !self.bottom.is_none() || self.bottom_left_corner.is_some()
            || self.bottom_right_corner.is_some() {
            h += 1;
        }
        h + self.padding.bottom + self.padding.top
    }

    pub fn top_pad(&self) -> (r: usize)
        ensures
            r == self.padding.top,
    {
        self.padding.top
    }

    pub fn bot_pad(&self) -> (r: usize)
        ensures
            r == self.padding.bottom,
    {
        self.padding.bottom
    }

    pub fn l_pad(&self) -> (r: usize)
        ensures
            r == self.padding.left,
    {
        self.padding.left
    }

    pub fn r_pad(&self) -> (r: usize)
        ensures
            r == self.padding.right,
    {
        self.padding.right
    }

    /// The top side's character at step `iter`.
    pub fn top(&self, iter: usize) -> (r: Option<char>)
        requires
            side_ok(self.top),
        ensures
            r == side_char(self.top, iter as nat),
    {
        self.top.nth(iter)
    }

    pub fn top_l(&self) -> (r: Option<char>)
        ensures
            r == self.top_left_corner,
    {
        self.top_left_corner
    }

    pub fn top_r(&self) -> (r: Option<char>)
        ensures
            r == self.top_right_corner,
    {
        self.top_right_corner
    }

    /// The bottom side's character at step `iter`.
    pub fn bot(&self, iter: usize) -> (r: Option<char>)
        requires
            side_ok(self.bottom),
        ensures
            r == side_char(self.bottom, iter as nat),
    {
        self.bottom.nth(iter)
    }

    pub fn bot_l(&self) -> (r: Option<char>)
        ensures
            r == self.bottom_left_corner,
    {
        self.bottom_left_corner
    }

    pub fn bot_r(&self) -> (r: Option<char>)
        ensures
            r == self.bottom_right_corner,
    {
        self.bottom_right_corner
    }

    /// The left side's character at step `iter`.
    pub fn l(&self, iter: usize) -> (r: Option<char>)
        requires
            side_ok(self.left),
        ensures
            r == side_char(self.left, iter as nat),
    {
        self.left.nth(iter)
    }

    /// The right side's character at step `iter`.
    pub fn r(&self, iter: usize) -> (r: Option<char>)
        requires
            side_ok(self.right),
        ensures
            r == side_char(self.right, iter as nat),
    {
        self.right.nth(iter)
    }
}

impl Clone for BorderSprite {
    fn clone(&self) -> (r: Self)
        ensures
            r == *self,
    {
        match self {
            BorderSprite::Char(c) => BorderSprite::Char(*c),
            BorderSprite::String(s) => BorderSprite::String(s.clone()),
            BorderSprite::NoSprite => BorderSprite::NoSprite,
        }
    }
}

impl Clone for Border {
    fn clone(&self) -> (r: Self)
        ensures
            r == *self,
    {
        Border {
            top: self.top.clone(),
            top_left_corner: self.top_left_corner,
            top_right_corner: self.top_right_corner,
            bottom: self.bottom.clone(),
            bottom_left_corner: self.bottom_left_corner,
            bottom_right_corner: self.bottom_right_corner,
            left: self.left.clone(),
            right: self.right.clone(),
            padding: self.padding,
        }
    }
}

impl Default for Border {
    /// A `#` border with a padding of one on every side.
    fn default() -> (r: Self)
        ensures
            r == Border::from_parts(BorderSprite::Char('#'), Some('#'), Padding { top: 1, bottom: 1, right: 1, left: 1 }),
    {
        Self {
            top: BorderSprite::Char('#'),
            top_left_corner: Some('#'),
            top_right_corner: Some('#'),
            bottom: BorderSprite::Char('#'),
            bottom_left_corner: Some('#'),
            bottom_right_corner: Some('#'),
            left: BorderSprite::Char('#'),
            right: BorderSprite::Char('#'),
            padding: Padding::square(1),
        }
    }
}

/// A side drawn with a character shows that character at every step; one
/// drawn with a string shows its characters in turn, starting over after
/// the last; a side with no sprite shows nothing.
pub proof fn law_side_repeats(c: char, t: String, iter: nat)
    requires
        t@.len() > 0,
    ensures
        side_char(BorderSprite::Char(c), iter) == Some(c),
        side_char(BorderSprite::NoSprite, iter) is None,
        iter < t@.len() ==> side_char(BorderSprite::String(t), iter) == Some(t@[iter as int]),
        side_char(BorderSprite::String(t), iter + t@.len()) == side_char(BorderSprite::String(t), iter),
{
    let n = t@.len();
    assert((iter + n) % n == iter % n) by (nonlinear_arith)
        requires
            n > 0,
    ;
    if iter < n {
        assert(iter % n == iter) by (nonlinear_arith)
            requires
                iter < n,
        ;
    }
}

/// A border takes one column for each of its left and right sides that is
/// drawn (a side sprite or a corner on that side) and one row for each of
/// its top and bottom, plus the padding on each side.
pub proof fn law_border_size(b: Border)
    ensures
        border_width(b) == (if !(b.left is NoSprite) || b.top_left_corner is Some || b.bottom_left_corner is Some {
            1int
        } else {
            0
        }) + (if !(b.right is NoSprite) || b.top_right_corner is Some || b.bottom_right_corner is Some {
            1int
        } else {
            0
        }) + b.padding.left + b.padding.right,
        border_height(b) == (if !(b.top is NoSprite) || b.top_left_corner is Some || b.top_right_corner is Some {
            1int
        } else {
            0
        }) + (if !(b.bottom is NoSprite) || b.bottom_left_corner is Some || b.bottom_right_corner is Some {
            1int
        } else {
            0
        }) + b.padding.top + b.padding.bottom,
{
}

} // verus!
