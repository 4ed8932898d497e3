use super::color::{color_code, Color, BLACK, WHITE};
use super::escape::push_chars;
use vstd::prelude::*;

verus! {

/// One cell of text: a symbol with a foreground and a background color
/// (palette indices).
#[derive(Debug, Clone, Copy)]
pub struct Character {
    fg: u8,
    bg: u8,
    sym: char,
}

/// The escape sequences and symbol that draw `c`: the foreground color,
/// the background color, then the symbol.
pub open spec fn char_render(c: Character) -> Seq<char> {
    color_code(Color::ExtendedForeground(c.fg())) + color_code(Color::ExtendedBackground(c.bg()))
        + seq![c.sym()]
}

impl Character {
    pub closed spec fn fg(self) -> u8 {
        self.fg
    }

    pub closed spec fn bg(self) -> u8 {
        self.bg
    }

    pub closed spec fn sym(self) -> char {
        self.sym
    }

    /// The character with symbol `sym` and colors `fg` and `bg`.
    pub closed spec fn make(sym: char, fg: u8, bg: u8) -> Character {
        Character { fg, bg, sym }
    }

    pub broadcast proof fn lemma_make_parts(sym: char, fg: u8, bg: u8)
        ensures
            #[trigger] Character::make(sym, fg, bg).sym() == sym,
            Character::make(sym, fg, bg).fg() == fg,
            Character::make(sym, fg, bg).bg() == bg,
    {
    }

    pub broadcast proof fn lemma_parts_make(c: Character)
        ensures
            #[trigger] Character::make(c.sym(), c.fg(), c.bg()) == c,
    {
    }

    pub fn new(c: char, fg: u8, bg: u8) -> (r: Self)
        ensures
            r == Character::make(c, fg, bg),
    {
        Self { fg, bg, sym: c }
    }

    pub fn set_fg(self, fg: u8) -> (r: Self)
        ensures
            r == Character::make(self.sym(), fg, self.bg()),
    {
        Self { fg, ..self }
    }

    pub fn set_bg(self, bg: u8) -> (r: Self)
        ensures
            r == Character::make(self.sym(), self.fg(), bg),
    {
        Self { bg, ..self }
    }

    pub fn set_sym(self, c: char) -> (r: Self)
        ensures
            r == Character::make(c, self.fg(), self.bg()),
    {
        Self { sym: c, ..self }
    }

    /// Whether both characters have the same two colors.
    pub fn same_colors(&self, other: &Character) -> (r: bool)
        ensures
            r == (self.fg() == other.fg() && self.bg() == other.bg()),
    {
        self.fg == other.fg && self.bg == other.bg
    }

    pub fn as_char(&self) -> (r: char)
        ensures
            r == self.sym(),
    {
        self.sym
    }

    /// The escape sequences and symbol that draw this character.
    pub fn render(&self) -> (r: String)
        ensures
            r@ == char_render(*self),
    {
        let mut s = Color::ExtendedForeground(self.fg).render();
        let bg = Color::ExtendedBackground(self.bg).render();
        let mut tail: Vec<char> = Vec::new();
        tail.push(self.sym);
        let bg_chars: Vec<char> = string_chars(&bg);
        push_chars(&mut s, &bg_chars);
        push_chars(&mut s, &tail);
        assert(s@ =~= char_render(*self));
        s
    }
}

/// The characters of `s`.
pub fn string_chars(s: &String) -> (r: Vec<char>)
    ensures
        r@ == s@,
{
    let mut r: Vec<char> = Vec::new();
    let ghost all = s@;
    for c in it: s.as_str().chars()
        invariant
            it.seq() == all,
            r@ == all.take(it.index() as int),
    {
        r.push(c);
        assert(all.take(it.index() + 1) =~= all.take(it.index() as int).push(c));
    }
    assert(all.take(all.len() as int) =~= all);
    r
}

impl Default for Character {
    /// A white-on-black blank.
    fn default() -> (r: Self)
        ensures
            r == Character::make(' ', WHITE, BLACK),
    {
        Self { fg: WHITE, bg: BLACK, sym: ' ' }
    }
}

/// Something a character can be drawn into.
pub trait PushChar {
    fn push_char(&mut self, c: &Character);
}

impl PushChar for String {
    /// Appends the escape sequences and symbol that draw `c`.
    fn push_char(&mut self, c: &Character)
        ensures
            final(self)@ == old(self)@ + char_render(*c),
    {
        let r = c.render();
        let v = string_chars(&r);
        push_chars(self, &v);
    }
}

} // verus!
