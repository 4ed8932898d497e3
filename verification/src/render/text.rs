use super::character::{char_render, Character};
use super::color::sgr;
use super::escape::{push_char, push_chars};
use vstd::prelude::*;

verus! {

broadcast use {Character::lemma_make_parts, Character::lemma_parts_make};

/// Every symbol of `s` painted with `fg` on `bg`.
pub open spec fn painted(s: Seq<char>, fg: u8, bg: u8) -> Seq<Character> {
    s.map_values(|c: char| Character::make(c, fg, bg))
}

/// What position `i` of `s` contributes when drawn: the full color
/// sequences where the colors change (and at the start), else the symbol.
pub open spec fn piece(s: Seq<Character>, i: int) -> Seq<char> {
    if i == 0 || !(s[i].fg() == s[i - 1].fg() && s[i].bg() == s[i - 1].bg()) {
        char_render(s[i])
    } else {
        seq![s[i].sym()]
    }
}

/// The drawing of the first `n` characters of `s`.
pub open spec fn render_prefix(s: Seq<Character>, n: nat) -> Seq<char>
    decreases n,
{
    if n == 0 {
        Seq::empty()
    } else {
        render_prefix(s, (n - 1) as nat) + piece(s, n - 1)
    }
}

/// The drawing of `s`, closed by a color reset.
pub open spec fn render_text(s: Seq<Character>) -> Seq<char> {
    render_prefix(s, s.len()) + sgr(seq!['0'])
}

/// `t` inserted into `s` so that it starts at `index`.
pub open spec fn spliced(s: Seq<Character>, index: int, t: Seq<Character>) -> Seq<Character> {
    if t.len() == 0 {
        s
    } else {
        s.take(index) + t + s.skip(index)
    }
}

/// The symbols of `s`, colors dropped.
pub open spec fn symbols(s: Seq<Character>) -> Seq<char> {
    s.map_values(|c: Character| c.sym())
}

/// A borrowed run of characters.
#[derive(Debug, Clone)]
pub struct TextSlice<'a> {
    data: &'a [Character],
}

impl<'a> View for TextSlice<'a> {
    type V = Seq<Character>;

    closed spec fn view(&self) -> Seq<Character> {
        self.data@
    }
}

/// Draws `data` into a new string.
fn render_characters(data: &[Character]) -> (r: String)
    ensures
        r@ == render_text(data@),
{
    let mut s = String::new();
    let mut i: usize = 0;
    while i < data.len()
        invariant
            0 <= i <= data@.len(),
            s@ == render_prefix(data@, i as nat),
        decreases data@.len() - i,
    {
        let c = data[i];
        if i == 0 || !c.same_colors(&data[i - 1]) {
            let r = c.render();
            let v = super::character::string_chars(&r);
            push_chars(&mut s, &v);
        } else {
            push_char(&mut s, c.as_char());
        }
        assert(s@ =~= render_prefix(data@, (i + 1) as nat));
        i += 1;
    }
    push_char(&mut s, '\x1b');
    push_char(&mut s, '[');
    push_char(&mut s, '0');
    push_char(&mut s, 'm');
    assert(s@ =~= render_text(data@));
    s
}

impl<'a> TextSlice<'a> {
    pub fn len(&self) -> (r: usize)
        ensures
            r == self@.len(),
    {
        self.data.len()
    }

    /// The colored drawing of the slice, closed by a color reset.
    pub fn render(&self) -> (r: String)
        ensures
            r@ == render_text(self@),
    {
        render_characters(self.data)
    }
}

/// A run of colored characters.
#[derive(Debug)]
pub struct Text {
    data: Vec<Character>,
}

impl View for Text {
    type V = Seq<Character>;

    closed spec fn view(&self) -> Seq<Character> {
        self.data@
    }
}

impl Text {
    /// `s` painted with `fg` on `bg`.
    pub fn from(s: &str, fg: u8, bg: u8) -> (r: Self)
        ensures
            r@ == painted(s@, fg, bg),
    {
        let mut v: Vec<Character> = Vec::new();
        let ghost all = s@;
        for c in it: s.chars()
            invariant
                it.seq() == all,
                v@ == painted(all.take(it.index() as int), fg, bg),
        {
            v.push(Character::new(c, fg, bg));
            assert(painted(all.take(it.index() + 1), fg, bg) =~= painted(
                all.take(it.index() as int),
                fg,
                bg,
            ).push(Character::make(c, fg, bg)));
        }
        assert(all.take(all.len() as int) =~= all);
        Self { data: v }
    }

    /// The empty text.
    pub fn new() -> (r: Self)
        ensures
            r@ == Seq::<Character>::empty(),
    {
        Self { data: Vec::new() }
    }

    /// The text holding `chars`, in order.
    pub fn from_chars(chars: &[Character]) -> (r: Self)
        ensures
            r@ == chars@,
    {
        let mut t = Text::new();
        t.push_slice_chars(chars);
        assert(t@ =~= chars@);
        t
    }

    fn push_slice_chars(&mut self, chars: &[Character])
        ensures
            final(self)@ == old(self)@ + chars@,
    {
        let mut i: usize = 0;
        while i < chars.len()
            invariant
                0 <= i <= chars@.len(),
                self@ == old(self)@ + chars@.take(i as int),
            decreases chars@.len() - i,
        {
            self.data.push(chars[i]);
            assert(chars@.take(i + 1) =~= chars@.take(i as int).push(chars@[i as int]));
            i += 1;
        }
        assert(chars@.take(chars@.len() as int) =~= chars@);
    }

    fn insert_slice_chars(&mut self, index: usize, chars: &[Character])
        requires
            chars@.len() == 0 || index <= old(self)@.len(),
        ensures
            final(self)@ == spliced(old(self)@, index as int, chars@),
    {
        if chars.len() == 0 {
            return;
        }
        let mut i: usize = 0;
        while i < chars.len()
            invariant
                0 <= i <= chars@.len(),
                index <= old(self)@.len(),
                self@ == old(self)@.take(index as int) + chars@.take(i as int) + old(self)@.skip(
                    index as int,
                ),
            decreases chars@.len() - i,
        {
            let len = self.data.len();
            assert(index + i <= len);
            self.data.insert(index + i, chars[i]);
            assert(chars@.take(i + 1) =~= chars@.take(i as int).push(chars@[i as int]));
            assert(self@ =~= old(self)@.take(index as int) + chars@.take(i + 1) + old(self)@.skip(
                index as int,
            ));
            i += 1;
        }
        assert(chars@.take(chars@.len() as int) =~= chars@);
    }

    pub fn push(&mut self, c: Character)
        ensures
            final(self)@ == old(self)@.push(c),
    {
        self.data.push(c);
    }

    pub fn insert(&mut self, index: usize, c: Character)
        requires
            index <= old(self)@.len(),
        ensures
            final(self)@ == old(self)@.insert(index as int, c),
    {
        self.data.insert(index, c);
    }

    /// Appends `s` painted with `fg` on `bg`.
    pub fn push_str(&mut self, s: &str, fg: u8, bg: u8)
        ensures
            final(self)@ == old(self)@ + painted(s@, fg, bg),
    {
        let t = Text::from(s, fg, bg);
        self.push_slice_chars(t.data.as_slice());
    }

    /// Inserts `s` painted with `fg` on `bg` so that it starts at `index`.
    pub fn insert_str(&mut self, index: usize, s: &str, fg: u8, bg: u8)
        requires
            s@.len() == 0 || index <= old(self)@.len(),
        ensures
            final(self)@ == spliced(old(self)@, index as int, painted(s@, fg, bg)),
    {
        let t = Text::from(s, fg, bg);
        self.insert_slice_chars(index, t.data.as_slice());
    }

    /// Appends the characters of `text`.
    pub fn push_text(&mut self, text: &Text)
        ensures
            final(self)@ == old(self)@ + text@,
    {
        self.push_slice_chars(text.data.as_slice());
    }

    /// Inserts the characters of `text` so that they start at `index`.
    pub fn insert_text(&mut self, index: usize, text: &Text)
        requires
            text@.len() == 0 || index <= old(self)@.len(),
        ensures
            final(self)@ == spliced(old(self)@, index as int, text@),
    {
        self.insert_slice_chars(index, text.data.as_slice());
    }

    /// Appends the characters of `text`.
    pub fn push_textslice(&mut self, text: &TextSlice)
        ensures
            final(self)@ == old(self)@ + text@,
    {
        self.push_slice_chars(text.data);
    }

    /// Inserts the characters of `text` so that they start at `index`.
    pub fn insert_textslice(&mut self, index: usize, text: &TextSlice)
        requires
            text@.len() == 0 || index <= old(self)@.len(),
        ensures
            final(self)@ == spliced(old(self)@, index as int, text@),
    {
        self.insert_slice_chars(index, text.data);
    }

    pub fn pop(&mut self) -> (r: Option<Character>)
        ensures
            old(self)@.len() == 0 ==> r is None && final(self)@ == old(self)@,
            old(self)@.len() > 0 ==> r == Some(old(self)@.last()) && final(self)@
                == old(self)@.drop_last(),
    {
        self.data.pop()
    }

    pub fn remove(&mut self, index: usize) -> (r: Character)
        requires
            index < old(self)@.len(),
        ensures
            r == old(self)@[index as int],
            final(self)@ == old(self)@.remove(index as int),
    {
        self.data.remove(index)
    }

    /// Appends the characters of `other`.
    pub fn join(&mut self, other: Text)
        ensures
            final(self)@ == old(self)@ + other@,
    {
        self.push_slice_chars(other.data.as_slice());
    }

    /// The characters before `index` and the characters from `index` on.
    pub fn split(self, index: usize) -> (r: (Text, Text))
        requires
            index <= self@.len(),
        ensures
            r.0@ == self@.take(index as int),
            r.1@ == self@.skip(index as int),
    {
        let mut left = self.data;
        let right = left.split_off(index);
        (Text { data: left }, Text { data: right })
    }

    /// The symbols, colors dropped.
    pub fn to_string(&self) -> (r: String)
        ensures
            r@ == symbols(self@),
    {
        let mut s = String::new();
        let mut i: usize = 0;
        while i < self.data.len()
            invariant
                0 <= i <= self@.len(),
                s@ == symbols(self@.take(i as int)),
            decreases self@.len() - i,
        {
            push_char(&mut s, self.data[i].as_char());
            assert(symbols(self@.take(i + 1)) =~= symbols(self@.take(i as int)).push(
                self@[i as int].sym(),
            ));
            i += 1;
        }
        assert(self@.take(self@.len() as int) =~= self@);
        s
    }

    pub fn len(&self) -> (r: usize)
        ensures
            r == self@.len(),
    {
        self.data.len()
    }

    pub fn as_slice(&self) -> (r: TextSlice)
        ensures
            r@ == self@,
    {
        TextSlice { data: self.data.as_slice() }
    }

    /// The characters from `start` up to `end`, or to the end of the text
    /// when `end` is past it.
    pub fn slice(&self, start: usize, end: usize) -> (r: TextSlice)
        requires
            start <= (if end > self@.len() { self@.len() } else { end as nat }),
        ensures
            r@ == self@.subrange(start as int, if end > self@.len() { self@.len() as int } else { end as int }),
    {
        let end = if end > self.len() {
            self.len()
        } else {
            end
        };
        TextSlice { data: slice_range(self.data.as_slice(), start, end) }
    }

    /// The colored drawing of the text, closed by a color reset.
    pub fn render(&self) -> (r: String)
        ensures
            r@ == render_text(self@),
    {
        render_characters(self.data.as_slice())
    }
}

/// `s[start..end]`.
fn slice_range<T>(s: &[T], start: usize, end: usize) -> (r: &[T])
    requires
        start <= end <= s@.len(),
    ensures
        r@ == s@.subrange(start as int, end as int),
{
    &s[start..end]
}

/// The length of the longest of `lines` (zero for none).
pub open spec fn longest(lines: Seq<Text>) -> nat
    decreases lines.len(),
{
    if lines.len() == 0 {
        0
    } else {
        let rest = longest(lines.drop_last());
        if rest < lines.last()@.len() {
            lines.last()@.len()
        } else {
            rest
        }
    }
}

/// No line is longer than the longest, and the longest is one of them
/// (or zero for none).
pub proof fn lemma_longest(lines: Seq<Text>)
    ensures
        forall|i: int| 0 <= i < lines.len() ==> (#[trigger] lines[i])@.len() <= longest(lines),
        lines.len() == 0 ==> longest(lines) == 0,
        lines.len() > 0 ==> exists|i: int| 0 <= i < lines.len() && (#[trigger] lines[i])@.len() == longest(lines),
    decreases lines.len(),
{
    if lines.len() > 0 {
        let rest = lines.drop_last();
        lemma_longest(rest);
        assert forall|i: int| 0 <= i < lines.len() implies (#[trigger] lines[i])@.len() <= longest(lines) by {
            if i < rest.len() {
                assert(lines[i] == rest[i]);
            }
        }
        if rest.len() > 0 && longest(rest) >= lines.last()@.len() {
            let j = choose|j: int| 0 <= j < rest.len() && (#[trigger] rest[j])@.len() == longest(rest);
            assert(lines[j] == rest[j]);
        } else {
            assert(lines[lines.len() - 1] == lines.last());
        }
    }
}

/// The length of the longest line.
pub fn longest_len(lines: &Vec<Text>) -> (r: usize)
    ensures
        r == longest(lines@),
{
    let mut w: usize = 0;
    let mut i: usize = 0;
    while i < lines.len()
        invariant
            0 <= i <= lines@.len(),
            w == longest(lines@.take(i as int)),
        decreases lines@.len() - i,
    {
        assert(lines@.take(i + 1).drop_last() =~= lines@.take(i as int));
        if w < lines[i].len() {
            w = lines[i].len();
        }
        i += 1;
    }
    assert(lines@.take(lines@.len() as int) =~= lines@);
    w
}

impl Clone for Text {
    /// A text with the same characters.
    fn clone(&self) -> (r: Self)
        ensures
            r@ == self@,
    {
        Text::from_chars(self.data.as_slice())
    }
}

/// Something text can be drawn into.
pub trait PushText {
    fn push_text(&mut self, t: &Text);
}

impl PushText for String {
    /// Appends the colored drawing of `t`.
    fn push_text(&mut self, t: &Text)
        ensures
            final(self)@ == old(self)@ + render_text(t@),
    {
        let r = t.render();
        let v = super::character::string_chars(&r);
        push_chars(self, &v);
    }
}

/// Joining the two parts of a split gives back the text.
pub proof fn law_split_then_join(s: Seq<Character>, index: int)
    requires
        0 <= index <= s.len(),
    ensures
        s.take(index) + s.skip(index) == s,
{
    assert(s.take(index) + s.skip(index) =~= s);
}

/// Removing a character just inserted at the same place gives back the
/// text; popping a character just pushed gives back the text.
pub proof fn law_insert_then_remove(s: Seq<Character>, index: int, c: Character)
    requires
        0 <= index <= s.len(),
    ensures
        s.insert(index, c).remove(index) == s,
        s.insert(index, c)[index] == c,
        s.push(c).drop_last() == s,
{
    assert(s.insert(index, c).remove(index) =~= s);
    assert(s.push(c).drop_last() =~= s);
}

/// Inserting a whole text is joining the parts around it.
pub proof fn law_splice_is_join(s: Seq<Character>, index: int, t: Seq<Character>)
    requires
        0 <= index <= s.len(),
    ensures
        spliced(s, index, t) == s.take(index) + t + s.skip(index),
{
    if t.len() == 0 {
        assert(s.take(index) + t + s.skip(index) =~= s);
    }
}

/// Text in one pair of colors is drawn as the colors of its first
/// character (with that character), then the other symbols one by one,
/// then the color reset: the colors are sent once, where they start.
pub proof fn law_one_color_text_renders_symbols(s: Seq<Character>)
    requires
        s.len() > 0,
        forall|i: int| 0 <= i < s.len() ==> #[trigger] s[i].fg() == s[0].fg() && s[i].bg() == s[0].bg(),
    ensures
        render_text(s) == char_render(s[0]) + symbols(s).skip(1) + sgr(seq!['0']),
{
    lemma_one_color_prefix(s, s.len());
    assert(symbols(s).subrange(1, s.len() as int) =~= symbols(s).skip(1));
}

proof fn lemma_one_color_prefix(s: Seq<Character>, n: nat)
    requires
        1 <= n <= s.len(),
        forall|i: int| 0 <= i < s.len() ==> #[trigger] s[i].fg() == s[0].fg() && s[i].bg() == s[0].bg(),
    ensures
        render_prefix(s, n) == char_render(s[0]) + symbols(s).subrange(1, n as int),
    decreases n,
{
    if n == 1 {
        assert(render_prefix(s, 0) == Seq::<char>::empty());
        assert(symbols(s).subrange(1, 1) =~= Seq::<char>::empty());
        assert(render_prefix(s, 1) =~= char_render(s[0]));
    } else {
        lemma_one_color_prefix(s, (n - 1) as nat);
        let i = n - 1;
        assert(s[i].fg() == s[0].fg() && s[i - 1].fg() == s[0].fg());
        assert(s[i].bg() == s[0].bg() && s[i - 1].bg() == s[0].bg());
        assert(piece(s, i) == seq![s[i].sym()]);
        assert(symbols(s).subrange(1, n as int) =~= symbols(s).subrange(1, i).push(s[i].sym()));
    }
}

} // verus!
