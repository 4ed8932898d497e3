use super::character::{char_render, Character};
use super::escape::{decimal, push_char, push_chars, push_decimal};
use super::text::{render_text, Text, TextSlice};
use vstd::prelude::*;

verus! {

/// A borrowed block of text rows.
#[derive(Clone, Debug)]
pub struct GlyphSlice<'a> {
    data: Vec<TextSlice<'a>>,
}

impl<'a> View for GlyphSlice<'a> {
    type V = Seq<Seq<Character>>;

    closed spec fn view(&self) -> Seq<Seq<Character>> {
        self.data@.map_values(|l: TextSlice<'a>| l@)
    }
}

/// The escape sequence that moves the cursor one row down and `w` columns
/// back: `ESC [ 1 B ESC [ <w> D`.
pub open spec fn next_row(w: nat) -> Seq<char> {
    seq!['\x1b', '[', '1', 'B', '\x1b', '['] + decimal(w) + seq!['D']
}

/// The drawing of the first `n` rows of `rows`: each row is followed by a
/// move to the start of the next row, except the last row of `rows`.
pub open spec fn rows_prefix(rows: Seq<Seq<Character>>, w: nat, n: nat) -> Seq<char>
    decreases n,
{
    if n == 0 {
        Seq::empty()
    } else {
        let i = n - 1;
        rows_prefix(rows, w, i as nat) + render_text(rows[i]) + if i < rows.len() - 1 {
            next_row(w)
        } else {
            Seq::empty()
        }
    }
}

/// The drawing of a block of rows, each row starting below the start of
/// the one above; `w` is the width of the first row.
pub open spec fn render_rows(rows: Seq<Seq<Character>>) -> Seq<char> {
    rows_prefix(rows, rows[0].len(), rows.len())
}

fn push_next_row(s: &mut String, w: usize)
    ensures
        final(s)@ == old(s)@ + next_row(w as nat),
{
    push_char(s, '\x1b');
    push_char(s, '[');
    push_char(s, '1');
    push_char(s, 'B');
    push_char(s, '\x1b');
    push_char(s, '[');
    push_decimal(s, w as u64);
    push_char(s, 'D');
    assert(s@ =~= old(s)@ + next_row(w as nat));
}

impl<'a> GlyphSlice<'a> {
    /// The drawing of the rows, one below the other.
    pub fn render(&self) -> (r: String)
        requires
            self@.len() > 0,
        ensures
            r@ == render_rows(self@),
    {
        let w = self.data[0].len();
        let mut s = String::new();
        let mut i: usize = 0;
        let n = self.data.len();
        while i < n
            invariant
                n == self@.len(),
                w == self@[0].len(),
                0 <= i <= n,
                s@ == rows_prefix(self@, w as nat, i as nat),
            decreases n - i,
        {
            let line = self.data[i].render();
            let v = super::character::string_chars(&line);
            push_chars(&mut s, &v);
            if i < n - 1 {
                push_next_row(&mut s, w);
            }
            assert(s@ =~= rows_prefix(self@, w as nat, (i + 1) as nat));
            i += 1;
        }
        s
    }
}

/// A picture: one character, or a rectangular block of text rows.
#[derive(Clone, Debug)]
pub enum Glyph {
    Small(Character),
    Block(Vec<Text>),
}

/// The rows of a block, as character sequences.
pub open spec fn block_rows(b: Seq<Text>) -> Seq<Seq<Character>> {
    b.map_values(|t: Text| t@)
}

/// Whether all rows have the length of the first.
pub open spec fn rectangular(b: Seq<Text>) -> bool {
    b.len() > 0 && forall|i: int| 0 <= i < b.len() ==> #[trigger] b[i]@.len() == b[0]@.len()
}

/// Whether row `i` of `b` is kept by `Glyph::slice` when `top` rows are
/// cut from the top and `bot` from the bottom. (The row at `len - bot` is
/// kept.)
pub open spec fn row_kept(b: Seq<Text>, top: nat, bot: nat, i: int) -> bool {
    0 <= i < b.len() && top <= i <= b.len() - bot
}

/// Whether cutting `left` and `right` columns from every kept row stays
/// inside the row.
pub open spec fn slice_fits(b: Seq<Text>, top: nat, bot: nat, left: nat, right: nat) -> bool {
    &&& bot <= b.len()
    &&& forall|i: int|
        row_kept(b, top, bot, i) ==> right <= #[trigger] b[i]@.len() && left <= b[i]@.len() - right
}

/// One past the last row kept by a slice that cuts `bot` rows from the
/// bottom of `len` rows.
pub open spec fn kept_end(len: nat, bot: nat) -> int {
    if bot == 0 {
        len as int
    } else {
        len - bot + 1
    }
}

/// The first row kept by a slice that cuts `top` rows from the top.
pub open spec fn kept_start(len: nat, top: nat, bot: nat) -> int {
    if top < kept_end(len, bot) {
        top as int
    } else {
        kept_end(len, bot)
    }
}

/// The rows kept by a slice, each cut to its columns.
pub open spec fn sliced_rows(b: Seq<Text>, top: nat, bot: nat, left: nat, right: nat) -> Seq<
    Seq<Character>,
> {
    b.subrange(kept_start(b.len(), top, bot), kept_end(b.len(), bot)).map_values(
        |t: Text| t@.subrange(left as int, t@.len() - right),
    )
}

impl Glyph {
    pub fn small(c: Character) -> (r: Self)
        ensures
            r == Glyph::Small(c),
    {
        Self::Small(c)
    }

    /// A block glyph; the rows must all have one length.
    pub fn block(b: Vec<Text>) -> (r: Self)
        requires
            rectangular(b@),
        ensures
            r matches Glyph::Block(v) && v@ == b@,
    {
        Self::Block(b)
    }

    pub fn is_block(&self) -> (r: bool)
        ensures
            r == (self is Block),
    {
        match self {
            Self::Block(_) => true,
            _ => false,
        }
    }

    /// The whole block as a slice; `None` for a single character.
    pub fn as_slice(&self) -> (r: Option<GlyphSlice>)
        ensures
            self is Small ==> r is None,
            self matches Glyph::Block(b) ==> r matches Some(g) && g@ == block_rows(b@),
    {
        match self {
            Self::Small(_) => None,
            Self::Block(b) => {
                let mut v: Vec<TextSlice> = Vec::new();
                let mut i: usize = 0;
                while i < b.len()
                    invariant
                        0 <= i <= b@.len(),
                        v@.len() == i,
                        forall|j: int| 0 <= j < i ==> (#[trigger] v@[j])@ == b@[j]@,
                    decreases b@.len() - i,
                {
                    v.push(b[i].as_slice());
                    i += 1;
                }
                let g = GlyphSlice { data: v };
                assert(g@ =~= block_rows(b@));
                Some(g)
            },
        }
    }

    /// The block with `top` rows cut from the top, rows after
    /// `len - bot` cut from the bottom, and `left` and `right` columns cut
    /// from every row; `None` for a single character.
    pub fn slice(&self, top_offset: usize, bot_offset: usize, left_offset: usize, right_offset: usize) -> (r: Option<GlyphSlice>)
        requires
            self matches Glyph::Block(b) ==> slice_fits(b@, top_offset as nat, bot_offset as nat, left_offset as nat, right_offset as nat),
        ensures
            self is Small ==> r is None,
            self matches Glyph::Block(b) ==> r matches Some(g) && g@ == sliced_rows(
                b@,
                top_offset as nat,
                bot_offset as nat,
                left_offset as nat,
                right_offset as nat,
            ),
    {
        match self {
            Self::Small(_) => None,
            Self::Block(b) => {
                let ghost lo = kept_start(b@.len(), top_offset as nat, bot_offset as nat);
                let ghost hi = kept_end(b@.len(), bot_offset as nat);
                let mut v: Vec<TextSlice> = Vec::new();
                let mut i: usize = 0;
                let n = b.len();
                let last = n - bot_offset;
                while i < n
                    invariant_except_break
                        n == b@.len(),
                        last == n - bot_offset,
                        bot_offset <= n,
                        slice_fits(b@, top_offset as nat, bot_offset as nat, left_offset as nat, right_offset as nat),
                        0 <= i <= n,
                        lo == kept_start(n as nat, top_offset as nat, bot_offset as nat),
                        hi == kept_end(n as nat, bot_offset as nat),
                        i > top_offset ==> i <= hi,
                        v@.len() == if i <= lo { 0 } else if i <= hi { i - lo } else { hi - lo },
                        forall|j: int| 0 <= j < v@.len() ==> (#[trigger] v@[j])@ == b@[lo + j]@.subrange(
                            left_offset as int,
                            b@[lo + j]@.len() - right_offset,
                        ),
                    ensures
                        v@.len() == hi - lo,
                        forall|j: int| 0 <= j < v@.len() ==> (#[trigger] v@[j])@ == b@[lo + j]@.subrange(
                            left_offset as int,
                            b@[lo + j]@.len() - right_offset,
                        ),
                    decreases n - i,
                {
                    if i < top_offset {
                        i += 1;
                        continue;
                    } else if i > last {
                        break;
                    }
                    let l = &b[i];
                    assert(row_kept(b@, top_offset as nat, bot_offset as nat, i as int));
                    v.push(l.slice(left_offset, l.len() - right_offset));
                    i += 1;
                }
                let g = GlyphSlice { data: v };
                assert(g@ =~= sliced_rows(
                    b@,
                    top_offset as nat,
                    bot_offset as nat,
                    left_offset as nat,
                    right_offset as nat,
                ));
                Some(g)
            },
        }
    }

    /// The drawing of the glyph: the character, or the rows one below the
    /// other.
    pub fn render(&self) -> (r: String)
        requires
            self matches Glyph::Block(b) ==> b@.len() > 0,
        ensures
            self matches Glyph::Small(c) ==> r@ == char_render(*c),
            self matches Glyph::Block(b) ==> r@ == render_rows(block_rows(b@)),
    {
        match self {
            Self::Small(c) => c.render(),
            Self::Block(b) => {
                let g = self.as_slice();
                match g {
                    Some(g) => g.render(),
                    None => String::new(),
                }
            },
        }
    }
}

/// A block is drawn row by row, each row followed by a move one row down
/// and back by the width of the first row, except the last: one row is
/// drawn as it is, two rows as the first, the move, and the second.
pub proof fn law_rows_drawn_one_under_another(a: Seq<Character>, b: Seq<Character>)
    ensures
        render_rows(seq![a]) == render_text(a),
        render_rows(seq![a, b]) == render_text(a) + (seq!['\x1b', '[', '1', 'B', '\x1b', '['] + decimal(a.len())
            + seq!['D']) + render_text(b),
{
    let one = seq![a];
    assert(rows_prefix(one, a.len(), 0) == Seq::<char>::empty());
    assert(rows_prefix(one, a.len(), 1) =~= render_text(a));
    let two = seq![a, b];
    assert(rows_prefix(two, a.len(), 0) == Seq::<char>::empty());
    assert(rows_prefix(two, a.len(), 1) =~= render_text(a) + next_row(a.len()));
    assert(rows_prefix(two, a.len(), 2) =~= render_text(a) + next_row(a.len()) + render_text(b));
}

} // verus!
