use super::canvas::Canvas;
use super::character::Character;
use super::escape::{decimal, push_char, push_chars, push_decimal};
use super::glyph::block_rows;
use super::sprite::{move_by, moved, moved_ok};
use super::text::{longest, longest_len, render_text, spliced, Text, TextSlice};
use crate::clock::{duration_nanos, elapsed, now};
use crate::types::positions::Position3D;
use std::time::{Duration, Instant};
use crate::ui::border::{
    border_width, has_bottom, has_left, has_right, has_top, side_char, side_ok, Border,
    BorderSprite,
};
use crate::ui::style::{measure_len_capped, Align, Justify, Style};
use vstd::prelude::*;

verus! {

broadcast use {Character::lemma_make_parts, Character::lemma_parts_make};

// ---------------------------------------------------------------------
// The layout of a text box, stated over its lines, style and canvas.
// ---------------------------------------------------------------------

/// The columns a border adds: its drawn sides and its left and right
/// padding (nothing without a border).
pub open spec fn frame_cols(st: Style) -> int {
    match st.border {
        Some(b) => border_width(b),
        None => 0,
    }
}

/// The width of a box: the style's width, or the longest line plus the
/// border's columns.
pub open spec fn box_width(lines: Seq<Text>, st: Style, can: Canvas) -> int {
    match st.size.width {
        Some(m) => measure_len_capped(m, can.width as nat) as int,
        None => longest(lines) + frame_cols(st),
    }
}

/// The height of a box: the style's height, or else, as the box measures
/// it, the longest line plus the border's columns.
pub open spec fn box_height(lines: Seq<Text>, st: Style, can: Canvas) -> int {
    match st.size.height {
        Some(m) => measure_len_capped(m, can.height as nat) as int,
        None => longest(lines) + frame_cols(st),
    }
}

/// The box's width and height can be computed without overflow.
pub open spec fn size_fits(lines: Seq<Text>, st: Style) -> bool {
    (st.size.width is None || st.size.height is None) ==> longest(lines) + frame_cols(st)
        <= usize::MAX
}

/// The rows taken by everything but the alignment: the top and bottom
/// border rows (one each), the vertical padding, and the lines.
pub open spec fn rows_used(n: nat, st: Style) -> int {
    n + match st.border {
        Some(b) => (if has_top(b) { 1int } else { 0 }) + b.padding.top + b.padding.bottom + (if has_bottom(b) { 1int } else { 0 }),
        None => 0,
    }
}

/// Splits `total` spare cells before and after: all after, all before, or
/// halved with the odd cell before.
pub open spec fn split_spare(total: int, before_all: bool, after_all: bool) -> (int, int) {
    if after_all {
        (0, total)
    } else if before_all {
        (total, 0)
    } else {
        ((total + 1) / 2, total / 2)
    }
}

/// The blank rows above and below the lines.
pub open spec fn v_spare(lines: Seq<Text>, st: Style, can: Canvas) -> (int, int) {
    split_spare(
        box_height(lines, st, can) - rows_used(lines.len(), st),
        st.alignment.align == Align::Bottom,
        st.alignment.align == Align::Top,
    )
}

/// The room for text in a row: the width less the border's columns.
pub open spec fn text_room(lines: Seq<Text>, st: Style, can: Canvas) -> int {
    box_width(lines, st, can) - frame_cols(st)
}

/// The blank cells before and after line `i`.
pub open spec fn h_spare(lines: Seq<Text>, st: Style, can: Canvas, i: int) -> (int, int) {
    split_spare(
        text_room(lines, st, can) - lines[i]@.len(),
        st.alignment.justify == Justify::Right,
        st.alignment.justify == Justify::Left,
    )
}

/// The number of rows between the top and bottom border rows, where the
/// sides are drawn.
pub open spec fn side_rows(lines: Seq<Text>, st: Style, can: Canvas) -> int {
    box_height(lines, st, can) - match st.border {
        Some(b) => (if has_top(b) { 1int } else { 0 }) + (if has_bottom(b) { 1int } else { 0 }),
        None => 0,
    }
}

/// Everything the layout of a box needs: sizes that fit, a frame that
/// fits in the width, and room for every line and for the vertical
/// padding; and every border side that is drawn can be drawn.
pub open spec fn layout_ok(lines: Seq<Text>, st: Style, can: Canvas) -> bool {
    &&& size_fits(lines, st)
    &&& box_height(lines, st, can) >= rows_used(lines.len(), st)
    &&& text_room(lines, st, can) >= 0
    &&& forall|i: int| 0 <= i < lines.len() ==> (#[trigger] lines[i])@.len() <= text_room(lines, st, can)
    &&& st.border matches Some(b) ==> {
        &&& has_top(b) ==> box_width(lines, st, can) >= 2
        &&& has_top(b) && box_width(lines, st, can) > 2 ==> side_ok(b.top)
        &&& box_width(lines, st, can) > side_cols(b) ==> side_ok(b.bottom)
        &&& side_rows(lines, st, can) > 0 && has_left(b) ==> side_ok(b.left)
        &&& side_rows(lines, st, can) > 0 && has_right(b) ==> side_ok(b.right)
    }
}

/// The columns taken by a border's drawn left and right sides.
pub open spec fn side_cols(b: Border) -> int {
    (if has_left(b) { 1int } else { 0 }) + (if has_right(b) { 1int } else { 0 })
}

// ---------------------------------------------------------------------
// The rows of a drawn box.
// ---------------------------------------------------------------------

/// A cell with symbol `o` (a blank for none) in the style's colors.
pub open spec fn cell(o: Option<char>, st: Style) -> Character {
    Character::make(
        match o {
            Some(c) => c,
            None => ' ',
        },
        st.color.foreground,
        st.color.background,
    )
}

/// `n` blank cells in the style's colors.
pub open spec fn blank(n: int, st: Style) -> Seq<Character> {
    Seq::new(n as nat, |_i: int| cell(None, st))
}

/// The left side's cell on side row `k`, if the left side is drawn.
pub open spec fn left_part(b: Border, k: int, st: Style) -> Seq<Character> {
    if has_left(b) {
        seq![cell(side_char(b.left, k as nat), st)]
    } else {
        Seq::empty()
    }
}

/// The right side's cell on side row `k`, if the right side is drawn.
pub open spec fn right_part(b: Border, k: int, st: Style) -> Seq<Character> {
    if has_right(b) {
        seq![cell(side_char(b.right, k as nat), st)]
    } else {
        Seq::empty()
    }
}

/// The top border row of a box `w` wide.
pub open spec fn top_row(b: Border, w: int, st: Style) -> Seq<Character> {
    (if has_left(b) { seq![cell(b.top_left_corner, st)] } else { Seq::empty() }) + (if has_top(b) {
        Seq::new((w - 2) as nat, |c: int| cell(side_char(b.top, c as nat), st))
    } else {
        Seq::empty()
    }) + (if has_right(b) { seq![cell(b.top_right_corner, st)] } else { Seq::empty() })
}

/// The bottom border row, `inner` cells between the corners.
pub open spec fn bottom_row(b: Border, inner: int, st: Style) -> Seq<Character> {
    (if has_left(b) { seq![cell(b.bottom_left_corner, st)] } else { Seq::empty() }) + Seq::new(
        inner as nat,
        |c: int| cell(side_char(b.bottom, c as nat), st),
    ) + (if has_right(b) { seq![cell(b.bottom_right_corner, st)] } else { Seq::empty() })
}

/// A padding row: the sides on side row `k`, blanks between.
pub open spec fn pad_row(b: Border, inner: int, k: int, st: Style) -> Seq<Character> {
    left_part(b, k, st) + blank(inner, st) + right_part(b, k, st)
}

/// Line `i` as drawn on side row `k` inside a border.
pub open spec fn framed_line(
    lines: Seq<Text>,
    st: Style,
    can: Canvas,
    b: Border,
    i: int,
    k: int,
) -> Seq<Character> {
    left_part(b, k, st) + blank(b.padding.left as int, st) + blank(h_spare(lines, st, can, i).0, st)
        + lines[i]@ + blank(h_spare(lines, st, can, i).1, st) + blank(b.padding.right as int, st)
        + right_part(b, k, st)
}

/// Line `i` as drawn without a border.
pub open spec fn plain_line(lines: Seq<Text>, st: Style, can: Canvas, i: int) -> Seq<Character> {
    blank(h_spare(lines, st, can, i).0, st) + lines[i]@ + blank(h_spare(lines, st, can, i).1, st)
}

/// The rows of a box with border `b`: the top border, the top padding
/// and spare rows, the lines, the spare rows and padding below, and the
/// bottom border. The side rows are counted from the first row under the
/// top border.
pub open spec fn framed_rows(lines: Seq<Text>, st: Style, can: Canvas, b: Border) -> Seq<
    Seq<Character>,
> {
    let w = box_width(lines, st, can);
    let inner = w - side_cols(b);
    let n = lines.len() as int;
    let above = b.padding.top + v_spare(lines, st, can).0;
    let below = v_spare(lines, st, can).1;
    seq![top_row(b, w, st)] + Seq::new(above as nat, |k: int| pad_row(b, inner, k, st)) + Seq::new(
        n as nat,
        |i: int| framed_line(lines, st, can, b, i, above + i),
    ) + Seq::new(below as nat, |k: int| pad_row(b, inner, above + n + k, st)) + Seq::new(
        b.padding.bottom as nat,
        |k: int| pad_row(b, inner, above + n + below + k, st),
    ) + seq![bottom_row(b, inner, st)]
}

/// The rows of a box without a border: blank rows above, the lines, blank
/// rows below.
pub open spec fn plain_rows(lines: Seq<Text>, st: Style, can: Canvas) -> Seq<Seq<Character>> {
    let w = box_width(lines, st, can);
    Seq::new(v_spare(lines, st, can).0 as nat, |k: int| blank(w, st)) + Seq::new(
        lines.len(),
        |i: int| plain_line(lines, st, can, i),
    ) + Seq::new(v_spare(lines, st, can).1 as nat, |k: int| blank(w, st))
}

/// The rows of a drawn box.
pub open spec fn box_rows(lines: Seq<Text>, st: Style, can: Canvas) -> Seq<Seq<Character>> {
    match st.border {
        Some(b) => framed_rows(lines, st, can, b),
        None => plain_rows(lines, st, can),
    }
}

// ---------------------------------------------------------------------
// Row builders.
// ---------------------------------------------------------------------

fn cell_of(o: Option<char>, st: &Style) -> (r: Character)
    ensures
        r == cell(o, *st),
{
    Character::new(
        match o {
            Some(c) => c,
            None => ' ',
        },
        st.color.foreground,
        st.color.background,
    )
}

/// Appends `n` blanks.
fn push_blank(text: &mut Text, n: usize, st: &Style)
    ensures
        final(text)@ == old(text)@ + blank(n as int, *st),
{
    let mut i: usize = 0;
    while i < n
        invariant
            0 <= i <= n,
            text@ == old(text)@ + blank(i as int, *st),
        decreases n - i,
    {
        text.push(cell_of(None, st));
        assert(text@ =~= old(text)@ + blank(i + 1, *st));
        i += 1;
    }
}

fn left_cell(text: &mut Text, b: &Border, k: usize, st: &Style)
    requires
        has_left(*b) ==> side_ok(b.left),
    ensures
        final(text)@ == old(text)@ + left_part(*b, k as int, *st),
{
    if b.has_left_border() {
        text.push(cell_of(b.l(k), st));
    }
    assert(text@ =~= old(text)@ + left_part(*b, k as int, *st));
}

fn right_cell(text: &mut Text, b: &Border, k: usize, st: &Style)
    requires
        has_right(*b) ==> side_ok(b.right),
    ensures
        final(text)@ == old(text)@ + right_part(*b, k as int, *st),
{
    if b.has_right_border() {
        text.push(cell_of(b.r(k), st));
    }
    assert(text@ =~= old(text)@ + right_part(*b, k as int, *st));
}

fn make_top_row(b: &Border, w: usize, st: &Style) -> (r: Text)
    requires
        has_top(*b) ==> w >= 2,
        has_top(*b) && w > 2 ==> side_ok(b.top),
    ensures
        r@ == top_row(*b, w as int, *st),
{
    let mut text = Text::new();
    if b.has_left_border() {
        text.push(cell_of(b.top_l(), st));
    }
    let ghost first = text@;
    if b.has_top_border() {
        let mut col: usize = 0;
        while col < w - 2
            invariant
                has_top(*b),
                w >= 2,
                w > 2 ==> side_ok(b.top),
                0 <= col <= w - 2,
                text@ == first + Seq::new(col as nat, |c: int| cell(side_char(b.top, c as nat), *st)),
            decreases w - 2 - col,
        {
            text.push(cell_of(b.top(col), st));
            assert(text@ =~= first + Seq::new((col + 1) as nat, |c: int| cell(side_char(b.top, c as nat), *st)));
            col += 1;
        }
    }
    let ghost second = text@;
    if b.has_right_border() {
        text.push(cell_of(b.top_r(), st));
    }
    assert(text@ =~= top_row(*b, w as int, *st));
    text
}

fn make_bottom_row(b: &Border, inner: usize, st: &Style) -> (r: Text)
    requires
        inner > 0 ==> side_ok(b.bottom),
    ensures
        r@ == bottom_row(*b, inner as int, *st),
{
    let mut text = Text::new();
    if b.has_left_border() {
        text.push(cell_of(b.bot_l(), st));
    }
    let ghost first = text@;
    let mut i: usize = 0;
    while i < inner
        invariant
            inner > 0 ==> side_ok(b.bottom),
            0 <= i <= inner,
            text@ == first + Seq::new(i as nat, |c: int| cell(side_char(b.bottom, c as nat), *st)),
        decreases inner - i,
    {
        text.push(cell_of(b.bot(i), st));
        assert(text@ =~= first + Seq::new((i + 1) as nat, |c: int| cell(side_char(b.bottom, c as nat), *st)));
        i += 1;
    }
    if b.has_right_border() {
        text.push(cell_of(b.bot_r(), st));
    }
    assert(text@ =~= bottom_row(*b, inner as int, *st));
    text
}

fn make_pad_row(b: &Border, inner: usize, k: usize, st: &Style) -> (r: Text)
    requires
        has_left(*b) ==> side_ok(b.left),
        has_right(*b) ==> side_ok(b.right),
    ensures
        r@ == pad_row(*b, inner as int, k as int, *st),
{
    let mut text = Text::new();
    left_cell(&mut text, b, k, st);
    push_blank(&mut text, inner, st);
    right_cell(&mut text, b, k, st);
    assert(text@ =~= pad_row(*b, inner as int, k as int, *st));
    text
}

// ---------------------------------------------------------------------
// Measures of a box.
// ---------------------------------------------------------------------

/// `box_width`.
fn width_of(lines: &Vec<Text>, st: &Style, can: &Canvas) -> (r: usize)
    requires
        st.size.width is None ==> longest(lines@) + frame_cols(*st) <= usize::MAX,
    ensures
        r == box_width(lines@, *st, *can),
{
    if let Some(measure) = st.width() {
        measure.get(can.width)
    } else {
        let w = longest_len(lines);
        if let Some(b) = st.border.as_ref() {
            w + b.width()
        } else {
            w
        }
    }
}

/// `box_height`.
fn height_of(lines: &Vec<Text>, st: &Style, can: &Canvas) -> (r: usize)
    requires
        st.size.height is None ==> longest(lines@) + frame_cols(*st) <= usize::MAX,
    ensures
        r == box_height(lines@, *st, *can),
{
    if let Some(measure) = st.height() {
        measure.get(can.height)
    } else {
        let h = longest_len(lines);
        if let Some(b) = st.border.as_ref() {
            h + b.width()
        } else {
            h
        }
    }
}

/// Splits `total` as `split_spare` does.
fn split(total: usize, before_all: bool, after_all: bool) -> (r: (usize, usize))
    ensures
        r.0 == split_spare(total as int, before_all, after_all).0,
        r.1 == split_spare(total as int, before_all, after_all).1,
{
    if after_all {
        (0, total)
    } else if before_all {
        (total, 0)
    } else if total % 2 == 0 {
        (total / 2, total / 2)
    } else {
        ((total / 2) + 1, total / 2)
    }
}

/// `v_spare`.
fn v_alignments_of(lines: &Vec<Text>, st: &Style, can: &Canvas) -> (r: (usize, usize))
    requires
        size_fits(lines@, *st),
        box_height(lines@, *st, *can) >= rows_used(lines@.len(), *st),
    ensures
        r.0 == v_spare(lines@, *st, *can).0,
        r.1 == v_spare(lines@, *st, *can).1,
{
    let mut total = height_of(lines, st, can);
    if let Some(b) = st.border.as_ref() {
        if b.has_top_border() {
            total -= 1;
        }
        total -= b.top_pad() + b.bot_pad();
        if b.has_bot_border() {
            total -= 1;
        }
    }
    total -= lines.len();
    let before_all = match st.alignment.align {
        Align::Bottom => true,
        _ => false,
    };
    let after_all = match st.alignment.align {
        Align::Top => true,
        _ => false,
    };
    split(total, before_all, after_all)
}

/// `text_room`.
fn max_text_len_of(lines: &Vec<Text>, st: &Style, can: &Canvas) -> (r: usize)
    requires
        size_fits(lines@, *st),
        text_room(lines@, *st, *can) >= 0,
    ensures
        r == text_room(lines@, *st, *can),
{
    let mut max = width_of(lines, st, can);
    if let Some(b) = st.border.as_ref() {
        if b.has_left_border() {
            max -= 1;
        }
        max -= b.l_pad() + b.r_pad();
        if b.has_right_border() {
            max -= 1;
        }
    }
    max
}

/// `h_spare` for line `row`.
fn h_alignments_of(lines: &Vec<Text>, st: &Style, can: &Canvas, row: usize) -> (r: (usize, usize))
    requires
        size_fits(lines@, *st),
        row < lines@.len(),
        lines@[row as int]@.len() <= text_room(lines@, *st, *can),
    ensures
        r.0 == h_spare(lines@, *st, *can, row as int).0,
        r.1 == h_spare(lines@, *st, *can, row as int).1,
{
    let mut total = width_of(lines, st, can);
    if let Some(b) = st.border.as_ref() {
        if b.has_left_border() {
            total -= 1;
        }
        total -= b.l_pad() + b.r_pad();
        if b.has_right_border() {
            total -= 1;
        }
    }
    total -= lines[row].len();
    let before_all = match st.justify() {
        Justify::Right => true,
        _ => false,
    };
    let after_all = match st.justify() {
        Justify::Left => true,
        _ => false,
    };
    split(total, before_all, after_all)
}

// ---------------------------------------------------------------------
// Drawing a box.
// ---------------------------------------------------------------------

fn make_framed_line(lines: &Vec<Text>, st: &Style, can: &Canvas, b: &Border, i: usize, k: usize) -> (r: Text)
    requires
        st.border == Some(*b),
        layout_ok(lines@, *st, *can),
        i < lines@.len(),
        has_left(*b) ==> side_ok(b.left),
        has_right(*b) ==> side_ok(b.right),
    ensures
        r@ == framed_line(lines@, *st, *can, *b, i as int, k as int),
{
    let (l_align, r_align) = h_alignments_of(lines, st, can, i);
    let max_str_len = max_text_len_of(lines, st, can);
    let mut text = Text::new();
    left_cell(&mut text, b, k, st);
    push_blank(&mut text, b.l_pad(), st);
    push_blank(&mut text, l_align, st);
    assert(lines@[i as int]@.len() <= max_str_len);
    text.push_textslice(&lines[i].slice(0, max_str_len));
    assert(lines@[i as int]@.subrange(0, lines@[i as int]@.len() as int) =~= lines@[i as int]@);
    push_blank(&mut text, r_align, st);
    push_blank(&mut text, b.r_pad(), st);
    right_cell(&mut text, b, k, st);
    assert(text@ =~= framed_line(lines@, *st, *can, *b, i as int, k as int));
    text
}

fn make_plain_line(lines: &Vec<Text>, st: &Style, can: &Canvas, i: usize) -> (r: Text)
    requires
        st.border is None,
        layout_ok(lines@, *st, *can),
        i < lines@.len(),
    ensures
        r@ == plain_line(lines@, *st, *can, i as int),
{
    let (l_align, r_align) = h_alignments_of(lines, st, can, i);
    let max_str_len = max_text_len_of(lines, st, can);
    let mut text = Text::new();
    push_blank(&mut text, l_align, st);
    text.push_textslice(&lines[i].slice(0, max_str_len));
    assert(lines@[i as int]@.subrange(0, lines@[i as int]@.len() as int) =~= lines@[i as int]@);
    push_blank(&mut text, r_align, st);
    assert(text@ =~= plain_line(lines@, *st, *can, i as int));
    text
}

fn make_blank_row(w: usize, st: &Style) -> (r: Text)
    ensures
        r@ == blank(w as int, *st),
{
    let mut text = Text::new();
    push_blank(&mut text, w, st);
    assert(text@ =~= blank(w as int, *st));
    text
}

/// Pushing a row adds its characters as the last row.
proof fn lemma_block_rows_push(v: Seq<Text>, t: Text)
    ensures
        block_rows(v.push(t)) == block_rows(v).push(t@),
{
    assert(block_rows(v.push(t)) =~= block_rows(v).push(t@));
}

/// Appends `count` padding rows, the first on side row `first`.
fn push_pad_rows(cache: &mut Vec<Text>, b: &Border, inner: usize, first: usize, count: usize, st: &Style)
    requires
        count > 0 ==> (has_left(*b) ==> side_ok(b.left)) && (has_right(*b) ==> side_ok(b.right)),
        first + count <= usize::MAX,
    ensures
        block_rows(final(cache)@) == block_rows(old(cache)@) + Seq::new(
            count as nat,
            |k: int| pad_row(*b, inner as int, first + k, *st),
        ),
{
    let ghost start = block_rows(cache@);
    let mut k: usize = 0;
    while k < count
        invariant
            count > 0 ==> (has_left(*b) ==> side_ok(b.left)) && (has_right(*b) ==> side_ok(b.right)),
            first + count <= usize::MAX,
            0 <= k <= count,
            block_rows(cache@) == start + Seq::new(k as nat, |j: int| pad_row(*b, inner as int, first + j, *st)),
        decreases count - k,
    {
        let row = make_pad_row(b, inner, first + k, st);
        proof {
            lemma_block_rows_push(cache@, row);
        }
        cache.push(row);
        assert(block_rows(cache@) =~= start + Seq::new((k + 1) as nat, |j: int| pad_row(*b, inner as int, first + j, *st)));
        k += 1;
    }
}

/// Appends `count` blank rows `w` wide.
fn push_blank_rows(cache: &mut Vec<Text>, w: usize, count: usize, st: &Style)
    ensures
        block_rows(final(cache)@) == block_rows(old(cache)@) + Seq::new(count as nat, |k: int| blank(w as int, *st)),
{
    let ghost start = block_rows(cache@);
    let mut k: usize = 0;
    while k < count
        invariant
            0 <= k <= count,
            block_rows(cache@) == start + Seq::new(k as nat, |j: int| blank(w as int, *st)),
        decreases count - k,
    {
        let row = make_blank_row(w, st);
        proof {
            lemma_block_rows_push(cache@, row);
        }
        cache.push(row);
        assert(block_rows(cache@) =~= start + Seq::new((k + 1) as nat, |j: int| blank(w as int, *st)));
        k += 1;
    }
}

/// The rows of a box with border `b`.
#[verifier::rlimit(60)]
fn build_framed(lines: &Vec<Text>, st: &Style, can: &Canvas, b: &Border) -> (r: Vec<Text>)
    requires
        st.border == Some(*b),
        layout_ok(lines@, *st, *can),
    ensures
        block_rows(r@) == framed_rows(lines@, *st, *can, *b),
{
    let ghost ls = lines@;
    let (t_align, b_align) = v_alignments_of(lines, st, can);
    let w = width_of(lines, st, can);
    let sides: usize = (if b.has_left_border() { 1 } else { 0 }) + (if b.has_right_border() { 1 } else { 0 });
    let inner = w - sides;
    let n = lines.len();
    let above = b.top_pad() + t_align;
    let ghost count = above + n + b_align + b.padding.bottom;
    assert(count == side_rows(ls, *st, *can));
    let mut cache: Vec<Text> = Vec::new();
    let top = make_top_row(b, w, st);
    proof {
        lemma_block_rows_push(cache@, top);
    }
    cache.push(top);
    let ghost after_top = block_rows(cache@);
    assert(after_top =~= seq![top_row(*b, w as int, *st)]);
    push_pad_rows(&mut cache, b, inner, 0, above, st);
    let ghost after_above = block_rows(cache@);
    let mut i: usize = 0;
    while i < n
        invariant
            n == ls.len(),
            lines@ == ls,
            st.border == Some(*b),
            layout_ok(ls, *st, *can),
            count == side_rows(ls, *st, *can),
            count == above + n + b_align + b.padding.bottom,
            0 <= i <= n,
            block_rows(cache@) == after_above + Seq::new(i as nat, |j: int| framed_line(ls, *st, *can, *b, j, above + j)),
        decreases n - i,
    {
        let row = make_framed_line(lines, st, can, b, i, above + i);
        proof {
            lemma_block_rows_push(cache@, row);
        }
        cache.push(row);
        assert(block_rows(cache@) =~= after_above + Seq::new((i + 1) as nat, |j: int| framed_line(ls, *st, *can, *b, j, above + j)));
        i += 1;
    }
    let ghost after_lines = block_rows(cache@);
    push_pad_rows(&mut cache, b, inner, above + n, b_align, st);
    let ghost after_below = block_rows(cache@);
    push_pad_rows(&mut cache, b, inner, above + n + b_align, b.bot_pad(), st);
    let ghost after_pad = block_rows(cache@);
    let bottom = make_bottom_row(b, inner, st);
    proof {
        lemma_block_rows_push(cache@, bottom);
    }
    cache.push(bottom);
    assert(block_rows(cache@) =~= after_pad + seq![bottom_row(*b, inner as int, *st)]);
    assert(block_rows(cache@) =~= framed_rows(ls, *st, *can, *b));
    cache
}

/// The rows of a box without a border.
fn build_plain(lines: &Vec<Text>, st: &Style, can: &Canvas) -> (r: Vec<Text>)
    requires
        st.border is None,
        layout_ok(lines@, *st, *can),
    ensures
        block_rows(r@) == plain_rows(lines@, *st, *can),
{
    let ghost ls = lines@;
    let (t_align, b_align) = v_alignments_of(lines, st, can);
    let w = width_of(lines, st, can);
    let mut cache: Vec<Text> = Vec::new();
    push_blank_rows(&mut cache, w, t_align, st);
    let ghost after_above = block_rows(cache@);
    let n = lines.len();
    let mut i: usize = 0;
    while i < n
        invariant
            n == ls.len(),
            lines@ == ls,
            st.border is None,
            layout_ok(ls, *st, *can),
            0 <= i <= n,
            block_rows(cache@) == after_above + Seq::new(i as nat, |j: int| plain_line(ls, *st, *can, j)),
        decreases n - i,
    {
        let row = make_plain_line(lines, st, can, i);
        proof {
            lemma_block_rows_push(cache@, row);
        }
        cache.push(row);
        assert(block_rows(cache@) =~= after_above + Seq::new((i + 1) as nat, |j: int| plain_line(ls, *st, *can, j)));
        i += 1;
    }
    push_blank_rows(&mut cache, w, b_align, st);
    assert(block_rows(cache@) =~= plain_rows(ls, *st, *can));
    cache
}

// ---------------------------------------------------------------------
// Text boxes.
// ---------------------------------------------------------------------

/// Rows borrowed from a drawn box.
#[derive(Debug, Clone)]
pub struct TextboxSlice<'a> {
    pub lines: Vec<TextSlice<'a>>,
}

impl<'a> View for TextboxSlice<'a> {
    type V = Seq<Seq<Character>>;

    open spec fn view(&self) -> Seq<Seq<Character>> {
        self.lines@.map_values(|l: TextSlice<'a>| l@)
    }
}

/// The escape sequence that moves the cursor one row down and `w`
/// columns back.
pub open spec fn down_and_back(w: nat) -> Seq<char> {
    seq!['\x1b', '[', '1', 'B', '\x1b', '['] + decimal(w) + seq!['D']
}

/// The drawing of the first `n` of `rows`: each row, and after every row
/// but the last a move to the start of the next.
pub open spec fn stacked_prefix(rows: Seq<Seq<Character>>, n: nat) -> Seq<char>
    decreases n,
{
    if n == 0 {
        Seq::empty()
    } else {
        let i = n - 1;
        stacked_prefix(rows, i as nat) + render_text(rows[i]) + if i < rows.len() - 1 {
            down_and_back(rows[i].len())
        } else {
            Seq::empty()
        }
    }
}

fn push_down_and_back(s: &mut String, w: usize)
    ensures
        final(s)@ == old(s)@ + down_and_back(w as nat),
{
    push_char(s, '\x1b');
    push_char(s, '[');
    push_char(s, '1');
    push_char(s, 'B');
    push_char(s, '\x1b');
    push_char(s, '[');
    push_decimal(s, w as u64);
    push_char(s, 'D');
    assert(s@ =~= old(s)@ + down_and_back(w as nat));
}

impl<'a> TextboxSlice<'a> {
    /// The drawing of the rows, each starting under the start of the one
    /// above.
    pub fn render(&self) -> (r: String)
        ensures
            r@ == stacked_prefix(self@, self@.len()),
    {
        let mut s = String::new();
        let n = self.lines.len();
        let mut i: usize = 0;
        while i < n
            invariant
                n == self@.len(),
                0 <= i <= n,
                s@ == stacked_prefix(self@, i as nat),
            decreases n - i,
        {
            let l = &self.lines[i];
            let drawn = l.render();
            let v = super::character::string_chars(&drawn);
            push_chars(&mut s, &v);
            if i < n - 1 {
                push_down_and_back(&mut s, l.len());
            }
            assert(s@ =~= stacked_prefix(self@, (i + 1) as nat));
            i += 1;
        }
        s
    }
}

/// The lines of a box, its style, and its drawn rows.
#[derive(Debug)]
pub struct Base {
    lines: Vec<Text>,
    style: Style,
    cache: Vec<Text>,
}

impl Base {
    pub closed spec fn text_lines(&self) -> Seq<Text> {
        self.lines@
    }

    pub closed spec fn box_style(&self) -> Style {
        self.style
    }

    /// The drawn rows.
    pub closed spec fn rows(&self) -> Seq<Seq<Character>> {
        block_rows(self.cache@)
    }

    /// A box of `lines` in `style`, drawn for `can`.
    pub fn new(lines: Vec<Text>, style: Style, can: &Canvas) -> (r: Self)
        requires
            layout_ok(lines@, style, *can),
        ensures
            r.text_lines() == lines@,
            r.box_style() == style,
            r.rows() == box_rows(lines@, style, *can),
    {
        let cache = draw(&lines, &style, can);
        Self { lines, style, cache }
    }

    pub fn width(&self, can: &Canvas) -> (r: usize)
        requires
            self.box_style().size.width is None ==> longest(self.text_lines()) + frame_cols(self.box_style()) <= usize::MAX,
        ensures
            r == box_width(self.text_lines(), self.box_style(), *can),
    {
        width_of(&self.lines, &self.style, can)
    }

    /// The height as the box measures it: the style's height, or else the
    /// longest line plus the border's columns.
    pub fn height(&self, can: &Canvas) -> (r: usize)
        requires
            self.box_style().size.height is None ==> longest(self.text_lines()) + frame_cols(self.box_style()) <= usize::MAX,
        ensures
            r == box_height(self.text_lines(), self.box_style(), *can),
    {
        height_of(&self.lines, &self.style, can)
    }

    /// The drawn rows `t` to `b` (both kept), with `l` columns cut from
    /// the left and `r` from the right of each.
    pub fn slice(&self, t: usize, b: usize, l: usize, r: usize) -> (out: TextboxSlice)
        requires
            forall|i: int| t <= i <= b && 0 <= i < self.rows().len() ==> r <= (#[trigger] self.rows()[i]).len() && l <= self.rows()[i].len() - r,
        ensures
            out@ == rows_cut(self.rows(), t as int, b + 1, l as int, r as int),
    {
        let mut slice: Vec<TextSlice> = Vec::new();
        let cache = &self.cache;
        let ghost rows = self.rows();
        let n = cache.len();
        let mut i: usize = 0;
        while i < n
            invariant_except_break
                n == rows.len(),
                rows == block_rows(cache@),
                forall|i: int| t <= i <= b && 0 <= i < rows.len() ==> r <= (#[trigger] rows[i]).len() && l <= rows[i].len() - r,
                0 <= i <= n,
                i > t ==> i <= b + 1,
                slice@.len() == rows_cut(rows, t as int, if i < b + 1 { i as int } else { b + 1 }, l as int, r as int).len(),
                forall|j: int| 0 <= j < slice@.len() ==> (#[trigger] slice@[j])@ == rows_cut(rows, t as int, if i < b + 1 { i as int } else { b + 1 }, l as int, r as int)[j],
            ensures
                slice@.len() == rows_cut(rows, t as int, b + 1, l as int, r as int).len(),
                forall|j: int| 0 <= j < slice@.len() ==> (#[trigger] slice@[j])@ == rows_cut(rows, t as int, b + 1, l as int, r as int)[j],
            decreases n - i,
        {
            if i < t {
                i += 1;
                continue;
            } else if i > b {
                break;
            }
            let line = &cache[i];
            assert(rows[i as int] == line@);
            let part = line.slice(l, line.len() - r);
            slice.push(part);
            i += 1;
        }
        let out = TextboxSlice { lines: slice };
        assert(out@ =~= rows_cut(self.rows(), t as int, b + 1, l as int, r as int));
        out
    }

    /// Draws the rows again for `can`.
    pub fn build_cache(&mut self, can: &Canvas)
        requires
            layout_ok(old(self).text_lines(), old(self).box_style(), *can),
        ensures
            final(self).text_lines() == old(self).text_lines(),
            final(self).box_style() == old(self).box_style(),
            final(self).rows() == box_rows(old(self).text_lines(), old(self).box_style(), *can),
    {
        let cache = draw(&self.lines, &self.style, can);
        self.cache = cache;
    }

    /// The blank rows above and below the lines.
    pub fn v_alignments(&self, can: &Canvas) -> (r: (usize, usize))
        requires
            size_fits(self.text_lines(), self.box_style()),
            box_height(self.text_lines(), self.box_style(), *can) >= rows_used(self.text_lines().len(), self.box_style()),
        ensures
            r.0 == v_spare(self.text_lines(), self.box_style(), *can).0,
            r.1 == v_spare(self.text_lines(), self.box_style(), *can).1,
    {
        v_alignments_of(&self.lines, &self.style, can)
    }

    /// The blank cells before and after line `row`.
    pub fn h_alignments(&self, row: usize, can: &Canvas) -> (r: (usize, usize))
        requires
            size_fits(self.text_lines(), self.box_style()),
            row < self.text_lines().len(),
            self.text_lines()[row as int]@.len() <= text_room(self.text_lines(), self.box_style(), *can),
        ensures
            r.0 == h_spare(self.text_lines(), self.box_style(), *can, row as int).0,
            r.1 == h_spare(self.text_lines(), self.box_style(), *can, row as int).1,
    {
        h_alignments_of(&self.lines, &self.style, can, row)
    }

    /// The room for text in a row.
    pub fn max_text_len(&self, can: &Canvas) -> (r: usize)
        requires
            size_fits(self.text_lines(), self.box_style()),
            text_room(self.text_lines(), self.box_style(), *can) >= 0,
        ensures
            r == text_room(self.text_lines(), self.box_style(), *can),
    {
        max_text_len_of(&self.lines, &self.style, can)
    }
}

/// Rows `from` up to (not including) `to` of `rows`, clipped to the rows
/// there are, each with `l` columns cut from the left and `r` from the
/// right.
pub open spec fn rows_cut(rows: Seq<Seq<Character>>, from: int, to: int, l: int, r: int) -> Seq<Seq<Character>> {
    let hi = if to < rows.len() { to } else { rows.len() as int };
    let lo = if from < hi { from } else { hi };
    rows.subrange(lo, hi).map_values(|row: Seq<Character>| row.subrange(l, row.len() - r))
}

/// The rows of a box.
fn draw(lines: &Vec<Text>, st: &Style, can: &Canvas) -> (r: Vec<Text>)
    requires
        layout_ok(lines@, *st, *can),
    ensures
        block_rows(r@) == box_rows(lines@, *st, *can),
{
    match st.border.as_ref() {
        Some(b) => build_framed(lines, st, can, b),
        None => build_plain(lines, st, can),
    }
}

impl Base {
    /// Inserts `chars` into line `row` from column `col`, adding an empty
    /// line first when `row` is one past the last. The drawn rows are left
    /// as they were.
    fn insert_chars(&mut self, row: usize, col: usize, chars: &[Character])
        requires
            row <= old(self).text_lines().len(),
            chars@.len() > 0 ==> col <= line_or_empty(old(self).text_lines(), row as int).len(),
            line_or_empty(old(self).text_lines(), row as int).len() + chars@.len() <= usize::MAX,
        ensures
            final(self).text_lines().len() == if row == old(self).text_lines().len() { row + 1 } else { old(self).text_lines().len() as int },
            forall|i: int| 0 <= i < final(self).text_lines().len() && i != row ==> (#[trigger] final(self).text_lines()[i]) == old(self).text_lines()[i],
            final(self).text_lines()[row as int]@ == spliced(line_or_empty(old(self).text_lines(), row as int), col as int, chars@),
            final(self).box_style() == old(self).box_style(),
            final(self).rows() == old(self).rows(),
    {
        if row == self.lines.len() {
            self.lines.push(Text::new());
        }
        let ghost start = self.lines@[row as int]@;
        if chars.len() > 0 {
            assert(start.take(col as int) + chars@.take(0) + start.skip(col as int) =~= start);
        }
        let mut i: usize = 0;
        while i < chars.len()
            invariant
                row < self.lines@.len(),
                self.lines@.len() == if row == old(self).lines@.len() { row + 1 } else { old(self).lines@.len() as int },
                forall|k: int| 0 <= k < self.lines@.len() && k != row ==> (#[trigger] self.lines@[k]) == old(self).lines@[k],
                start == line_or_empty(old(self).lines@, row as int),
                chars@.len() > 0 ==> col <= start.len(),
                start.len() + chars@.len() <= usize::MAX,
                0 <= i <= chars@.len(),
                chars@.len() > 0 ==> self.lines@[row as int]@ == start.take(col as int) + chars@.take(i as int) + start.skip(col as int),
                chars@.len() == 0 ==> self.lines@[row as int]@ == start,
                self.style == old(self).style,
                self.cache == old(self).cache,
            decreases chars@.len() - i,
        {
            let mut line = self.lines.remove(row);
            line.insert(col + i, chars[i]);
            self.lines.insert(row, line);
            assert(chars@.take(i + 1) =~= chars@.take(i as int).push(chars@[i as int]));
            assert(self.lines@[row as int]@ =~= start.take(col as int) + chars@.take(i + 1) + start.skip(col as int));
            assert forall|k: int| 0 <= k < self.lines@.len() && k != row implies (#[trigger] self.lines@[k]) == old(self).lines@[k] by {}
            i += 1;
        }
        assert(chars@.take(chars@.len() as int) =~= chars@);
        assert(self.lines@[row as int]@ =~= spliced(start, col as int, chars@));
    }

    /// Adds `text` as the last line and draws the rows again for `can`.
    fn push_line(&mut self, text: Text, can: &Canvas)
        requires
            layout_ok(old(self).text_lines().push(text), old(self).box_style(), *can),
        ensures
            final(self).text_lines() == old(self).text_lines().push(text),
            final(self).box_style() == old(self).box_style(),
            final(self).rows() == box_rows(old(self).text_lines().push(text), old(self).box_style(), *can),
    {
        self.lines.push(text);
        self.build_cache(can);
    }
}

/// Line `row` of `lines`, or an empty line when `row` is one past the last.
pub open spec fn line_or_empty(lines: Seq<Text>, row: int) -> Seq<Character> {
    if row < lines.len() {
        lines[row]@
    } else {
        Seq::empty()
    }
}

/// A text box that always shows the same lines.
#[derive(Debug)]
pub struct Static {
    pub pos: Position3D<i32>,
    pub base: Base,
}

/// A text box that steps through frames, one step per `tick_rate`.
#[derive(Debug)]
pub struct Dynamic {
    pub pos: Position3D<i32>,
    pub frames: Vec<Base>,
    pub cursor: usize,
    pub tick_rate: Duration,
    pub last_tick: Option<Instant>,
}

/// Lines of text placed in the world, still or animated.
#[derive(Debug)]
pub enum Textbox {
    Static(Static),
    Dynamic(Dynamic),
}

/// An animated box shows one of its frames.
pub open spec fn textbox_wf(t: Textbox) -> bool {
    t matches Textbox::Dynamic(d) ==> d.cursor < d.frames@.len()
}

/// The frame a box shows now.
pub open spec fn current_base(t: Textbox) -> Base {
    match t {
        Textbox::Static(s) => s.base,
        Textbox::Dynamic(d) => d.frames@[d.cursor as int],
    }
}

pub open spec fn textbox_pos(t: Textbox) -> Position3D<i32> {
    match t {
        Textbox::Static(s) => s.pos,
        Textbox::Dynamic(d) => d.pos,
    }
}

/// The width and height of the current frame can be computed.
pub open spec fn textbox_size_fits(t: Textbox) -> bool {
    size_fits(current_base(t).text_lines(), current_base(t).box_style())
}

/// The width and height of every frame can be computed.
pub open spec fn textbox_sizes_fit(t: Textbox) -> bool {
    match t {
        Textbox::Static(s) => size_fits(s.base.text_lines(), s.base.box_style()),
        Textbox::Dynamic(d) => forall|i: int| 0 <= i < d.frames@.len() ==> size_fits(
            (#[trigger] d.frames@[i]).text_lines(),
            d.frames@[i].box_style(),
        ),
    }
}

impl Dynamic {
    /// One step of the animation clock: with `due` (more than `tick_rate`
    /// passed since the last step) the next frame is shown, the step is
    /// timed from now, and the answer is `true`; a box never timed starts
    /// its clock now; otherwise nothing changes.
    pub fn step(&mut self, due: bool) -> (r: bool)
        requires
            old(self).cursor < old(self).frames@.len(),
        ensures
            r == due,
            final(self).pos == old(self).pos,
            final(self).frames@ == old(self).frames@,
            final(self).cursor == if due {
                (old(self).cursor + 1) % (old(self).frames@.len() as int)
            } else {
                old(self).cursor as int
            },
            final(self).last_tick is Some || (!due && old(self).last_tick is Some),
            !due && old(self).last_tick is Some ==> final(self).last_tick == old(self).last_tick,
            final(self).tick_rate == old(self).tick_rate,
    {
        if due {
            let n = self.frames.len();
            assert(self.cursor < n);
            self.cursor = (self.cursor + 1) % n;
            self.last_tick = Some(now());
            true
        } else {
            if self.last_tick.is_none() {
                self.last_tick = Some(now());
            }
            false
        }
    }

    /// Whether more than `tick_rate` has passed since the last step (never,
    /// for a box not yet timed). It rests on the clock.
    fn due(&self) -> (r: bool)
        ensures
            self.last_tick is None ==> !r,
    {
        match &self.last_tick {
            Some(t) => {
                let passed = elapsed(t);
                duration_nanos(&passed) > duration_nanos(&self.tick_rate)
            },
            None => false,
        }
    }
}

impl Textbox {
    /// A still box of `lines` in `style`, drawn for `can`.
    pub fn new_static(pos: Position3D<i32>, lines: Vec<Text>, style: Style, can: &Canvas) -> (r: Self)
        requires
            layout_ok(lines@, style, *can),
        ensures
            r is Static,
            textbox_pos(r) == pos,
            current_base(r).text_lines() == lines@,
            current_base(r).box_style() == style,
            current_base(r).rows() == box_rows(lines@, style, *can),
    {
        Self::Static(Static { pos, base: Base::new(lines, style, can) })
    }

    /// An animated box showing `frames` in turn, from the first.
    pub fn new_dynamic(pos: Position3D<i32>, frames: Vec<Base>, tick_rate: Duration) -> (r: Self)
        ensures
            r matches Textbox::Dynamic(d) && d.pos == pos && d.frames@ == frames@ && d.cursor == 0
                && d.last_tick is None,
            textbox_wf(r) <==> frames@.len() > 0,
    {
        Self::Dynamic(Dynamic { pos, frames, cursor: 0, tick_rate, last_tick: None })
    }

    pub fn width(&self, can: &Canvas) -> (r: usize)
        requires
            textbox_wf(*self),
            textbox_size_fits(*self),
        ensures
            r == box_width(current_base(*self).text_lines(), current_base(*self).box_style(), *can),
    {
        match self {
            Self::Static(s) => s.base.width(can),
            Self::Dynamic(d) => d.frames[d.cursor].width(can),
        }
    }

    pub fn height(&self, can: &Canvas) -> (r: usize)
        requires
            textbox_wf(*self),
            textbox_size_fits(*self),
        ensures
            r == box_height(current_base(*self).text_lines(), current_base(*self).box_style(), *can),
    {
        match self {
            Self::Static(s) => s.base.height(can),
            Self::Dynamic(d) => d.frames[d.cursor].height(can),
        }
    }

    pub fn pos(&self) -> (r: Position3D<i32>)
        ensures
            r == textbox_pos(*self),
    {
        match self {
            Self::Static(s) => s.pos,
            Self::Dynamic(d) => d.pos,
        }
    }

    /// Moves the box by `pos`.
    pub fn move_pos(&mut self, pos: Position3D<i32>)
        requires
            moved_ok(textbox_pos(*old(self)), pos),
        ensures
            textbox_pos(*final(self)) == moved(textbox_pos(*old(self)), pos),
            textbox_wf(*final(self)) == textbox_wf(*old(self)),
            textbox_sizes_fit(*final(self)) == textbox_sizes_fit(*old(self)),
            current_base(*final(self)) == current_base(*old(self)),
            (*final(self) is Static) == (*old(self) is Static),
    {
        match self {
            Self::Static(s) => s.pos = move_by(s.pos, pos),
            Self::Dynamic(d) => d.pos = move_by(d.pos, pos),
        }
    }

    pub fn is_static(&self) -> (r: bool)
        ensures
            r == (*self is Static),
    {
        match self {
            Self::Static(_) => true,
            _ => false,
        }
    }

    pub fn is_dynamic(&self) -> (r: bool)
        ensures
            r == (*self is Dynamic),
    {
        match self {
            Self::Dynamic(_) => true,
            _ => false,
        }
    }

    /// Inserts `chars` into line `row` of the current frame from column
    /// `col`, adding an empty line first when `row` is one past the last.
    /// The drawn rows are not redrawn.
    pub fn insert(&mut self, row: usize, col: usize, chars: &[Character], canvas: &Canvas)
        requires
            textbox_wf(*old(self)),
            row <= current_base(*old(self)).text_lines().len(),
            chars@.len() > 0 ==> col <= line_or_empty(current_base(*old(self)).text_lines(), row as int).len(),
            line_or_empty(current_base(*old(self)).text_lines(), row as int).len() + chars@.len() <= usize::MAX,
        ensures
            textbox_wf(*final(self)),
            textbox_pos(*final(self)) == textbox_pos(*old(self)),
            current_base(*final(self)).text_lines()[row as int]@ == spliced(
                line_or_empty(current_base(*old(self)).text_lines(), row as int),
                col as int,
                chars@,
            ),
            forall|i: int| 0 <= i < current_base(*final(self)).text_lines().len() && i != row ==> (#[trigger] current_base(*final(self)).text_lines()[i]) == current_base(*old(self)).text_lines()[i],
            current_base(*final(self)).box_style() == current_base(*old(self)).box_style(),
            current_base(*final(self)).rows() == current_base(*old(self)).rows(),
    {
        match self {
            Self::Static(s) => s.base.insert_chars(row, col, chars),
            Self::Dynamic(d) => {
                let c = d.cursor;
                let mut frame = d.frames.remove(c);
                frame.insert_chars(row, col, chars);
                d.frames.insert(c, frame);
            },
        }
    }

    /// Adds `text` as the last line of the current frame and draws it
    /// again for `canvas`.
    pub fn push(&mut self, text: Text, canvas: &Canvas)
        requires
            textbox_wf(*old(self)),
            layout_ok(current_base(*old(self)).text_lines().push(text), current_base(*old(self)).box_style(), *canvas),
        ensures
            textbox_wf(*final(self)),
            textbox_pos(*final(self)) == textbox_pos(*old(self)),
            current_base(*final(self)).text_lines() == current_base(*old(self)).text_lines().push(text),
            current_base(*final(self)).box_style() == current_base(*old(self)).box_style(),
            current_base(*final(self)).rows() == box_rows(current_base(*old(self)).text_lines().push(text), current_base(*old(self)).box_style(), *canvas),
    {
        match self {
            Self::Static(s) => s.base.push_line(text, canvas),
            Self::Dynamic(d) => {
                let c = d.cursor;
                let mut frame = d.frames.remove(c);
                frame.push_line(text, canvas);
                d.frames.insert(c, frame);
            },
        }
    }

    /// The drawn rows of the current frame from `top_offset`, cut
    /// `bot_offset` rows short of the end (a moving box keeps one more
    /// row), with `left_offset` and `right_offset` columns cut from each.
    pub fn slice(&self, left_offset: usize, right_offset: usize, top_offset: usize, bot_offset: usize) -> (out: TextboxSlice)
        requires
            textbox_wf(*self),
            slice_fits_rows(current_base(*self).rows(), left_offset as int, right_offset as int, bot_offset as int),
        ensures
            *self is Static ==> out@ == rows_cut(current_base(*self).rows(), top_offset as int, current_base(*self).rows().len() - bot_offset, left_offset as int, right_offset as int),
            *self is Dynamic ==> out@ == rows_cut(current_base(*self).rows(), top_offset as int, current_base(*self).rows().len() - bot_offset + 1, left_offset as int, right_offset as int),
    {
        match self {
            Self::Static(s) => {
                let n = s.base.row_count();
                if n - bot_offset == 0 {
                    let out = TextboxSlice { lines: Vec::new() };
                    assert(out@ =~= rows_cut(current_base(*self).rows(), top_offset as int, 0, left_offset as int, right_offset as int));
                    out
                } else {
                    s.base.slice(top_offset, n - bot_offset - 1, left_offset, right_offset)
                }
            },
            Self::Dynamic(d) => {
                let b = &d.frames[d.cursor];
                let n = b.row_count();
                b.slice(top_offset, n - bot_offset, left_offset, right_offset)
            },
        }
    }

    /// Moves an animated box on when its step is due; `true` when it
    /// stepped to its next frame (the same one for a single frame). What is due rests on the clock; `Dynamic::step` says
    /// what happens either way.
    pub fn update(&mut self) -> (r: bool)
        requires
            textbox_wf(*old(self)),
        ensures
            textbox_wf(*final(self)),
            textbox_pos(*final(self)) == textbox_pos(*old(self)),
            *old(self) is Static ==> !r && *final(self) == *old(self),
            *old(self) matches Textbox::Dynamic(d0) ==> *final(self) matches Textbox::Dynamic(d1)
                && d1.frames@ == d0.frames@ && d1.cursor == if r {
                (d0.cursor + 1) % (d0.frames@.len() as int)
            } else {
                d0.cursor as int
            },
            *old(self) matches Textbox::Dynamic(d0) ==> *final(self) matches Textbox::Dynamic(d1)
                && d1.tick_rate == d0.tick_rate && (d0.last_tick is None ==> !r && d1.last_tick is Some)
                && (!r && d0.last_tick is Some ==> d1.last_tick == d0.last_tick),
    {
        match self {
            Self::Dynamic(d) => {
                let due = d.due();
                d.step(due)
            },
            Self::Static(_) => false,
        }
    }
}

impl Base {
    /// The number of drawn rows.
    fn row_count(&self) -> (r: usize)
        ensures
            r == self.rows().len(),
    {
        self.cache.len()
    }
}

/// What a box prints for its first `n` rows: each row, and after every
/// row but the last the characters `[1B[`, the row's length, `D` and a
/// line break.
pub open spec fn printed_prefix(rows: Seq<Seq<Character>>, n: nat) -> Seq<char>
    decreases n,
{
    if n == 0 {
        Seq::empty()
    } else {
        let i = n - 1;
        printed_prefix(rows, i as nat) + render_text(rows[i]) + if i < rows.len() - 1 {
            seq!['[', '1', 'B', '['] + decimal(rows[i].len()) + seq!['D', '\n']
        } else {
            Seq::empty()
        }
    }
}

/// Prints `rows` as `printed_prefix` does.
fn print_rows(rows: &Vec<Text>) -> (r: String)
    ensures
        r@ == printed_prefix(block_rows(rows@), rows@.len()),
{
    let ghost all = block_rows(rows@);
    let mut s = String::new();
    let n = rows.len();
    let mut i: usize = 0;
    while i < n
        invariant
            n == rows@.len(),
            all == block_rows(rows@),
            0 <= i <= n,
            s@ == printed_prefix(all, i as nat),
        decreases n - i,
    {
        let l = &rows[i];
        let drawn = l.render();
        let v = super::character::string_chars(&drawn);
        push_chars(&mut s, &v);
        if i < n - 1 {
            push_char(&mut s, '[');
            push_char(&mut s, '1');
            push_char(&mut s, 'B');
            push_char(&mut s, '[');
            push_decimal(&mut s, l.len() as u64);
            push_char(&mut s, 'D');
            push_char(&mut s, '\n');
        }
        assert(s@ =~= printed_prefix(all, (i + 1) as nat));
        i += 1;
    }
    s
}

impl Textbox {
    /// What the box prints: the drawn rows of the current frame.
    pub fn render(&self) -> (r: String)
        requires
            textbox_wf(*self),
        ensures
            r@ == printed_prefix(current_base(*self).rows(), current_base(*self).rows().len()),
    {
        match self {
            Self::Static(s) => s.base.print(),
            Self::Dynamic(d) => d.frames[d.cursor].print(),
        }
    }
}

impl Base {
    fn print(&self) -> (r: String)
        ensures
            r@ == printed_prefix(self.rows(), self.rows().len()),
    {
        print_rows(&self.cache)
    }
}

/// Every row can lose `left` and `right` columns, and there are at least
/// `bot` rows.
pub open spec fn slice_fits_rows(rows: Seq<Seq<Character>>, left: int, right: int, bot: int) -> bool {
    &&& bot <= rows.len()
    &&& forall|i: int| 0 <= i < rows.len() ==> right <= (#[trigger] rows[i]).len() && left <= rows[i].len() - right
}

/// The rows `Textbox::slice` gives.
pub open spec fn textbox_slice_rows(t: Textbox, left: int, right: int, top: int, bot: int) -> Seq<Seq<Character>> {
    let rows = current_base(t).rows();
    if t is Static {
        rows_cut(rows, top, rows.len() - bot, left, right)
    } else {
        rows_cut(rows, top, rows.len() - bot + 1, left, right)
    }
}

impl Base {
    fn rows_fit(&self, left: u64, right: u64, bot: u64) -> (r: bool)
        ensures
            r == slice_fits_rows(self.rows(), left as int, right as int, bot as int),
    {
        if bot as u128 > self.cache.len() as u128 {
            return false;
        }
        let mut i: usize = 0;
        while i < self.cache.len()
            invariant
                0 <= i <= self.cache@.len(),
                forall|j: int| 0 <= j < i ==> right <= (#[trigger] self.rows()[j]).len() && left <= self.rows()[j].len() - right,
            decreases self.cache@.len() - i,
        {
            let n = self.cache[i].len() as u128;
            assert(self.rows()[i as int] == self.cache@[i as int]@);
            if right as u128 > n || left as u128 > n - right as u128 {
                return false;
            }
            i += 1;
        }
        true
    }
}

impl Textbox {
    /// Whether the current frame's rows fit `slice_fits_rows`.
    pub fn can_slice(&self, left: u64, right: u64, bot: u64) -> (r: bool)
        requires
            textbox_wf(*self),
        ensures
            r == slice_fits_rows(current_base(*self).rows(), left as int, right as int, bot as int),
    {
        match self {
            Self::Static(s) => s.base.rows_fit(left, right, bot),
            Self::Dynamic(d) => d.frames[d.cursor].rows_fit(left, right, bot),
        }
    }
}

/// `frame_cols`, counted without overflow.
fn frame_cols_wide(st: &Style) -> (r: u128)
    ensures
        r == frame_cols(*st),
{
    match st.border.as_ref() {
        Some(b) => {
            let sides: u128 = (if b.has_left_border() { 1 } else { 0 }) + (if b.has_right_border() { 1 } else { 0 });
            sides + b.l_pad() as u128 + b.r_pad() as u128
        },
        None => 0,
    }
}

/// `rows_used`, counted without overflow.
fn rows_used_wide(n: usize, st: &Style) -> (r: u128)
    ensures
        r == rows_used(n as nat, *st),
{
    match st.border.as_ref() {
        Some(b) => {
            let edges: u128 = (if b.has_top_border() { 1 } else { 0 }) + (if b.has_bot_border() { 1 } else { 0 });
            n as u128 + edges + b.top_pad() as u128 + b.bot_pad() as u128
        },
        None => n as u128,
    }
}

/// Whether `lines` can be laid out in `st` on `can` (see `layout_ok`).
pub fn layout_fits(lines: &Vec<Text>, st: &Style, can: &Canvas) -> (r: bool)
    ensures
        r == layout_ok(lines@, *st, *can),
{
    let longest_line = longest_len(lines);
    let frame = frame_cols_wide(st);
    if (st.size.width.is_none() || st.size.height.is_none()) && longest_line as u128 + frame > usize::MAX as u128 {
        return false;
    }
    let w = width_of(lines, st, can);
    let h = height_of(lines, st, can);
    if (h as u128) < rows_used_wide(lines.len(), st) {
        return false;
    }
    if (w as u128) < frame {
        return false;
    }
    let room = (w as u128 - frame) as usize;
    let mut i: usize = 0;
    while i < lines.len()
        invariant
            0 <= i <= lines@.len(),
            room == text_room(lines@, *st, *can),
            forall|j: int| 0 <= j < i ==> (#[trigger] lines@[j])@.len() <= room,
        decreases lines@.len() - i,
    {
        if lines[i].len() > room {
            return false;
        }
        i += 1;
    }
    match st.border.as_ref() {
        None => true,
        Some(b) => {
            let top = b.has_top_border();
            let left = b.has_left_border();
            let right = b.has_right_border();
            let bot = b.has_bot_border();
            let sides: usize = (if left { 1 } else { 0 }) + (if right { 1 } else { 0 });
            let edges: u128 = (if top { 1 } else { 0 }) + (if bot { 1 } else { 0 });
            let side_rows_present = h as u128 > edges;
            if top && w < 2 {
                return false;
            }
            if top && w > 2 && !b.top.can_step() {
                return false;
            }
            if w > sides && !b.bottom.can_step() {
                return false;
            }
            if side_rows_present && left && !b.left.can_step() {
                return false;
            }
            if side_rows_present && right && !b.right.can_step() {
                return false;
            }
            true
        },
    }
}

impl Base {
    /// Whether the box's width and height can be computed.
    pub fn size_fits(&self) -> (r: bool)
        ensures
            r == size_fits(self.text_lines(), self.box_style()),
    {
        let longest_line = longest_len(&self.lines);
        let frame = frame_cols_wide(&self.style);
        !((self.style.size.width.is_none() || self.style.size.height.is_none()) && longest_line as u128 + frame > usize::MAX as u128)
    }
}

/// The two parts of a split add up to what was split.
proof fn lemma_split_sum(total: int, before_all: bool, after_all: bool)
    requires
        total >= 0,
    ensures
        split_spare(total, before_all, after_all).0 + split_spare(total, before_all, after_all).1 == total,
        split_spare(total, before_all, after_all).0 >= 0,
        split_spare(total, before_all, after_all).1 >= 0,
{
}

/// A laid-out box fills exactly its width and height: it has as many rows
/// as its height and every row is as wide as the box, when it has no
/// border or a border drawn on all four sides.
pub proof fn law_box_fills_its_size(lines: Seq<Text>, st: Style, can: Canvas)
    requires
        layout_ok(lines, st, can),
        st.border matches Some(b) ==> has_left(b) && has_right(b) && has_top(b) && has_bottom(b),
    ensures
        box_rows(lines, st, can).len() == box_height(lines, st, can),
        forall|i: int| 0 <= i < box_rows(lines, st, can).len() ==> (#[trigger] box_rows(lines, st, can)[i]).len() == box_width(lines, st, can),
{
    let w = box_width(lines, st, can);
    let h = box_height(lines, st, can);
    let n = lines.len() as int;
    let v = v_spare(lines, st, can);
    lemma_split_sum(h - rows_used(lines.len(), st), st.alignment.align == Align::Bottom, st.alignment.align == Align::Top);
    assert forall|i: int| 0 <= i < n implies h_spare(lines, st, can, i).0 + (#[trigger] lines[i])@.len() + h_spare(lines, st, can, i).1 == text_room(lines, st, can) by {
        lemma_split_sum(text_room(lines, st, can) - lines[i]@.len(), st.alignment.justify == Justify::Right, st.alignment.justify == Justify::Left);
    }
    match st.border {
        Some(b) => {
            let rows = framed_rows(lines, st, can, b);
            let inner = w - side_cols(b);
            let above = b.padding.top + v.0;
            let below = v.1;
            assert(rows.len() == 1 + above + n + below + b.padding.bottom + 1);
            assert forall|i: int| 0 <= i < rows.len() implies (#[trigger] rows[i]).len() == w by {
                if i == 0 {
                    assert(rows[i] == top_row(b, w, st));
                } else if i < 1 + above {
                    assert(rows[i] == pad_row(b, inner, i - 1, st));
                } else if i < 1 + above + n {
                    let j = i - 1 - above;
                    assert(rows[i] == framed_line(lines, st, can, b, j, above + j));
                    assert(h_spare(lines, st, can, j).0 + lines[j]@.len() + h_spare(lines, st, can, j).1 == text_room(lines, st, can));
                } else if i < 1 + above + n + below {
                    assert(rows[i] == pad_row(b, inner, above + n + (i - 1 - above - n), st));
                } else if i < 1 + above + n + below + b.padding.bottom {
                    assert(rows[i] == pad_row(b, inner, above + n + below + (i - 1 - above - n - below), st));
                } else {
                    assert(rows[i] == bottom_row(b, inner, st));
                }
            }
        },
        None => {
            let rows = plain_rows(lines, st, can);
            assert(rows.len() == v.0 + n + v.1);
            assert forall|i: int| 0 <= i < rows.len() implies (#[trigger] rows[i]).len() == w by {
                if i < v.0 {
                    assert(rows[i] == blank(w, st));
                } else if i < v.0 + n {
                    let j = i - v.0;
                    assert(rows[i] == plain_line(lines, st, can, j));
                    assert(h_spare(lines, st, can, j).0 + lines[j]@.len() + h_spare(lines, st, can, j).1 == text_room(lines, st, can));
                } else {
                    assert(rows[i] == blank(w, st));
                }
            }
        },
    }
}

/// Justification places each line in its row: flush right puts every
/// spare cell of the row (the text room less the line's length) before the
/// line and none after it, flush left puts them all after it, and centring
/// splits them evenly, the odd cell going before the line.
pub proof fn law_justify_places_line(lines: Seq<Text>, st: Style, can: Canvas, i: int)
    ensures
        ({
            let spare = text_room(lines, st, can) - lines[i]@.len();
            let (before, after) = h_spare(lines, st, can, i);
            &&& st.alignment.justify == Justify::Right ==> before == spare && after == 0
            &&& st.alignment.justify == Justify::Left ==> before == 0 && after == spare
            &&& st.alignment.justify == Justify::Center ==> before + after == spare && after <= before
                && before <= after + 1
        }),
{
}

/// Alignment places the lines in the box: aligned to the bottom, every
/// spare row (the height less the rows the border, padding and lines take)
/// comes above the lines and none below; aligned to the top, all come
/// below; centred, they are split evenly, the odd row going above.
pub proof fn law_align_places_lines(lines: Seq<Text>, st: Style, can: Canvas)
    ensures
        ({
            let spare = box_height(lines, st, can) - rows_used(lines.len(), st);
            let (above, below) = v_spare(lines, st, can);
            &&& st.alignment.align == Align::Bottom ==> above == spare && below == 0
            &&& st.alignment.align == Align::Top ==> above == 0 && below == spare
            &&& st.alignment.align == Align::Center ==> above + below == spare && below <= above
                && above <= below + 1
        }),
{
}

/// Each line is drawn in its own row, in order: line `i` sits in the row
/// under the top border (one row when the box has a border), the top
/// padding and the spare rows above the lines, `i` rows down; and it
/// starts after the left side (one column), the left padding and the
/// spare cells before it, with blanks in those spare cells.
pub proof fn law_lines_drawn_in_place(lines: Seq<Text>, st: Style, can: Canvas, i: int)
    requires
        layout_ok(lines, st, can),
        st.border matches Some(b) ==> has_left(b) && has_right(b) && has_top(b) && has_bottom(b),
        0 <= i < lines.len(),
    ensures
        ({
            let (top, left) = match st.border {
                Some(b) => (1 + b.padding.top, 1 + b.padding.left),
                None => (0int, 0int),
            };
            let row_at = top + v_spare(lines, st, can).0 + i;
            let col = left + h_spare(lines, st, can, i).0;
            let row = box_rows(lines, st, can)[row_at];
            &&& row.subrange(col, col + lines[i]@.len()) == lines[i]@
            &&& forall|j: int| left <= j < col ==> #[trigger] row[j] == cell(None, st)
        }),
{
    law_box_fills_its_size(lines, st, can);
    let v = v_spare(lines, st, can);
    let h = h_spare(lines, st, can, i);
    lemma_split_sum(text_room(lines, st, can) - lines[i]@.len(), st.alignment.justify == Justify::Right, st.alignment.justify == Justify::Left);
    lemma_split_sum(box_height(lines, st, can) - rows_used(lines.len(), st), st.alignment.align == Align::Bottom, st.alignment.align == Align::Top);
    match st.border {
        Some(b) => {
            let rows = framed_rows(lines, st, can, b);
            let above = b.padding.top + v.0;
            assert(rows[1 + above + i] == framed_line(lines, st, can, b, i, above + i));
            let row = framed_line(lines, st, can, b, i, above + i);
            let col = 1 + b.padding.left + h.0;
            assert(row.subrange(col, col + lines[i]@.len()) =~= lines[i]@);
            assert forall|j: int| 1 + b.padding.left <= j < col implies #[trigger] row[j] == cell(None, st) by {
                assert(row[j] == blank(h.0, st)[j - 1 - b.padding.left]);
            }
        },
        None => {
            let rows = plain_rows(lines, st, can);
            assert(rows[v.0 + i] == plain_line(lines, st, can, i));
            let row = plain_line(lines, st, can, i);
            assert(row.subrange(h.0, h.0 + lines[i]@.len()) =~= lines[i]@);
        },
    }
}

} // verus!
