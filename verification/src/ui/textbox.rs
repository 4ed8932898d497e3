use super::border::border_width;
use super::menu::{emit, shows_lines};
use super::style::{measure_len_capped, Style};
use crate::input::KeyEvent;
use crate::render::canvas::Canvas;
use crate::render::character::Character;
use crate::render::layer::RenderUnitId;
use crate::render::renderer::RenderSignal;
use crate::render::text::{symbols, Text};
use crate::types::positions::Position;
use std::sync::Arc;
use vstd::prelude::*;

verus! {

/// An editable block of text with a cursor.
#[derive(Debug)]
pub struct TextArea {
    render_id: Option<Arc<RenderUnitId>>,
    position: Position<i32>,
    marker: Character,
    style: Style,
    value: Vec<Text>,
    place_holder: Option<String>,
    cursor: Position<usize>,
}

/// The lines of a text area, its cursor column and its cursor row.
pub type AreaState = (Seq<Seq<Character>>, int, int);

/// The cursor is on a line, at most at its end.
pub open spec fn area_wf(s: AreaState) -> bool {
    0 <= s.2 < s.0.len() && 0 <= s.1 <= s.0[s.2].len()
}

/// The key can be handled without leaving the lines: joining the first
/// line of a multi-line area onto the one above needs a line below it, and
/// moving down needs a line below.
pub open spec fn key_ok(s: AreaState, key: KeyEvent) -> bool {
    let (lines, x, y) = s;
    match key {
        KeyEvent::Backspace => lines.len() > 1 && x == 0 && y != 0 ==> y + 1 < lines.len(),
        KeyEvent::Down => y < lines.len() ==> y + 1 < lines.len(),
        _ => true,
    }
}

/// `x` but at most `m`.
pub open spec fn at_most(x: int, m: int) -> int {
    if x > m {
        m
    } else {
        x
    }
}

/// What a key does to the lines and the cursor; `max` is the limit on the
/// number of lines below which typing is taken. Backspace removes the
/// character at the cursor (the last one when the cursor is at the end of
/// the line) and steps back; at the start of a line below the first it
/// joins the line onto the one above, leaving the cursor row where it was.
/// Enter puts the part of the line from the cursor on a line above the
/// part before it, and moves the cursor to the start of the next row.
pub open spec fn typed(s: AreaState, key: KeyEvent, max: int, fg: u8, bg: u8) -> AreaState {
    let (lines, x, y) = s;
    let n = lines.len() as int;
    let cols = lines[y].len() as int;
    match key {
        KeyEvent::Backspace => if n == 1 {
            if x == cols && cols > 0 {
                (lines.update(0, lines[0].drop_last()), x - 1, y)
            } else if x != 0 {
                (lines.update(0, lines[0].remove(x)), x - 1, y)
            } else {
                s
            }
        } else {
            if x == 0 && y == 0 {
                s
            } else if x != 0 && x == cols && cols > 0 {
                (lines.update(y, lines[y].drop_last()), x - 1, y)
            } else if x != 0 && x != cols {
                (lines.update(y, lines[y].remove(x)), x - 1, y)
            } else {
                let joined = lines.remove(y).update(y - 1, lines[y - 1] + lines[y]);
                (joined, joined[y].len() as int, y)
            }
        },
        KeyEvent::Char(ch) => if max > n {
            (lines.update(y, lines[y].insert(x, Character::make(ch, fg, bg))), x + 1, y)
        } else {
            s
        },
        KeyEvent::Enter => if x < cols {
            (lines.update(y, lines[y].take(x)).insert(y, lines[y].skip(x)), 0, y + 1)
        } else {
            (lines.insert(y, Seq::empty()), 0, y + 1)
        },
        KeyEvent::Up => if y > 0 {
            (lines, at_most(x, lines[y - 1].len() as int), y - 1)
        } else {
            s
        },
        KeyEvent::Down => if y < n {
            (lines, at_most(x, lines[y + 1].len() as int), y + 1)
        } else {
            s
        },
        KeyEvent::Left => if x > 0 {
            (lines, x - 1, y)
        } else {
            s
        },
        KeyEvent::Right => if x < cols {
            (lines, x + 1, y)
        } else {
            s
        },
        _ => s,
    }
}

/// Whether a key changes what is shown (every key but the ones not
/// handled).
pub open spec fn redraws(key: KeyEvent) -> bool {
    key is Backspace || key is Char || key is Enter || key is Up || key is Down || key is Left
        || key is Right
}

/// The limit on the number of lines: the style's width less the border's
/// columns, both paddings again and one; without a border the width less
/// one; without a width the canvas's width less the column after the
/// area's `x` (taken `as usize`).
pub open spec fn max_len(style: Style, can: Canvas, x: i32) -> int {
    match style.size.width {
        Some(m) => match style.border {
            Some(b) => measure_len_capped(m, can.width as nat) - (border_width(b) + b.padding.left + b.padding.right + 1),
            None => measure_len_capped(m, can.width as nat) - 1,
        },
        None => can.width - ((x as usize) + 1),
    }
}

/// `max_len` can be computed without overflow or going below zero.
pub open spec fn max_len_ok(style: Style, can: Canvas, x: i32) -> bool {
    &&& max_len(style, can, x) >= 0
    &&& style.size.width is None ==> (x as usize) + 1 <= usize::MAX
    &&& style.size.width is Some && style.border is Some ==> border_width(style.border.unwrap())
        + style.border.unwrap().padding.left + style.border.unwrap().padding.right + 1 <= usize::MAX
}

/// The lines shown: the area's lines with the cursor marker at the cursor.
pub open spec fn shown(s: AreaState, marker: Character) -> Seq<Seq<Character>> {
    s.0.update(s.2, s.0[s.2].insert(s.1, marker))
}

/// Putting `t` in place of line `y` changes only that line's characters.
proof fn lemma_replace_line(v: Seq<Text>, y: int, t: Text)
    requires
        0 <= y < v.len(),
    ensures
        v.remove(y).insert(y, t).map_values(|x: Text| x@) == v.map_values(|x: Text| x@).update(y, t@),
{
    assert(v.remove(y).insert(y, t).map_values(|x: Text| x@) =~= v.map_values(|x: Text| x@).update(y, t@));
}

/// Joining line `y` onto line `y - 1`.
proof fn lemma_join_lines(v: Seq<Text>, y: int, joined: Text)
    requires
        1 <= y < v.len(),
    ensures
        v.remove(y).remove(y - 1).insert(y - 1, joined).map_values(|x: Text| x@) == v.map_values(|x: Text| x@).remove(y).update(y - 1, joined@),
{
    assert(v.remove(y).remove(y - 1).insert(y - 1, joined).map_values(|x: Text| x@) =~= v.map_values(|x: Text| x@).remove(y).update(y - 1, joined@));
}

/// Line `y` split into `l` and `r`, with `r` put above `l`.
proof fn lemma_split_line(v: Seq<Text>, y: int, l: Text, r: Text)
    requires
        0 <= y < v.len(),
    ensures
        v.remove(y).insert(y, l).insert(y, r).map_values(|x: Text| x@) == v.map_values(|x: Text| x@).update(y, l@).insert(y, r@),
{
    assert(v.remove(y).insert(y, l).insert(y, r).map_values(|x: Text| x@) =~= v.map_values(|x: Text| x@).update(y, l@).insert(y, r@));
}

impl TextArea {
    pub closed spec fn render_handle(&self) -> Option<Arc<RenderUnitId>> {
        self.render_id
    }

    pub closed spec fn state(&self) -> AreaState {
        (self.value@.map_values(|t: Text| t@), self.cursor.x as int, self.cursor.y as int)
    }

    pub closed spec fn spec_style(&self) -> Style {
        self.style
    }

    pub closed spec fn spec_position(&self) -> Position<i32> {
        self.position
    }

    pub closed spec fn marker(&self) -> Character {
        self.marker
    }

    /// An empty one-line area at `(x, y)` with the cursor at its start.
    pub fn new(x: i32, y: i32, marker: char, style: Style, placeholder: Option<String>) -> (r: Self)
        ensures
            r.state() == (seq![Seq::<Character>::empty()], 0int, 0int),
            r.spec_style() == style,
            r.spec_position() == (Position { x, y }),
            r.marker() == Character::make(marker, style.color.foreground, style.color.background),
            r.render_handle() is None,
            area_wf(r.state()),
    {
        let m = Character::new(marker, style.fg(), style.bg());
        let mut value: Vec<Text> = Vec::new();
        let first = Text::from("", style.fg(), style.bg());
        proof {
            reveal_strlit("");
            assert(""@ =~= Seq::<char>::empty());
            assert(first@ =~= Seq::<Character>::empty());
        }
        value.push(first);
        let r = Self {
            render_id: None,
            position: Position { x, y },
            marker: m,
            value,
            style,
            place_holder: placeholder,
            cursor: Position { x: 0, y: 0 },
        };
        assert(r.state().0 =~= seq![Seq::<Character>::empty()]);
        r
    }

    /// The limit on the number of lines (see `max_len`).
    pub fn max_len_value(&self, canvas: &Canvas) -> (r: usize)
        requires
            max_len_ok(self.spec_style(), *canvas, self.spec_position().x),
        ensures
            r == max_len(self.spec_style(), *canvas, self.spec_position().x),
    {
        if let Some(w) = self.style.size.width {
            if let Some(b) = self.style.border.as_ref() {
                w.get(canvas.width) - (b.width() + b.l_pad() + b.r_pad() + 1)
            } else {
                w.get(canvas.width) - 1
            }
        } else {
            canvas.width - (self.position.x as usize + 1)
        }
    }

    /// The text of every line, colors dropped.
    pub fn get_value(&self) -> (r: Vec<String>)
        ensures
            r@.len() == self.state().0.len(),
            forall|i: int| 0 <= i < r@.len() ==> (#[trigger] r@[i])@ == symbols(self.state().0[i]),
    {
        let mut v: Vec<String> = Vec::new();
        let mut i: usize = 0;
        while i < self.value.len()
            invariant
                0 <= i <= self.value@.len(),
                v@.len() == i,
                forall|j: int| 0 <= j < i ==> (#[trigger] v@[j])@ == symbols(self.value@[j]@),
            decreases self.value@.len() - i,
        {
            v.push(self.value[i].to_string());
            i += 1;
        }
        v
    }

    fn take_line(&mut self, y: usize) -> (r: Text)
        requires
            y < old(self).value@.len(),
        ensures
            r == old(self).value@[y as int],
            final(self).value@ == old(self).value@.remove(y as int),
            final(self).cursor == old(self).cursor,
            final(self).style == old(self).style,
            final(self).position == old(self).position,
            final(self).marker == old(self).marker,
            final(self).render_id == old(self).render_id,
    {
        self.value.remove(y)
    }

    fn put_line(&mut self, y: usize, t: Text)
        requires
            y <= old(self).value@.len(),
        ensures
            final(self).value@ == old(self).value@.insert(y as int, t),
            final(self).cursor == old(self).cursor,
            final(self).style == old(self).style,
            final(self).position == old(self).position,
            final(self).marker == old(self).marker,
            final(self).render_id == old(self).render_id,
    {
        self.value.insert(y, t);
    }

    /// Handles one key (see `typed`) and, when the key is handled, gives
    /// the signal that shows the area.
    pub fn process_key(&mut self, key: KeyEvent, canvas: &Canvas) -> (r: Option<RenderSignal>)
        requires
            area_wf(old(self).state()),
            key_ok(old(self).state(), key),
            key is Char ==> max_len_ok(old(self).spec_style(), *canvas, old(self).spec_position().x),
        ensures
            final(self).state() == typed(old(self).state(), key, max_len(old(self).spec_style(), *canvas, old(self).spec_position().x), old(self).spec_style().color.foreground, old(self).spec_style().color.background),
            area_wf(final(self).state()),
            final(self).spec_style() == old(self).spec_style(),
            final(self).spec_position() == old(self).spec_position(),
            final(self).marker() == old(self).marker(),
            r is Some <==> redraws(key),
            r matches Some(sig) ==> shows_lines(sig, old(self).render_handle() is Some, old(self).spec_position(), shown(final(self).state(), old(self).marker()), old(self).spec_style()),
    {
        let ghost s0 = self.state();
        let ghost lines0 = self.value@;
        let ghost max = if key is Char { max_len(self.style, *canvas, self.position.x) } else { 0 };
        let ghost fg = self.style.color.foreground;
        let ghost bg = self.style.color.background;
        let mut dirty = true;
        match key {
            KeyEvent::Backspace => {
                let x = self.cursor.x;
                let y = self.cursor.y;
                let rows = self.value.len();
                let cols = self.value[y].len();
                if rows == 1 {
                    if x == cols && cols > 0 {
                        let mut line = self.take_line(0);
                        line.pop();
                        self.put_line(0, line);
                        proof {
                            lemma_replace_line(lines0, 0, line);
                        }
                        self.cursor.x = x - 1;
                    } else if x != 0 {
                        let mut line = self.take_line(0);
                        line.remove(x);
                        self.put_line(0, line);
                        proof {
                            lemma_replace_line(lines0, 0, line);
                        }
                        self.cursor.x = x - 1;
                    }
                } else {
                    if x == 0 && y == 0 {
                    } else if x != 0 && x == cols && cols > 0 {
                        let mut line = self.take_line(y);
                        line.pop();
                        self.put_line(y, line);
                        proof {
                            lemma_replace_line(lines0, y as int, line);
                        }
                        self.cursor.x = x - 1;
                    } else if x != 0 && x != cols {
                        let mut line = self.take_line(y);
                        line.remove(x);
                        self.put_line(y, line);
                        proof {
                            lemma_replace_line(lines0, y as int, line);
                        }
                        self.cursor.x = x - 1;
                    } else {
                        let val = self.take_line(y);
                        let mut above = self.take_line(y - 1);
                        above.join(val);
                        self.put_line(y - 1, above);
                        proof {
                            lemma_join_lines(lines0, y as int, above);
                        }
                        self.cursor.x = self.value[y].len();
                    }
                }
            },
            KeyEvent::Char(c) => {
                if self.max_len_value(canvas) > self.value.len() {
                    let x = self.cursor.x;
                    let y = self.cursor.y;
                    let cols = self.value[y].len();
                    let ch = Character::new(c, self.style.fg(), self.style.bg());
                    let mut line = self.take_line(y);
                    if x == cols {
                        line.push(ch);
                    } else {
                        line.insert(x, ch);
                    }
                    let _cols = line.len();
                    self.put_line(y, line);
                    proof {
                        lemma_replace_line(lines0, y as int, line);
                        assert(line@ =~= lines0[y as int]@.insert(x as int, Character::make(c, fg, bg)));
                    }
                    self.cursor.x = x + 1;
                }
            },
            KeyEvent::Enter => {
                let x = self.cursor.x;
                let y = self.cursor.y;
                let cols = self.value[y].len();
                if x < cols {
                    let line = self.take_line(y);
                    let (l, r) = line.split(x);
                    self.put_line(y, l);
                    self.put_line(y, r);
                    proof {
                        lemma_split_line(lines0, y as int, l, r);
                    }
                    let _rows = self.value.len();
                    self.cursor.y = y + 1;
                    self.cursor.x = 0;
                } else {
                    let blank = Text::new();
                    self.put_line(y, blank);
                    proof {
                        assert(self.value@.map_values(|t: Text| t@) =~= lines0.map_values(|t: Text| t@).insert(y as int, Seq::<Character>::empty()));
                    }
                    let _rows = self.value.len();
                    self.cursor.y = y + 1;
                    self.cursor.x = 0;
                }
            },
            KeyEvent::Up => {
                if self.cursor.y > 0 {
                    self.cursor.y -= 1;
                    if self.cursor.x > self.value[self.cursor.y].len() {
                        self.cursor.x = self.value[self.cursor.y].len();
                    }
                }
            },
            KeyEvent::Down => {
                if self.cursor.y < self.value.len() {
                    self.cursor.y += 1;
                    if self.cursor.x > self.value[self.cursor.y].len() {
                        self.cursor.x = self.value[self.cursor.y].len();
                    }
                }
            },
            KeyEvent::Left => {
                if self.cursor.x > 0 {
                    self.cursor.x -= 1;
                }
            },
            KeyEvent::Right => {
                if self.cursor.x < self.value[self.cursor.y].len() {
                    self.cursor.x += 1;
                }
            },
            _ => {
                dirty = false;
            },
        }
        if dirty {
            Some(self.output())
        } else {
            None
        }
    }

    /// The signal that shows the area with the cursor marker at the
    /// cursor.
    pub fn output(&mut self) -> (r: RenderSignal)
        requires
            area_wf(old(self).state()),
        ensures
            shows_lines(r, old(self).render_handle() is Some, old(self).spec_position(), shown(old(self).state(), old(self).marker()), old(self).spec_style()),
            final(self).state() == old(self).state(),
            final(self).spec_style() == old(self).spec_style(),
            final(self).spec_position() == old(self).spec_position(),
            final(self).marker() == old(self).marker(),
            final(self).render_handle() is Some,
            old(self).render_handle() is Some ==> final(self).render_handle() == old(self).render_handle(),
    {
        let mut out: Vec<Text> = Vec::new();
        let mut i: usize = 0;
        while i < self.value.len()
            invariant
                0 <= i <= self.value@.len(),
                area_wf(self.state()),
                out@.len() == i,
                forall|j: int| 0 <= j < i ==> (#[trigger] out@[j])@ == shown(self.state(), self.marker())[j],
            decreases self.value@.len() - i,
        {
            let mut t = self.value[i].clone();
            if i == self.cursor.y {
                t.insert(self.cursor.x, self.marker);
            }
            out.push(t);
            i += 1;
        }
        assert(out@.map_values(|t: Text| t@) =~= shown(self.state(), self.marker()));
        let style = self.style.clone();
        emit(&mut self.render_id, self.position, out, style)
    }
}

/// Typing a character at the end of a line and then pressing Backspace
/// gives back the lines and the cursor.
pub proof fn law_type_then_backspace(s: AreaState, ch: char, max: int, fg: u8, bg: u8)
    requires
        area_wf(s),
        s.1 == s.0[s.2].len(),
        max > s.0.len(),
    ensures
        area_wf(typed(s, KeyEvent::Char(ch), max, fg, bg)),
        typed(typed(s, KeyEvent::Char(ch), max, fg, bg), KeyEvent::Backspace, max, fg, bg) == s,
{
    let (lines, x, y) = s;
    let c = Character::make(ch, fg, bg);
    let t = typed(s, KeyEvent::Char(ch), max, fg, bg);
    assert(lines[y].insert(x, c) =~= lines[y].push(c));
    assert(t.0[y].drop_last() =~= lines[y]);
    assert(t.0.update(y, t.0[y].drop_last()) =~= lines);
    if lines.len() == 1 {
        assert(t.0.update(0, t.0[0].drop_last()) =~= lines);
    }
}

/// Pressing Enter at the end of a line that has a line below it, and then
/// Backspace, gives back the lines (the cursor stays a row down).
pub proof fn law_enter_then_backspace_lines(s: AreaState, max: int, fg: u8, bg: u8)
    requires
        area_wf(s),
        s.1 == s.0[s.2].len(),
        s.2 + 1 < s.0.len(),
    ensures
        key_ok(typed(s, KeyEvent::Enter, max, fg, bg), KeyEvent::Backspace),
        typed(typed(s, KeyEvent::Enter, max, fg, bg), KeyEvent::Backspace, max, fg, bg).0 == s.0,
{
    let (lines, x, y) = s;
    let t = typed(s, KeyEvent::Enter, max, fg, bg);
    assert(t.0 == lines.insert(y, Seq::<Character>::empty()));
    let back = t.0.remove(y + 1).update(y, t.0[y] + t.0[y + 1]);
    assert(t.0[y] =~= Seq::<Character>::empty());
    assert(t.0[y] + t.0[y + 1] =~= lines[y]);
    assert(back =~= lines);
}

/// The arrow keys move the cursor and leave the lines alone. Down and Up
/// go to the next or previous line, in the same column unless that line is
/// shorter, in which case to its end; on the first line Up does nothing.
/// Left and Right step one column, but not past either end of the line.
pub proof fn law_arrows_move_cursor(s: AreaState, max: int, fg: u8, bg: u8)
    requires
        area_wf(s),
    ensures
        ({
            let (lines, x, y) = s;
            let down = typed(s, KeyEvent::Down, max, fg, bg);
            let up = typed(s, KeyEvent::Up, max, fg, bg);
            let left = typed(s, KeyEvent::Left, max, fg, bg);
            let right = typed(s, KeyEvent::Right, max, fg, bg);
            &&& y + 1 < lines.len() ==> down == (lines, if x <= lines[y + 1].len() { x } else { lines[y + 1].len() as int }, y + 1)
            &&& y > 0 ==> up == (lines, if x <= lines[y - 1].len() { x } else { lines[y - 1].len() as int }, y - 1)
            &&& y == 0 ==> up == s
            &&& left == (lines, if x > 0 { x - 1 } else { x }, y)
            &&& right == (lines, if x < lines[y].len() { x + 1 } else { x }, y)
        }),
{
}

/// Typing a character, while the area has fewer lines than `max`, puts it
/// at the cursor in the cursor's line and steps the cursor past it; the
/// rest of that line and every other line stay as they were. With `max`
/// lines or more nothing changes.
pub proof fn law_typing_inserts_at_cursor(s: AreaState, ch: char, max: int, fg: u8, bg: u8)
    requires
        area_wf(s),
    ensures
        ({
            let (lines, x, y) = s;
            let (l2, x2, y2) = typed(s, KeyEvent::Char(ch), max, fg, bg);
            &&& max > lines.len() ==> {
                &&& l2.len() == lines.len()
                &&& x2 == x + 1 && y2 == y
                &&& l2[y].len() == lines[y].len() + 1
                &&& l2[y][x] == Character::make(ch, fg, bg)
                &&& forall|j: int| 0 <= j < x ==> l2[y][j] == lines[y][j]
                &&& forall|j: int| x < j < l2[y].len() ==> l2[y][j] == lines[y][j - 1]
                &&& forall|k: int| 0 <= k < lines.len() && k != y ==> l2[k] == lines[k]
            }
            &&& max <= lines.len() ==> typed(s, KeyEvent::Char(ch), max, fg, bg) == s
        }),
{
}

/// Enter splits the cursor's line at the cursor into two lines, the part
/// from the cursor first and the part before it second, and puts the
/// cursor at the start of the second; the other lines stay, one more line
/// in all.
pub proof fn law_enter_splits_line(s: AreaState, max: int, fg: u8, bg: u8)
    requires
        area_wf(s),
    ensures
        ({
            let (lines, x, y) = s;
            let (l2, x2, y2) = typed(s, KeyEvent::Enter, max, fg, bg);
            &&& l2.len() == lines.len() + 1
            &&& l2[y] == lines[y].skip(x)
            &&& l2[y + 1] == lines[y].take(x)
            &&& x2 == 0 && y2 == y + 1
            &&& forall|k: int| 0 <= k < y ==> l2[k] == lines[k]
            &&& forall|k: int| y + 1 < k < l2.len() ==> l2[k] == lines[k - 1]
        }),
{
    let (lines, x, y) = s;
    if x >= lines[y].len() {
        assert(lines[y].skip(x) =~= Seq::<Character>::empty());
        assert(lines[y].take(x) =~= lines[y]);
    }
}

/// Backspace away from the start of a line removes one character of that
/// line (the one before the cursor at the end of the line, the one at the
/// cursor elsewhere) and steps the cursor back; the other lines stay. At
/// the start of a line below the first, of several lines, the line is
/// joined onto the end of the one above, one line fewer in all. At the
/// start of the first line nothing changes.
pub proof fn law_backspace_removes_one(s: AreaState, max: int, fg: u8, bg: u8)
    requires
        area_wf(s),
        key_ok(s, KeyEvent::Backspace),
    ensures
        ({
            let (lines, x, y) = s;
            let (l2, x2, y2) = typed(s, KeyEvent::Backspace, max, fg, bg);
            &&& x > 0 ==> {
                &&& l2.len() == lines.len()
                &&& x2 == x - 1 && y2 == y
                &&& l2[y].len() == lines[y].len() - 1
                &&& l2[y] == lines[y].remove(if x == lines[y].len() { x - 1 } else { x })
                &&& forall|k: int| 0 <= k < lines.len() && k != y ==> l2[k] == lines[k]
            }
            &&& x == 0 && y > 0 && lines.len() > 1 ==> {
                &&& l2.len() == lines.len() - 1
                &&& l2[y - 1] == lines[y - 1] + lines[y]
                &&& y2 == y
            }
            &&& x == 0 && y == 0 ==> typed(s, KeyEvent::Backspace, max, fg, bg) == s
        }),
{
    let (lines, x, y) = s;
    if x > 0 && x == lines[y].len() {
        assert(lines[y].drop_last() =~= lines[y].remove(x - 1));
    }
}

/// A text area shows its lines with the cursor marker put in at the
/// cursor: the cursor's line is one cell longer, with the marker at the
/// cursor's column and the line's characters around it in order; every
/// other line is shown as it is.
pub proof fn law_marker_at_cursor(s: AreaState, marker: Character)
    requires
        area_wf(s),
    ensures
        ({
            let (lines, x, y) = s;
            let v = shown(s, marker);
            &&& v.len() == lines.len()
            &&& v[y].len() == lines[y].len() + 1
            &&& v[y][x] == marker
            &&& v[y].take(x) == lines[y].take(x)
            &&& v[y].skip(x + 1) == lines[y].skip(x)
            &&& forall|k: int| 0 <= k < lines.len() && k != y ==> v[k] == lines[k]
        }),
{
    let (lines, x, y) = s;
    let v = shown(s, marker);
    assert(v[y].take(x) =~= lines[y].take(x));
    assert(v[y].skip(x + 1) =~= lines[y].skip(x));
}

} // verus!
