//! A screen as a grid of cells, one object per cell, changed by messages:
//! objects are drawn strings, still or cycling through frames.

use crate::clock::{duration_nanos, elapsed, millis, now};
use crate::render::canvas::Canvas;
use crate::render::color::{color_code, Color};
use crate::render::character::string_chars;
use crate::render::escape::{push_char, push_chars};
use crate::types::positions::wrap_i32;
use std::time::{Duration, Instant};
use vstd::prelude::*;

verus! {

/// What an object draws in its cell.
pub type Sprite = String;

pub type SpritePrefix = Option<String>;

pub type SpriteSufix = Option<String>;

/// An object that always draws the same string.
pub struct StaticObject {
    sprite: Sprite,
}

/// An object that draws its strings in turn, one per `tick`.
pub struct DynamicObject {
    pub sprite: Vec<Sprite>,
    pub cursor: usize,
    pub tick: Duration,
    pub last_tick: Instant,
}

/// A cell's object, still or moving.
pub enum Object {
    Static(StaticObject),
    Dynamic(DynamicObject),
}

/// A cell of the grid, counted from the top left.
#[derive(Debug, PartialEq, Eq, Structural, Clone, Copy)]
pub struct ObjectPos {
    pub x: u32,
    pub y: u32,
}

/// A move of an object from one cell to another.
#[derive(Debug, Clone, Copy)]
pub struct ObjectMove {
    pub old: ObjectPos,
    pub new: ObjectPos,
}

/// What can be asked of the grid.
pub enum RenderMsg {
    Insert(ObjectPos, Object),
    InsertRange(ObjectPos, ObjectPos, Object),
    InsertText(ObjectPos, Sprite, SpritePrefix, SpriteSufix),
    Remove(ObjectPos),
    RemoveRange(ObjectPos, ObjectPos),
    Swap(ObjectPos, ObjectPos),
    Batch(Vec<RenderMsg>),
    Clear,
}

impl StaticObject {
    pub closed spec fn drawn(&self) -> Seq<char> {
        self.sprite@
    }

    /// A still object drawing `s`; `None` for an empty string.
    pub fn new(s: &str) -> (r: Option<Self>)
        ensures
            r is Some <==> s@.len() >= 1,
            r matches Some(o) ==> o.drawn() == s@,
    {
        let chars = string_chars(&String::from_str(s));
        if chars.len() >= 1 {
            Some(Self { sprite: String::from_str(s) })
        } else {
            None
        }
    }

    pub fn sprite(&self) -> (r: &String)
        ensures
            r@ == self.drawn(),
    {
        &self.sprite
    }
}

/// The frames of a moving object are not empty, and its cursor is on one.
pub open spec fn frames_ok(d: DynamicObject) -> bool {
    d.cursor < d.sprite@.len()
}

/// The frame drawn after frame `k` of `n`: the next one (the first after
/// the last) when `moved`, else the same.
pub open spec fn next_frame(k: int, n: int, moved: bool) -> int {
    if !moved {
        k
    } else if k == n - 1 {
        0
    } else {
        k + 1
    }
}

impl DynamicObject {
    /// A moving object drawing the strings of `s` in turn, from the first,
    /// one per `tick_rate`; `None` when there are none or one is empty.
    pub fn new(s: Vec<String>, tick_rate: Duration) -> (r: Option<Self>)
        ensures
            r is Some <==> (s@.len() > 0 && forall|i: int| 0 <= i < s@.len() ==> (#[trigger] s@[i])@.len() >= 1),
            r matches Some(d) ==> d.sprite@ == s@ && d.cursor == 0 && frames_ok(d),
    {
        if s.len() == 0 {
            return None;
        }
        let mut i: usize = 0;
        while i < s.len()
            invariant
                0 <= i <= s@.len(),
                forall|j: int| 0 <= j < i ==> (#[trigger] s@[j])@.len() >= 1,
            decreases s@.len() - i,
        {
            if string_chars(&s[i]).len() < 1 {
                return None;
            }
            i += 1;
        }
        Some(Self { sprite: s, cursor: 0, tick: tick_rate, last_tick: now() })
    }

    /// The string drawn now.
    pub fn sprite(&self) -> (r: &String)
        requires
            frames_ok(*self),
        ensures
            *r == self.sprite@[self.cursor as int],
    {
        &self.sprite[self.cursor]
    }

    /// One step of the clock: when `due` and there is more than one string,
    /// the next string is drawn (the first after the last), the step is
    /// timed from now and the answer is `true`; otherwise nothing changes
    /// and the answer is `false`. So `true` exactly when the string changed.
    pub fn step(&mut self, due: bool) -> (r: bool)
        requires
            frames_ok(*old(self)),
        ensures
            r == (due && old(self).sprite@.len() >= 2),
            frames_ok(*final(self)),
            final(self).sprite@ == old(self).sprite@,
            final(self).tick == old(self).tick,
            !r ==> final(self).last_tick == old(self).last_tick,
            final(self).cursor == if !r {
                old(self).cursor as int
            } else if old(self).cursor == old(self).sprite@.len() - 1 {
                0
            } else {
                old(self).cursor + 1
            },
    {
        if due && self.sprite.len() >= 2 {
            if self.cursor == self.sprite.len() - 1 {
                self.cursor = 0;
            } else {
                self.cursor += 1;
            }
            self.last_tick = now();
            return true;
        }
        false
    }

    /// Moves on when at least `tick` has passed since the last step and
    /// there is more than one string; `true` exactly when the string
    /// changed. What is due rests on the clock; `step` says
    /// what happens either way.
    pub fn update(&mut self) -> (r: bool)
        requires
            frames_ok(*old(self)),
        ensures
            frames_ok(*final(self)),
            final(self).sprite@ == old(self).sprite@,
            final(self).cursor == next_frame(old(self).cursor as int, old(self).sprite@.len() as int, r),
            r ==> old(self).sprite@.len() >= 2,
            final(self).tick == old(self).tick,
            !r ==> final(self).last_tick == old(self).last_tick,
    {
        let passed = elapsed(&self.last_tick);
        let due = duration_nanos(&passed) >= duration_nanos(&self.tick);
        self.step(due)
    }
}

impl Object {
    /// The moving object, if this is one.
    pub fn as_dynamic(&mut self) -> (r: Option<&mut DynamicObject>)
        ensures
            *old(self) is Dynamic <==> r is Some,
            r matches Some(d) ==> *old(self) == Object::Dynamic(*d) && *final(self) == Object::Dynamic(*final(d)),
            r is None ==> *final(self) == *old(self),
    {
        match self {
            Object::Dynamic(v) => Some(v),
            Object::Static(_) => None,
        }
    }

    /// The still object, if this is one.
    pub fn as_static(&mut self) -> (r: Option<&mut StaticObject>)
        ensures
            *old(self) is Static <==> r is Some,
            r matches Some(s) ==> *old(self) == Object::Static(*s) && *final(self) == Object::Static(*final(s)),
            r is None ==> *final(self) == *old(self),
    {
        match self {
            Object::Static(v) => Some(v),
            Object::Dynamic(_) => None,
        }
    }

    /// The string the object draws now.
    pub fn sprite(&self) -> (r: &str)
        requires
            *self matches Object::Dynamic(d) ==> frames_ok(d),
        ensures
            *self matches Object::Static(s) ==> r@ == s.drawn(),
            *self matches Object::Dynamic(d) ==> r@ == d.sprite@[d.cursor as int]@,
    {
        match self {
            Object::Dynamic(d) => d.sprite[d.cursor].as_str(),
            Object::Static(s) => s.sprite.as_str(),
        }
    }

    /// A copy of the object; a moving copy starts its clock now.
    pub fn duplicate(&self) -> (r: Object)
        ensures
            *self matches Object::Static(s) ==> r matches Object::Static(t) && t.drawn() == s.drawn(),
            *self matches Object::Dynamic(d) ==> r matches Object::Dynamic(e) && e.sprite@ == d.sprite@
                && e.cursor == d.cursor,
    {
        match self {
            Object::Static(s) => Object::Static(StaticObject { sprite: s.sprite.clone() }),
            Object::Dynamic(d) => {
                let mut v: Vec<String> = Vec::new();
                let mut i: usize = 0;
                while i < d.sprite.len()
                    invariant
                        0 <= i <= d.sprite@.len(),
                        v@ == d.sprite@.take(i as int),
                    decreases d.sprite@.len() - i,
                {
                    v.push(d.sprite[i].clone());
                    assert(d.sprite@.take(i + 1) =~= d.sprite@.take(i as int).push(d.sprite@[i as int]));
                    i += 1;
                }
                assert(d.sprite@.take(d.sprite@.len() as int) =~= d.sprite@);
                Object::Dynamic(DynamicObject { sprite: v, cursor: d.cursor, tick: d.tick, last_tick: d.last_tick })
            },
        }
    }
}

/// A dwarf: a white `D`.
pub fn dwarf_object() -> (r: Object)
    ensures
        r matches Object::Static(s) && s.drawn() == color_code(Color::IsoForeground(7)) + seq!['D'],
{
    let mut s = Color::IsoForeground(7).render();
    let d: Vec<char> = vec!['D'];
    push_chars(&mut s, &d);
    assert(s@ =~= color_code(Color::IsoForeground(7)) + seq!['D']);
    Object::Static(StaticObject { sprite: s })
}

/// A hurt dwarf: a `D` blinking red and white, one color per `millis`
/// milliseconds.
pub fn hurt_dwarf_object(millis_per_frame: u64) -> (r: Object)
    ensures
        r matches Object::Dynamic(d) && d.cursor == 0 && d.sprite@.len() == 2 && d.sprite@[0]@
            == color_code(Color::IsoForeground(1)) + seq!['D'] && d.sprite@[1]@ == color_code(
            Color::IsoForeground(7),
        ) + seq!['D'],
{
    let d: Vec<char> = vec!['D'];
    let mut red = Color::IsoForeground(1).render();
    push_chars(&mut red, &d);
    let mut white = Color::IsoForeground(7).render();
    push_chars(&mut white, &d);
    assert(red@ =~= color_code(Color::IsoForeground(1)) + seq!['D']);
    assert(white@ =~= color_code(Color::IsoForeground(7)) + seq!['D']);
    let mut frames: Vec<String> = Vec::new();
    frames.push(red);
    frames.push(white);
    Object::Dynamic(DynamicObject { sprite: frames, tick: millis(millis_per_frame), cursor: 0, last_tick: now() })
}

/// What a cell shows: its frames, the frame shown, and whether it moves
/// (`None` for an empty cell).
pub type CellView = Option<(Seq<Seq<char>>, int, bool)>;

pub open spec fn object_view(o: Object) -> (Seq<Seq<char>>, int, bool) {
    match o {
        Object::Static(s) => (seq![s.drawn()], 0, false),
        Object::Dynamic(d) => (d.sprite@.map_values(|t: String| t@), d.cursor as int, true),
    }
}

/// What a cell holding `o` shows.
pub open spec fn opt_view(o: Option<Object>) -> CellView {
    match o {
        Some(ob) => Some(object_view(ob)),
        None => None,
    }
}

/// The cells of the screen and, for each, whether its object is animated.
pub struct ObjectBuffer {
    cells: Vec<Option<Object>>,
    animated: Vec<bool>,
}

/// Cell `pos` of a grid `w` wide: `y * w + x`.
pub open spec fn cell_index(pos: ObjectPos, w: int) -> int {
    pos.y * w + pos.x
}

/// `|a as i32 - b as i32|`.
pub open spec fn span(a: u32, b: u32) -> int {
    let d = wrap_i32(a as int) - wrap_i32(b as int);
    if d < 0 {
        -d
    } else {
        d
    }
}

/// The span between `a` and `b` can be taken in an `i32`.
pub open spec fn span_ok(a: u32, b: u32) -> bool {
    let d = wrap_i32(a as int) - wrap_i32(b as int);
    i32::MIN < d <= i32::MAX
}

/// Whether cell `i` is in the block of `dy` rows of `dx` cells from `base`
/// on a grid `w` wide.
pub open spec fn in_block(i: int, base: int, w: int, dx: int, dy: int) -> bool {
    exists|y: int, x: int| 0 <= y < dy && 0 <= x < dx && i == #[trigger] block_cell(base, w, y, x)
}

/// Cell `x` of row `y` of a block from `base` on a grid `w` wide.
pub open spec fn block_cell(base: int, w: int, y: int, x: int) -> int {
    base + y * w + x
}

/// The block from `start` spanning to `end` lies on the grid.
pub open spec fn block_ok(start: ObjectPos, end: ObjectPos, w: int, len: int) -> bool {
    &&& span_ok(start.y, end.y)
    &&& span_ok(start.x, end.x)
    &&& cell_index(start, w) <= usize::MAX
    &&& span(start.y, end.y) > 0 && span(start.x, end.x) > 0 ==> cell_index(start, w) + (span(start.y, end.y) - 1) * w + span(start.x, end.x) - 1 < len
}

/// The cells `pos` is written to by the characters `chars` when text is
/// laid out from column `x0`: each character takes the next cell, and a
/// line break (which takes a cell too) moves to column `x0` of the next
/// row.
pub open spec fn text_fits(chars: Seq<char>, x: int, y: int, x0: int, w: int, len: int) -> bool
    decreases chars.len(),
{
    if chars.len() == 0 {
        true
    } else {
        &&& 0 <= y * w + x < len
        &&& y * w + x <= usize::MAX
        &&& y + 1 <= usize::MAX
        &&& if chars[0] == '\n' {
            text_fits(chars.drop_first(), x0, y + 1, x0, w, len)
        } else {
            text_fits(chars.drop_first(), x + 1, y, x0, w, len)
        }
    }
}

/// The cells after laying out `chars` (see `text_fits`): a space empties
/// its cell, any other character puts a still object drawing the prefix,
/// the character and the suffix.
pub open spec fn text_cells(cells: Seq<CellView>, chars: Seq<char>, x: int, y: int, x0: int, w: int, pre: Seq<char>, suf: Seq<char>) -> Seq<CellView>
    decreases chars.len(),
{
    if chars.len() == 0 {
        cells
    } else {
        let c = chars[0];
        let next = cells.update(y * w + x, if c == ' ' { None } else { Some((seq![pre + seq![c] + suf], 0int, false)) });
        if c == '\n' {
            text_cells(next, chars.drop_first(), x0, y + 1, x0, w, pre, suf)
        } else {
            text_cells(next, chars.drop_first(), x + 1, y, x0, w, pre, suf)
        }
    }
}

/// Laying out text keeps the number of cells.
proof fn lemma_text_cells_len(cells: Seq<CellView>, chars: Seq<char>, x: int, y: int, x0: int, w: int, pre: Seq<char>, suf: Seq<char>)
    requires
        text_fits(chars, x, y, x0, w, cells.len() as int),
    ensures
        text_cells(cells, chars, x, y, x0, w, pre, suf).len() == cells.len(),
    decreases chars.len(),
{
    if chars.len() > 0 {
        let c = chars[0];
        let next = cells.update(y * w + x, if c == ' ' { None } else { Some((seq![pre + seq![c] + suf], 0int, false)) });
        if c == '\n' {
            lemma_text_cells_len(next, chars.drop_first(), x0, y + 1, x0, w, pre, suf);
        } else {
            lemma_text_cells_len(next, chars.drop_first(), x + 1, y, x0, w, pre, suf);
        }
    }
}

/// The cells laid out by `text_cells` are no longer animated.
pub open spec fn text_flags(flags: Seq<bool>, chars: Seq<char>, x: int, y: int, x0: int, w: int) -> Seq<bool>
    decreases chars.len(),
{
    if chars.len() == 0 {
        flags
    } else {
        let next = flags.update(y * w + x, false);
        if chars[0] == '\n' {
            text_flags(next, chars.drop_first(), x0, y + 1, x0, w)
        } else {
            text_flags(next, chars.drop_first(), x + 1, y, x0, w)
        }
    }
}

/// A message can be carried out on a grid of `len` cells for `can`
/// without leaving the grid or overflowing: the cells it names lie on the
/// grid (for a swap, the second cell counted with the canvas's height as
/// the row length, as the swap does), and every message of a batch can.
pub open spec fn msg_ok(msg: RenderMsg, can: Canvas, len: int) -> bool
    decreases msg,
{
    let w = can.width as int;
    match msg {
        RenderMsg::Insert(p, _) => 0 <= cell_index(p, w) < len,
        RenderMsg::Remove(p) => 0 <= cell_index(p, w) < len,
        RenderMsg::InsertRange(a, b, _) => block_ok(a, b, w, len),
        RenderMsg::RemoveRange(a, b) => block_ok(a, b, w, len),
        RenderMsg::InsertText(p, s, _, _) => text_fits(s@, p.x as int, p.y as int, p.x as int, w, len),
        RenderMsg::Swap(a, b) => 0 <= cell_index(a, w) < len && 0 <= cell_index(b, can.height as int) < len,
        RenderMsg::Batch(v) => forall|i: int| 0 <= i < v@.len() ==> msg_ok(#[trigger] v@[i], can, len),
        RenderMsg::Clear => true,
    }
}

impl ObjectBuffer {
    pub closed spec fn cells(&self) -> Seq<CellView> {
        self.cells@.map_values(|c: Option<Object>| opt_view(c))
    }

    pub closed spec fn flags(&self) -> Seq<bool> {
        self.animated@
    }

    /// Every cell has its flag, and every animated cell holds a moving
    /// object on one of its frames.
    pub closed spec fn wf(&self) -> bool {
        &&& self.cells@.len() == self.animated@.len()
        &&& forall|i: int| 0 <= i < self.cells@.len() ==> match #[trigger] self.cells@[i] {
            Some(Object::Dynamic(d)) => frames_ok(d),
            _ => true,
        }
    }

    /// `len` empty cells, none animated.
    pub fn new(len: usize) -> (r: Self)
        ensures
            r.wf(),
            r.cells() == Seq::new(len as nat, |_i: int| None::<(Seq<Seq<char>>, int, bool)>),
            r.flags() == Seq::new(len as nat, |_i: int| false),
    {
        let mut cells: Vec<Option<Object>> = Vec::new();
        let mut animated: Vec<bool> = Vec::new();
        let mut i: usize = 0;
        while i < len
            invariant
                0 <= i <= len,
                cells@.len() == i,
                animated@.len() == i,
                forall|j: int| 0 <= j < i ==> (#[trigger] cells@[j]) is None,
                forall|j: int| 0 <= j < i ==> !(#[trigger] animated@[j]),
            decreases len - i,
        {
            cells.push(None);
            animated.push(false);
            i += 1;
        }
        let r = ObjectBuffer { cells, animated };
        assert(r.cells() =~= Seq::new(len as nat, |_i: int| None::<(Seq<Seq<char>>, int, bool)>));
        assert(r.flags() =~= Seq::new(len as nat, |_i: int| false));
        r
    }
}

/// A cell after a tick: the same, or, when flagged and moving with more
/// than one frame, on its next frame.
pub open spec fn ticked(c: CellView, flag: bool, after: CellView) -> bool {
    ||| after == c
    ||| flag && (c matches Some(v) && v.2 && v.0.len() >= 2 && after == Some((v.0, next_frame(v.1, v.0.len() as int, true), true)))
}

/// Whether a cell holds a moving object.
pub open spec fn moving(c: CellView) -> bool {
    c matches Some(v) && v.2
}

/// Whether some cell is animated and holds a moving object.
pub open spec fn animates(cells: Seq<CellView>, flags: Seq<bool>) -> bool {
    exists|i: int| 0 <= i < cells.len() && flags[i] && #[trigger] moving(cells[i])
}

/// What a cell draws: its frame shown now, or a space when empty.
pub open spec fn cell_text(c: CellView) -> Seq<char> {
    match c {
        Some(v) => v.0[v.1],
        None => seq![' '],
    }
}

/// The start of a screen: the cursor home, then the colors reset.
pub open spec fn frame_start() -> Seq<char> {
    seq!['\x1b', '[', 'H', '\x1b', '[', '0', 'm']
}

/// The first `n` cells of a screen `w` wide: each after `color`, the last
/// cell of a row followed by a line break.
pub open spec fn frame_cells(cells: Seq<CellView>, w: int, color: Seq<char>, n: int) -> Seq<char>
    decreases n,
{
    if n <= 0 {
        Seq::empty()
    } else {
        frame_cells(cells, w, color, n - 1) + color + cell_text(cells[n - 1]) + (if (n - 1) % w + 1 == w {
            seq!['\r', '\n']
        } else {
            Seq::empty()
        })
    }
}

/// The screen drawn from a grid.
pub open spec fn frame_text(cells: Seq<CellView>, w: int, color: Seq<char>) -> Seq<char> {
    frame_start() + frame_cells(cells, w, color, cells.len() as int)
}

/// The cells after writing `v` to every cell of a block (see
/// `in_block`).
pub open spec fn block_after(cells: Seq<CellView>, v: CellView, base: int, w: int, dx: int, dy: int) -> Seq<CellView> {
    Seq::new(cells.len(), |i: int| if in_block(i, base, w, dx, dy) { v } else { cells[i] })
}

/// The flags after writing `f` to every cell of a block.
pub open spec fn block_flags(flags: Seq<bool>, f: bool, base: int, w: int, dx: int, dy: int) -> Seq<bool> {
    Seq::new(flags.len(), |i: int| if in_block(i, base, w, dx, dy) { f } else { flags[i] })
}

/// Whether cell `i` is one of the first `n` cells of row `y` of a block.
pub open spec fn in_row(i: int, base: int, w: int, y: int, n: int) -> bool {
    exists|x: int| 0 <= x < n && i == #[trigger] block_cell(base, w, y, x)
}

/// `|a as i32 - b as i32|`.
fn span_of(a: u32, b: u32) -> (r: u32)
    requires
        span_ok(a, b),
    ensures
        r == span(a, b),
{
    let ai = as_i32_u32(a) as i64;
    let bi = as_i32_u32(b) as i64;
    let d = ai - bi;
    if d < 0 {
        (-d) as u32
    } else {
        d as u32
    }
}

fn as_i32_u32(v: u32) -> (r: i32)
    ensures
        r as int == wrap_i32(v as int),
{
    let r = v as i32;
    proof {
        assert(r as int == wrap_i32(v as int)) by (bit_vector)
            requires
                r == v as i32,
        ;
    }
    r
}

impl ObjectBuffer {
    pub fn len(&self) -> (r: usize)
        requires
            self.wf(),
        ensures
            r == self.cells().len(),
            r == self.flags().len(),
    {
        self.cells.len()
    }

    /// The string cell `i` draws now, if it holds an object.
    pub fn sprite_at(&self, i: usize) -> (r: Option<&str>)
        requires
            self.wf(),
            i < self.cells().len(),
        ensures
            r is Some <==> self.cells()[i as int] is Some,
            r matches Some(s) ==> (self.cells()[i as int] matches Some(v) && s@ == v.0[v.1]),
    {
        match &self.cells[i] {
            Some(o) => Some(o.sprite()),
            None => None,
        }
    }

    /// Whether the object in cell `i` is animated.
    pub fn is_animated(&self, i: usize) -> (r: bool)
        requires
            self.wf(),
            i < self.flags().len(),
        ensures
            r == self.flags()[i as int],
    {
        self.animated[i]
    }

    /// Moves on every animated object whose time has come; `true` when
    /// one moved (whether one is due rests on the clock).
    pub fn tick(&mut self) -> (r: bool)
        requires
            old(self).wf(),
        ensures
            final(self).wf(),
            final(self).flags() == old(self).flags(),
            final(self).cells().len() == old(self).cells().len(),
            forall|i: int| 0 <= i < old(self).cells().len() ==> ticked(old(self).cells()[i], old(self).flags()[i], #[trigger] final(self).cells()[i]),
            !r ==> final(self).cells() == old(self).cells(),
            r ==> animates(old(self).cells(), old(self).flags()),
    {
        let mut changed = false;
        let mut i: usize = 0;
        while i < self.cells.len()
            invariant
                self.wf(),
                self.flags() == old(self).flags(),
                self.cells().len() == old(self).cells().len(),
                0 <= i <= self.cells().len(),
                forall|j: int| 0 <= j < i ==> ticked(old(self).cells()[j], old(self).flags()[j], #[trigger] self.cells()[j]),
                forall|j: int| i <= j < self.cells().len() ==> #[trigger] self.cells()[j] == old(self).cells()[j],
                !changed ==> self.cells() == old(self).cells(),
                changed ==> animates(old(self).cells(), old(self).flags()),
            decreases self.cells().len() - i,
        {
            if self.animated[i] {
                let ghost before = self.cells();
                let mut cell: Option<Object> = None;
                std::mem::swap(&mut cell, &mut self.cells[i]);
                let moved = match cell {
                    Some(Object::Dynamic(mut d)) => {
                        let ghost d0 = d;
                        let m = d.update();
                        self.cells.set(i, Some(Object::Dynamic(d)));
                        proof {
                            assert(before[i as int] == Some(object_view(Object::Dynamic(d0))));
                            assert(d.sprite@.map_values(|t: String| t@) =~= d0.sprite@.map_values(|t: String| t@));
                            assert(ticked(before[i as int], self.flags()[i as int], self.cells()[i as int]));
                        }
                        m
                    },
                    other => {
                        self.cells.set(i, other);
                        false
                    },
                };
                proof {
                    assert(forall|j: int| 0 <= j < before.len() && j != i ==> self.cells()[j] == before[j]);
                    if !moved {
                        assert(self.cells() =~= before);
                    }
                    assert(before[i as int] == old(self).cells()[i as int]);
                    if moved {
                        assert(moving(old(self).cells()[i as int]));
                    }
                    assert forall|j: int| 0 <= j <= i implies ticked(old(self).cells()[j], old(self).flags()[j], #[trigger] self.cells()[j]) by {
                        if j < i {
                            assert(before[j] == self.cells()[j]);
                        }
                    }
                    assert forall|j: int| i < j < self.cells().len() implies #[trigger] self.cells()[j] == old(self).cells()[j] by {
                        assert(before[j] == self.cells()[j]);
                    }
                }
                if moved {
                    changed = true;
                }
            }
            i += 1;
        }
        changed
    }

    /// The screen drawn from the grid for a canvas `width` wide (see
    /// `frame_text`).
    pub fn frame(&self, width: usize, color: &str) -> (r: String)
        requires
            self.wf(),
            width > 0,
        ensures
            r@ == frame_text(self.cells(), width as int, color@),
    {
        let mut out = String::new();
        out.append("\x1b[H");
        out.append("\x1b[0m");
        proof {
            reveal_strlit("\x1b[H");
            reveal_strlit("\x1b[0m");
            assert(out@ =~= frame_start() + frame_cells(self.cells(), width as int, color@, 0));
        }
        let mut i: usize = 0;
        while i < self.cells.len()
            invariant
                self.wf(),
                width > 0,
                0 <= i <= self.cells().len(),
                out@ == frame_start() + frame_cells(self.cells(), width as int, color@, i as int),
            decreases self.cells().len() - i,
        {
            out.append(color);
            match &self.cells[i] {
                Some(o) => out.append(o.sprite()),
                None => push_char(&mut out, ' '),
            }
            if i % width + 1 == width {
                push_char(&mut out, '\r');
                push_char(&mut out, '\n');
            }
            proof {
                assert(out@ =~= frame_start() + frame_cells(self.cells(), width as int, color@, i + 1));
            }
            i += 1;
        }
        out
    }

    /// Puts `o` in cell `i` with flag `flag`.
    fn set_cell(&mut self, i: usize, o: Option<Object>, flag: bool)
        requires
            old(self).wf(),
            i < old(self).cells().len(),
            o matches Some(Object::Dynamic(d)) ==> frames_ok(d),
        ensures
            final(self).wf(),
            final(self).cells() == old(self).cells().update(i as int, opt_view(o)),
            final(self).flags() == old(self).flags().update(i as int, flag),
    {
        let ghost v = opt_view(o);
        self.cells.set(i, o);
        self.animated.set(i, flag);
        proof {
            assert(self.cells() =~= old(self).cells().update(i as int, v));
        }
    }

    /// Writes a copy of `template` (or nothing) to every cell of the block
    /// of `dy` rows of `dx` cells from `base`, with flag `flag`.
    fn fill_block(&mut self, template: &Option<Object>, flag: bool, base: usize, w: usize, dx: u32, dy: u32)
        requires
            old(self).wf(),
            *template matches Some(Object::Dynamic(d)) ==> frames_ok(d),
            dx > 0 && dy > 0 ==> base + (dy - 1) * w + dx - 1 < old(self).cells().len(),
        ensures
            final(self).wf(),
            final(self).cells() == block_after(old(self).cells(), opt_view(*template), base as int, w as int, dx as int, dy as int),
            final(self).flags() == block_flags(old(self).flags(), flag, base as int, w as int, dx as int, dy as int),
    {
        let ghost v = opt_view(*template);
        let ghost c0 = self.cells();
        let ghost f0 = self.flags();
        let n = self.cells.len();
        let mut y: u32 = 0;
        while y < dy
            invariant
                self.wf(),
                n == self.cells().len(),
                n == c0.len(),
                *template matches Some(Object::Dynamic(d)) ==> frames_ok(d),
                v == opt_view(*template),
                dx > 0 && dy > 0 ==> base + (dy - 1) * w + dx - 1 < n,
                0 <= y <= dy,
                self.cells() == block_after(c0, v, base as int, w as int, dx as int, y as int),
                self.flags() == block_flags(f0, flag, base as int, w as int, dx as int, y as int),
            decreases dy - y,
        {
            let mut x: u32 = 0;
            while x < dx
                invariant
                    self.wf(),
                    n == self.cells().len(),
                    n == c0.len(),
                    *template matches Some(Object::Dynamic(d)) ==> frames_ok(d),
                    v == opt_view(*template),
                    dx > 0 && dy > 0 ==> base + (dy - 1) * w + dx - 1 < n,
                    0 <= y < dy,
                    0 <= x <= dx,
                    forall|i: int| 0 <= i < n ==> #[trigger] self.cells()[i] == if in_block(i, base as int, w as int, dx as int, y as int) || in_row(i, base as int, w as int, y as int, x as int) { v } else { c0[i] },
                    forall|i: int| 0 <= i < n ==> #[trigger] self.flags()[i] == if in_block(i, base as int, w as int, dx as int, y as int) || in_row(i, base as int, w as int, y as int, x as int) { flag } else { f0[i] },
                decreases dx - x,
            {
                assert(y as int * w as int <= (dy - 1) as int * w as int) by (nonlinear_arith)
                    requires
                        y < dy,
                        w >= 0,
                ;
                let idx = base + (y as usize) * w + (x as usize);
                assert(idx == block_cell(base as int, w as int, y as int, x as int));
                let o = match template {
                    Some(t) => {
                        let d = t.duplicate();
                        proof {
                            if t is Dynamic {
                                assert(d->Dynamic_0.sprite@.map_values(|s: String| s@) =~= t->Dynamic_0.sprite@.map_values(|s: String| s@));
                            }
                        }
                        Some(d)
                    },
                    None => None,
                };
                assert(opt_view(o) == v);
                let ghost before_c = self.cells();
                let ghost before_f = self.flags();
                self.set_cell(idx, o, flag);
                proof {
                    assert forall|i: int| 0 <= i < n implies #[trigger] self.cells()[i] == if in_block(i, base as int, w as int, dx as int, y as int) || in_row(i, base as int, w as int, y as int, x + 1) { v } else { c0[i] } by {
                        if i == idx {
                            assert(in_row(i, base as int, w as int, y as int, x + 1));
                        } else {
                            assert(self.cells()[i] == before_c[i]);
                            if in_row(i, base as int, w as int, y as int, x + 1) {
                                let xx = choose|xx: int| 0 <= xx < x + 1 && i == #[trigger] block_cell(base as int, w as int, y as int, xx);
                                assert(xx != x);
                                assert(in_row(i, base as int, w as int, y as int, x as int));
                            }
                        }
                    }
                    assert forall|i: int| 0 <= i < n implies #[trigger] self.flags()[i] == if in_block(i, base as int, w as int, dx as int, y as int) || in_row(i, base as int, w as int, y as int, x + 1) { flag } else { f0[i] } by {
                        if i == idx {
                            assert(in_row(i, base as int, w as int, y as int, x + 1));
                        } else {
                            assert(self.flags()[i] == before_f[i]);
                            if in_row(i, base as int, w as int, y as int, x + 1) {
                                let xx = choose|xx: int| 0 <= xx < x + 1 && i == #[trigger] block_cell(base as int, w as int, y as int, xx);
                                assert(xx != x);
                                assert(in_row(i, base as int, w as int, y as int, x as int));
                            }
                        }
                    }
                }
                x += 1;
            }
            proof {
                assert forall|i: int| 0 <= i < n implies (in_block(i, base as int, w as int, dx as int, y as int) || in_row(i, base as int, w as int, y as int, dx as int)) == in_block(i, base as int, w as int, dx as int, y + 1) by {
                    if in_block(i, base as int, w as int, dx as int, y + 1) {
                        let (yy, xx) = choose|yy: int, xx: int| 0 <= yy < y + 1 && 0 <= xx < dx && i == #[trigger] block_cell(base as int, w as int, yy, xx);
                        if yy < y {
                            assert(in_block(i, base as int, w as int, dx as int, y as int));
                        } else {
                            assert(in_row(i, base as int, w as int, y as int, dx as int));
                        }
                    }
                    if in_block(i, base as int, w as int, dx as int, y as int) {
                        let (yy, xx) = choose|yy: int, xx: int| 0 <= yy < y && 0 <= xx < dx && i == #[trigger] block_cell(base as int, w as int, yy, xx);
                        assert(in_block(i, base as int, w as int, dx as int, y + 1));
                    }
                    if in_row(i, base as int, w as int, y as int, dx as int) {
                        let xx = choose|xx: int| 0 <= xx < dx && i == #[trigger] block_cell(base as int, w as int, y as int, xx);
                        assert(in_block(i, base as int, w as int, dx as int, y + 1));
                    }
                }
                assert(self.cells() =~= block_after(c0, v, base as int, w as int, dx as int, y + 1));
                assert(self.flags() =~= block_flags(f0, flag, base as int, w as int, dx as int, y + 1));
            }
            y += 1;
        }
    }
}

/// The drawing of a laid-out character: the prefix, the character, the
/// suffix.
fn text_sprite(pre: &Option<String>, c: char, suf: &Option<String>) -> (r: String)
    ensures
        r@ == opt_chars(*pre) + seq![c] + opt_chars(*suf),
{
    let mut s = String::new();
    if let Some(p) = pre {
        let v = string_chars(p);
        push_chars(&mut s, &v);
    }
    let one: Vec<char> = vec![c];
    push_chars(&mut s, &one);
    if let Some(q) = suf {
        let v = string_chars(q);
        push_chars(&mut s, &v);
    }
    assert(s@ =~= opt_chars(*pre) + seq![c] + opt_chars(*suf));
    s
}

/// The characters of an optional string (none for none).
pub open spec fn opt_chars(s: Option<String>) -> Seq<char> {
    match s {
        Some(t) => t@,
        None => Seq::empty(),
    }
}

impl ObjectBuffer {
    /// Lays out `s` from cell `pos` (see `text_cells`).
    fn lay_text(&mut self, pos: ObjectPos, s: &String, pre: &Option<String>, suf: &Option<String>, w: usize)
        requires
            old(self).wf(),
            text_fits(s@, pos.x as int, pos.y as int, pos.x as int, w as int, old(self).cells().len() as int),
        ensures
            final(self).wf(),
            final(self).cells() == text_cells(old(self).cells(), s@, pos.x as int, pos.y as int, pos.x as int, w as int, opt_chars(*pre), opt_chars(*suf)),
            final(self).flags() == text_flags(old(self).flags(), s@, pos.x as int, pos.y as int, pos.x as int, w as int),
    {
        let chars = string_chars(s);
        let ghost all = s@;
        let ghost target_c = text_cells(self.cells(), all, pos.x as int, pos.y as int, pos.x as int, w as int, opt_chars(*pre), opt_chars(*suf));
        let ghost target_f = text_flags(self.flags(), all, pos.x as int, pos.y as int, pos.x as int, w as int);
        let n = self.len();
        let ghost len = self.cells().len() as int;
        let mut x: usize = pos.x as usize;
        let mut y: usize = pos.y as usize;
        let mut i: usize = 0;
        assert(all.skip(0) =~= all);
        while i < chars.len()
            invariant
                self.wf(),
                chars@ == all,
                len == self.cells().len(),
                len == n,
                0 <= i <= all.len(),
                text_fits(all.skip(i as int), x as int, y as int, pos.x as int, w as int, len),
                text_cells(self.cells(), all.skip(i as int), x as int, y as int, pos.x as int, w as int, opt_chars(*pre), opt_chars(*suf)) == target_c,
                text_flags(self.flags(), all.skip(i as int), x as int, y as int, pos.x as int, w as int) == target_f,
            decreases all.len() - i,
        {
            let c = chars[i];
            let ghost rest = all.skip(i as int);
            assert(rest[0] == c);
            assert(rest.drop_first() =~= all.skip(i + 1));
            assert(y as int * w as int >= 0) by (nonlinear_arith)
                requires
                    y >= 0,
                    w >= 0,
            ;
            let idx = y * w + x;
            if c == ' ' {
                self.set_cell(idx, None, false);
            } else {
                let sp = text_sprite(pre, c, suf);
                let ob = Object::Static(StaticObject { sprite: sp });
                self.set_cell(idx, Some(ob), false);
            }
            if c == '\n' {
                y += 1;
                x = pos.x as usize;
            } else {
                x += 1;
            }
            i += 1;
        }
        assert(all.skip(all.len() as int) =~= Seq::<char>::empty());
    }

    /// Swaps the contents and flags of cells `a` and `b`.
    fn swap_cells(&mut self, a: usize, b: usize)
        requires
            old(self).wf(),
            a < old(self).cells().len(),
            b < old(self).cells().len(),
        ensures
            final(self).wf(),
            final(self).cells() == old(self).cells().update(a as int, old(self).cells()[b as int]).update(b as int, old(self).cells()[a as int]),
            final(self).flags() == old(self).flags().update(a as int, old(self).flags()[b as int]).update(b as int, old(self).flags()[a as int]),
    {
        if a == b {
            proof {
                assert(self.cells() =~= old(self).cells().update(a as int, old(self).cells()[b as int]).update(b as int, old(self).cells()[a as int]));
                assert(self.flags() =~= old(self).flags().update(a as int, old(self).flags()[b as int]).update(b as int, old(self).flags()[a as int]));
            }
            return;
        }
        let fa = self.animated[a];
        let fb = self.animated[b];
        let ca = self.cells.remove(a);
        self.cells.insert(a, None);
        let cb = self.cells.remove(b);
        self.cells.insert(b, None);
        proof {
            assert(self.cells@ =~= old(self).cells@.update(a as int, None).update(b as int, None));
            assert(ca == old(self).cells@[a as int]);
            assert(cb == old(self).cells@[b as int]);
        }
        self.set_cell(a, cb, fb);
        self.set_cell(b, ca, fa);
        proof {
            assert(self.cells() =~= old(self).cells().update(a as int, old(self).cells()[b as int]).update(b as int, old(self).cells()[a as int]));
            assert(self.flags() =~= old(self).flags().update(a as int, old(self).flags()[b as int]).update(b as int, old(self).flags()[a as int]));
        }
    }

    /// Makes the grid `n` cells long (cut, or filled with empty cells) and
    /// stops animating every cell.
    fn reset(&mut self, n: usize)
        requires
            old(self).wf(),
        ensures
            final(self).wf(),
            final(self).cells() == Seq::new(n as nat, |i: int| if i < old(self).cells().len() { old(self).cells()[i] } else { None }),
            final(self).flags() == Seq::new(n as nat, |_i: int| false),
    {
        let ghost c0 = self.cells();
        if self.cells.len() > n {
            self.cells.truncate(n);
        }
        while self.cells.len() < n
            invariant
                forall|i: int| 0 <= i < self.cells@.len() ==> match #[trigger] self.cells@[i] {
                    Some(Object::Dynamic(d)) => frames_ok(d),
                    _ => true,
                },
                self.cells@.len() <= n,
                self.cells@.len() < n ==> self.cells@.len() >= c0.len(),
                forall|i: int| 0 <= i < self.cells@.len() ==> #[trigger] opt_view(self.cells@[i]) == if i < c0.len() { c0[i] } else { None },
            decreases n - self.cells@.len(),
        {
            self.cells.push(None);
        }
        let mut flags: Vec<bool> = Vec::new();
        let mut i: usize = 0;
        while i < n
            invariant
                0 <= i <= n,
                flags@.len() == i,
                forall|j: int| 0 <= j < i ==> !(#[trigger] flags@[j]),
            decreases n - i,
        {
            flags.push(false);
            i += 1;
        }
        self.animated = flags;
        proof {
            assert(self.cells() =~= Seq::new(n as nat, |i: int| if i < c0.len() { c0[i] } else { None }));
            assert(self.flags() =~= Seq::new(n as nat, |_i: int| false));
        }
    }
}

/// The number of messages a batch holds (none for another message).
pub open spec fn batch_len(msg: RenderMsg) -> int {
    match msg {
        RenderMsg::Batch(v) => v@.len() as int,
        _ => 0,
    }
}

/// The cells and flags of a grid `w` wide and `h` high after a message:
/// an object or a block of copies put in place (flagged when it moves),
/// text laid out cell by cell, cells emptied, two cells swapped (the
/// second counted with `h` as the row length), every flag cleared; for a
/// batch, its first `k` messages carried out in order.
pub open spec fn grid_after(msg: RenderMsg, k: int, w: int, h: int, st: (Seq<CellView>, Seq<bool>)) -> (Seq<CellView>, Seq<bool>)
    decreases msg, k,
{
    let (c, f) = st;
    match msg {
        RenderMsg::Batch(v) => if k <= 0 || k > v@.len() {
            st
        } else {
            grid_after(v@[k - 1], batch_len(v@[k - 1]), w, h, grid_after(msg, k - 1, w, h, st))
        },
        RenderMsg::Insert(p, o) => (c.update(cell_index(p, w), Some(object_view(o))), f.update(cell_index(p, w), o is Dynamic)),
        RenderMsg::Remove(p) => (c.update(cell_index(p, w), None), f.update(cell_index(p, w), false)),
        RenderMsg::InsertRange(a, b, o) => (
            block_after(c, Some(object_view(o)), cell_index(a, w), w, span(a.x, b.x), span(a.y, b.y)),
            block_flags(f, o is Dynamic, cell_index(a, w), w, span(a.x, b.x), span(a.y, b.y)),
        ),
        RenderMsg::RemoveRange(a, b) => (
            block_after(c, None, cell_index(a, w), w, span(a.x, b.x), span(a.y, b.y)),
            block_flags(f, false, cell_index(a, w), w, span(a.x, b.x), span(a.y, b.y)),
        ),
        RenderMsg::InsertText(p, s, pre, suf) => (
            text_cells(c, s@, p.x as int, p.y as int, p.x as int, w, opt_chars(pre), opt_chars(suf)),
            text_flags(f, s@, p.x as int, p.y as int, p.x as int, w),
        ),
        RenderMsg::Swap(a, b) => {
            let ia = cell_index(a, w);
            let ib = cell_index(b, h);
            (c.update(ia, c[ib]).update(ib, c[ia]), f.update(ia, f[ib]).update(ib, f[ia]))
        },
        RenderMsg::Clear => (c, Seq::new(c.len(), |_i: int| false)),
    }
}

/// Carries out a grid message on `buf` for `canvas` (see `grid_after`).
pub fn render_msg_disbatch(msg: RenderMsg, canvas: &Canvas, buf: &mut ObjectBuffer)
    requires
        old(buf).wf(),
        old(buf).cells().len() == canvas.width * canvas.height,
        msg_ok(msg, *canvas, old(buf).cells().len() as int),
        msg_objects_ok(msg),
    ensures
        final(buf).wf(),
        final(buf).cells().len() == old(buf).cells().len(),
        (final(buf).cells(), final(buf).flags()) == grid_after(msg, batch_len(msg), canvas.width as int, canvas.height as int, (old(buf).cells(), old(buf).flags())),
    decreases msg,
{
    let w = canvas.width;
    match msg {
        RenderMsg::Batch(b) => {
            let ghost orig = b@;
            let mut rest = b;
            let ghost mut taken: int = 0;
            while rest.len() > 0
                invariant
                    buf.wf(),
                    buf.cells().len() == canvas.width * canvas.height,
                    buf.cells().len() == old(buf).cells().len(),
                    0 <= taken <= orig.len(),
                    rest@ == orig.subrange(taken, orig.len() as int),
                    (buf.cells(), buf.flags()) == grid_after(msg, taken, canvas.width as int, canvas.height as int, (old(buf).cells(), old(buf).flags())),
                    msg matches RenderMsg::Batch(bb) && bb@ == orig,
                    forall|i: int| 0 <= i < orig.len() ==> msg_ok(#[trigger] orig[i], *canvas, buf.cells().len() as int),
                    forall|i: int| 0 <= i < orig.len() ==> msg_objects_ok(#[trigger] orig[i]),
                decreases rest@.len(),
            {
                let m = rest.remove(0);
                proof {
                    assert(m == orig[taken]);
                    taken = taken + 1;
                    assert(rest@ =~= orig.subrange(taken, orig.len() as int));
                }
                render_msg_disbatch(m, canvas, buf);
            }
        },
        RenderMsg::Insert(pos, obj) => {
            let _n = buf.len();
            assert(0 <= cell_index(pos, w as int) < buf.cells().len());
            let i = pos.y as usize * w + pos.x as usize;
            let dynamic = match &obj {
                Object::Dynamic(_) => true,
                Object::Static(_) => false,
            };
            buf.set_cell(i, Some(obj), dynamic);
        },
        RenderMsg::InsertRange(start, end, object) => {
            let dy = span_of(start.y, end.y);
            let dx = span_of(start.x, end.x);
            let base = start.y as usize * w + start.x as usize;
            let dynamic = match &object {
                Object::Dynamic(_) => true,
                Object::Static(_) => false,
            };
            buf.fill_block(&Some(object), dynamic, base, w, dx, dy);
        },
        RenderMsg::InsertText(pos, s, prefix, sufix) => {
            proof {
                lemma_text_cells_len(buf.cells(), s@, pos.x as int, pos.y as int, pos.x as int, w as int, opt_chars(prefix), opt_chars(sufix));
            }
            buf.lay_text(pos, &s, &prefix, &sufix, w);
        },
        RenderMsg::Remove(pos) => {
            let _n = buf.len();
            assert(0 <= cell_index(pos, w as int) < buf.cells().len());
            let i = pos.y as usize * w + pos.x as usize;
            buf.set_cell(i, None, false);
        },
        RenderMsg::RemoveRange(start, end) => {
            let dy = span_of(start.y, end.y);
            let dx = span_of(start.x, end.x);
            let base = start.y as usize * w + start.x as usize;
            buf.fill_block(&None, false, base, w, dx, dy);
        },
        RenderMsg::Swap(a, b) => {
            let _n = buf.len();
            assert(0 <= cell_index(a, w as int) < buf.cells().len());
            assert(0 <= cell_index(b, canvas.height as int) < buf.cells().len());
            let ia = a.y as usize * w + a.x as usize;
            let ib = b.y as usize * canvas.height + b.x as usize;
            buf.swap_cells(ia, ib);
        },
        RenderMsg::Clear => {
            let _n = buf.len();
            assert(canvas.height * canvas.width == canvas.width * canvas.height) by (nonlinear_arith);
            let n = canvas.height * canvas.width;
            buf.reset(n);
            proof {
                assert(buf.cells() =~= old(buf).cells());
            }
        },
    }
}

/// Every moving object a message carries is on one of its frames.
pub open spec fn msg_objects_ok(msg: RenderMsg) -> bool
    decreases msg,
{
    match msg {
        RenderMsg::Insert(_, Object::Dynamic(d)) => frames_ok(d),
        RenderMsg::InsertRange(_, _, Object::Dynamic(d)) => frames_ok(d),
        RenderMsg::Batch(v) => forall|i: int| 0 <= i < v@.len() ==> msg_objects_ok(#[trigger] v@[i]),
        _ => true,
    }
}

/// Whether cell `p` of a grid `w` wide is one of its first `len` cells.
fn cell_in(p: ObjectPos, w: usize, len: usize) -> (r: bool)
    ensures
        r == (0 <= cell_index(p, w as int) < len),
{
    let y: u128 = p.y as u128;
    let ww: u128 = w as u128;
    assert(y * ww <= 0xffff_ffffu128 * 0xffff_ffff_ffff_ffffu128) by (nonlinear_arith)
        requires
            y <= 0xffff_ffffu128,
            ww <= 0xffff_ffff_ffff_ffffu128,
    ;
    let i: u128 = y * ww + p.x as u128;
    i < len as u128
}

/// Whether the span between `a` and `b` can be taken in an `i32`.
fn span_fits(a: u32, b: u32) -> (r: bool)
    ensures
        r == span_ok(a, b),
{
    let d: i64 = as_i32_u32(a) as i64 - as_i32_u32(b) as i64;
    (i32::MIN as i64) < d && d <= (i32::MAX as i64)
}

/// Whether the block from `a` spanning to `b` lies on a grid of `len`
/// cells `w` wide (see `block_ok`).
fn block_fits(a: ObjectPos, b: ObjectPos, w: usize, len: usize) -> (r: bool)
    ensures
        r == block_ok(a, b, w as int, len as int),
{
    if !(span_fits(a.y, b.y) && span_fits(a.x, b.x)) {
        return false;
    }
    let y: u128 = a.y as u128;
    let ww: u128 = w as u128;
    assert(y * ww <= 0xffff_ffffu128 * 0xffff_ffff_ffff_ffffu128) by (nonlinear_arith)
        requires
            y <= 0xffff_ffffu128,
            ww <= 0xffff_ffff_ffff_ffffu128,
    ;
    let base: u128 = y * ww + a.x as u128;
    if base > usize::MAX as u128 {
        return false;
    }
    let dy = span_of(a.y, b.y);
    let dx = span_of(a.x, b.x);
    if dy > 0 && dx > 0 {
        let rows: u128 = dy as u128 - 1;
        assert(rows * ww <= 0xffff_ffffu128 * 0xffff_ffff_ffff_ffffu128) by (nonlinear_arith)
            requires
                rows <= 0xffff_ffffu128,
                ww <= 0xffff_ffff_ffff_ffffu128,
        ;
        let last: u128 = base + rows * ww + dx as u128 - 1;
        last < len as u128
    } else {
        true
    }
}

/// Whether text laid out from column `x` of row `y` (lines starting at
/// column `x`) stays on a grid of `len` cells `w` wide (see `text_fits`).
fn text_fits_grid(chars: &Vec<char>, x: u32, y: u32, w: usize, len: usize) -> (r: bool)
    ensures
        r == text_fits(chars@, x as int, y as int, x as int, w as int, len as int),
{
    let ghost all = chars@;
    let x0: u128 = x as u128;
    let mut cx: u128 = x as u128;
    let mut cy: u128 = y as u128;
    let mut i: usize = 0;
    assert(all.skip(0) =~= all);
    while i < chars.len()
        invariant
            all == chars@,
            0 <= i <= all.len(),
            cx <= 0xffff_ffffu128 + i,
            cy <= 0xffff_ffffu128 + i,
            x0 == x as u128,
            text_fits(all, x as int, y as int, x as int, w as int, len as int) == text_fits(all.skip(i as int), cx as int, cy as int, x as int, w as int, len as int),
        decreases all.len() - i,
    {
        let ghost rest = all.skip(i as int);
        assert(rest[0] == all[i as int]);
        assert(rest.drop_first() =~= all.skip(i + 1));
        let c = chars[i];
        let ww: u128 = w as u128;
        if ww > 0 && cy > len as u128 {
            assert(cy * ww >= cy) by (nonlinear_arith)
                requires
                    ww >= 1,
            ;
            return false;
        }
        let prod: u128 = if ww == 0 {
            assert(cy * ww == 0) by (nonlinear_arith)
                requires
                    ww == 0,
            ;
            0
        } else {
            assert(cy * ww <= 0xffff_ffff_ffff_ffffu128 * 0xffff_ffff_ffff_ffffu128) by (nonlinear_arith)
                requires
                    cy <= 0xffff_ffff_ffff_ffffu128,
                    ww <= 0xffff_ffff_ffff_ffffu128,
            ;
            cy * ww
        };
        assert(prod == cy * ww);
        let idx: u128 = prod + cx;
        if !(idx < len as u128 && cy + 1 <= usize::MAX as u128) {
            return false;
        }
        if c == '\n' {
            cx = x0;
            cy = cy + 1;
        } else {
            cx = cx + 1;
        }
        i += 1;
    }
    assert(all.skip(i as int).len() == 0);
    true
}

/// Whether a moving object is on one of its frames.
fn object_fits(o: &Object) -> (r: bool)
    ensures
        r == (*o matches Object::Dynamic(d) ==> frames_ok(d)),
{
    match o {
        Object::Dynamic(d) => d.cursor < d.sprite.len(),
        Object::Static(_) => true,
    }
}

/// Whether `render_msg_disbatch` can carry out `msg` on a grid of `len`
/// cells for `canvas` (see `msg_ok` and `msg_objects_ok`).
pub fn msg_fits(msg: &RenderMsg, canvas: &Canvas, len: usize) -> (r: bool)
    ensures
        r == (msg_ok(*msg, *canvas, len as int) && msg_objects_ok(*msg)),
    decreases msg,
{
    let w = canvas.width;
    match msg {
        RenderMsg::Insert(p, o) => cell_in(*p, w, len) && object_fits(o),
        RenderMsg::Remove(p) => cell_in(*p, w, len),
        RenderMsg::InsertRange(a, b, o) => block_fits(*a, *b, w, len) && object_fits(o),
        RenderMsg::RemoveRange(a, b) => block_fits(*a, *b, w, len),
        RenderMsg::InsertText(p, s, _, _) => {
            let chars = string_chars(s);
            text_fits_grid(&chars, p.x, p.y, w, len)
        },
        RenderMsg::Swap(a, b) => cell_in(*a, w, len) && cell_in(*b, canvas.height, len),
        RenderMsg::Batch(v) => {
            let mut i: usize = 0;
            while i < v.len()
                invariant
                    *msg == RenderMsg::Batch(*v),
                    0 <= i <= v@.len(),
                    forall|j: int| 0 <= j < i ==> msg_ok(#[trigger] v@[j], *canvas, len as int) && msg_objects_ok(v@[j]),
                decreases v@.len() - i,
            {
                proof {
                    vstd::std_specs::vec::axiom_vec_index_decreases(*v, i as int);
                    assert((*msg)->Batch_0 == *v);
                    assert(decreases_to!(*msg => (*msg)->Batch_0));
                }
                if !msg_fits(&v[i], canvas, len) {
                    assert(!msg_ok(v@[i as int], *canvas, len as int) || !msg_objects_ok(v@[i as int]));
                    return false;
                }
                i += 1;
            }
            true
        },
        RenderMsg::Clear => true,
    }
}

/// Putting an object at cell `(x, y)` of a grid `w` wide fills cell
/// `y * w + x` with it, flagged as animated exactly when the object moves;
/// removing empties that cell and clears its flag. No other cell or flag
/// changes.
pub proof fn law_grid_put_and_take(p: ObjectPos, o: Object, w: int, h: int, c: Seq<CellView>, f: Seq<bool>)
    requires
        0 <= p.y * w + p.x < c.len(),
        c.len() == f.len(),
    ensures
        ({
            let i = p.y * w + p.x;
            let ins = RenderMsg::Insert(p, o);
            let (c1, f1) = grid_after(ins, batch_len(ins), w, h, (c, f));
            &&& c1.len() == c.len() && f1.len() == f.len()
            &&& c1[i] == Some(object_view(o)) && f1[i] == (o is Dynamic)
            &&& forall|j: int| 0 <= j < c.len() && j != i ==> c1[j] == c[j] && f1[j] == f[j]
        }),
        ({
            let i = p.y * w + p.x;
            let rem = RenderMsg::Remove(p);
            let (c1, f1) = grid_after(rem, batch_len(rem), w, h, (c, f));
            &&& c1.len() == c.len() && f1.len() == f.len()
            &&& c1[i] is None && !f1[i]
            &&& forall|j: int| 0 <= j < c.len() && j != i ==> c1[j] == c[j] && f1[j] == f[j]
        }),
{
}

/// A swap exchanges two cells and their flags, the first at `a.y * w +
/// a.x`, the second at `b.y * h + b.x` (counted with the grid's height as
/// the row length); clearing keeps every cell and clears every flag.
pub proof fn law_grid_swap_and_clear(a: ObjectPos, b: ObjectPos, w: int, h: int, c: Seq<CellView>, f: Seq<bool>)
    requires
        0 <= a.y * w + a.x < c.len(),
        0 <= b.y * h + b.x < c.len(),
        c.len() == f.len(),
    ensures
        ({
            let ia = a.y * w + a.x;
            let ib = b.y * h + b.x;
            let m = RenderMsg::Swap(a, b);
            let (c1, f1) = grid_after(m, batch_len(m), w, h, (c, f));
            &&& c1.len() == c.len() && f1.len() == f.len()
            &&& c1[ia] == c[ib] && c1[ib] == c[ia]
            &&& f1[ia] == f[ib] && f1[ib] == f[ia]
            &&& forall|j: int| 0 <= j < c.len() && j != ia && j != ib ==> c1[j] == c[j] && f1[j] == f[j]
        }),
        ({
            let (c1, f1) = grid_after(RenderMsg::Clear, 0, w, h, (c, f));
            &&& c1 == c
            &&& f1.len() == f.len()
            &&& forall|j: int| 0 <= j < f.len() ==> !f1[j]
        }),
{
}

/// Filling the block from `a` to `b` writes the object to the cell `yy`
/// rows and `xx` columns on from `a`, for every `yy` below the rows'
/// span and `xx` below the columns' span, and to no other cell; emptying
/// the block empties those cells and no other.
pub proof fn law_grid_block(a: ObjectPos, b: ObjectPos, o: Object, w: int, h: int, c: Seq<CellView>, f: Seq<bool>)
    requires
        c.len() == f.len(),
    ensures
        forall|base: int, yy: int, xx: int| #[trigger] block_cell(base, w, yy, xx) == base + yy * w + xx,
        ({
            let base = a.y * w + a.x;
            let m = RenderMsg::InsertRange(a, b, o);
            let (c1, f1) = grid_after(m, batch_len(m), w, h, (c, f));
            &&& c1.len() == c.len() && f1.len() == f.len()
            &&& forall|yy: int, xx: int|
                0 <= yy < span(a.y, b.y) && 0 <= xx < span(a.x, b.x) && 0 <= block_cell(base, w, yy, xx) < c.len()
                    ==> c1[#[trigger] block_cell(base, w, yy, xx)] == Some(object_view(o)) && f1[block_cell(base, w, yy, xx)] == (o is Dynamic)
            &&& forall|j: int|
                0 <= j < c.len() && !(exists|yy: int, xx: int|
                    0 <= yy < span(a.y, b.y) && 0 <= xx < span(a.x, b.x) && j == #[trigger] block_cell(base, w, yy, xx)) ==> c1[j] == c[j]
                    && f1[j] == f[j]
        }),
        ({
            let base = a.y * w + a.x;
            let m = RenderMsg::RemoveRange(a, b);
            let (c1, f1) = grid_after(m, batch_len(m), w, h, (c, f));
            &&& c1.len() == c.len() && f1.len() == f.len()
            &&& forall|yy: int, xx: int|
                0 <= yy < span(a.y, b.y) && 0 <= xx < span(a.x, b.x) && 0 <= block_cell(base, w, yy, xx) < c.len()
                    ==> c1[#[trigger] block_cell(base, w, yy, xx)] is None && !f1[block_cell(base, w, yy, xx)]
            &&& forall|j: int|
                0 <= j < c.len() && !(exists|yy: int, xx: int|
                    0 <= yy < span(a.y, b.y) && 0 <= xx < span(a.x, b.x) && j == #[trigger] block_cell(base, w, yy, xx)) ==> c1[j] == c[j]
                    && f1[j] == f[j]
        }),
{
    let base = a.y * w + a.x;
    assert forall|yy: int, xx: int|
        0 <= yy < span(a.y, b.y) && 0 <= xx < span(a.x, b.x) implies in_block(#[trigger] block_cell(base, w, yy, xx), base, w, span(a.x, b.x), span(a.y, b.y)) by {
    }
}

/// The span between two coordinates is their distance, when both are in
/// the range of `i32`.
pub proof fn law_span_is_distance(a: u32, b: u32)
    requires
        a <= 0x7fff_ffff,
        b <= 0x7fff_ffff,
    ensures
        span(a, b) == if a >= b { a - b } else { b - a },
        span(a, b) == span(b, a),
{
}

/// A batch carries out its messages in order: a batch of one message does
/// what the message does, and a batch of two does the second on what the
/// first left.
pub proof fn law_grid_batch_in_order(v: Vec<RenderMsg>, w: int, h: int, st: (Seq<CellView>, Seq<bool>))
    ensures
        v@.len() == 0 ==> grid_after(RenderMsg::Batch(v), batch_len(RenderMsg::Batch(v)), w, h, st) == st,
        v@.len() == 1 ==> grid_after(RenderMsg::Batch(v), batch_len(RenderMsg::Batch(v)), w, h, st) == grid_after(
            v@[0],
            batch_len(v@[0]),
            w,
            h,
            st,
        ),
        v@.len() == 2 ==> grid_after(RenderMsg::Batch(v), batch_len(RenderMsg::Batch(v)), w, h, st) == grid_after(
            v@[1],
            batch_len(v@[1]),
            w,
            h,
            grid_after(v@[0], batch_len(v@[0]), w, h, st),
        ),
{
    let m = RenderMsg::Batch(v);
    assert(m->Batch_0 == v);
    if v@.len() >= 1 {
        assert(grid_after(m, 0, w, h, st) == st);
    }
    if v@.len() == 2 {
        assert(grid_after(m, 1, w, h, st) == grid_after(v@[0], batch_len(v@[0]), w, h, st));
    }
}

/// Text without line breaks is laid out one character per cell from cell
/// `y * w + x` on: a space empties its cell, any other character puts a
/// still object drawing the prefix, the character and the suffix there.
/// No other cell changes.
pub proof fn law_text_one_cell_each(cells: Seq<CellView>, chars: Seq<char>, x: int, y: int, x0: int, w: int, pre: Seq<char>, suf: Seq<char>)
    requires
        forall|i: int| 0 <= i < chars.len() ==> chars[i] != '\n',
        0 <= y * w + x,
        y * w + x + chars.len() <= cells.len(),
    ensures
        ({
            let r = text_cells(cells, chars, x, y, x0, w, pre, suf);
            &&& r.len() == cells.len()
            &&& forall|i: int|
                0 <= i < chars.len() ==> r[y * w + x + i] == if chars[i] == ' ' {
                    None
                } else {
                    Some((seq![pre + seq![chars[i]] + suf], 0int, false))
                }
            &&& forall|j: int| 0 <= j < cells.len() && !(y * w + x <= j < y * w + x + chars.len()) ==> r[j] == cells[j]
        }),
    decreases chars.len(),
{
    if chars.len() > 0 {
        let c = chars[0];
        let next = cells.update(y * w + x, if c == ' ' { None } else { Some((seq![pre + seq![c] + suf], 0int, false)) });
        let rest = chars.drop_first();
        assert forall|i: int| 0 <= i < rest.len() implies rest[i] != '\n' by {
            assert(rest[i] == chars[i + 1]);
        }
        assert(y * w + (x + 1) == y * w + x + 1) by (nonlinear_arith);
        law_text_one_cell_each(next, rest, x + 1, y, x0, w, pre, suf);
        let r = text_cells(cells, chars, x, y, x0, w, pre, suf);
        assert(r == text_cells(next, rest, x + 1, y, x0, w, pre, suf));
        assert forall|i: int| 0 <= i < chars.len() implies r[y * w + x + i] == if chars[i] == ' ' {
            None
        } else {
            Some((seq![pre + seq![chars[i]] + suf], 0int, false))
        } by {
            if i > 0 {
                assert(rest[i - 1] == chars[i]);
                assert(y * w + (x + 1) + (i - 1) == y * w + x + i);
            }
        }
    }
}

/// A moving object steps to the next of its `n` frames, the first after
/// the last; one that did not move stays on its frame.
pub proof fn law_next_frame_cycles(k: int, n: int)
    requires
        0 <= k < n,
    ensures
        next_frame(k, n, true) == (k + 1) % n,
        next_frame(k, n, false) == k,
{
    if k < n - 1 {
        assert((k + 1) % n == k + 1) by (nonlinear_arith)
            requires
                0 <= k + 1 < n,
        ;
    } else {
        assert((k + 1) % n == 0) by (nonlinear_arith)
            requires
                k + 1 == n,
                n > 0,
        ;
    }
}

/// Drawing the first `n` cells of a screen `w` wide ends with a line break
/// exactly when the `n`-th cell ends a row; otherwise it ends with what
/// that cell draws, just after the color.
pub proof fn law_rows_end_with_break(cells: Seq<CellView>, w: int, color: Seq<char>, n: int)
    requires
        w >= 1,
        n >= 1,
    ensures
        ({
            let f = frame_cells(cells, w, color, n);
            let last = color + cell_text(cells[n - 1]);
            &&& n % w == 0 ==> f.len() >= 2 && f[f.len() - 2] == '\r' && f[f.len() - 1] == '\n'
                && f.subrange(f.len() - 2 - last.len(), f.len() - 2) == last
            &&& n % w != 0 ==> f.len() >= last.len() && f.subrange(f.len() - last.len(), f.len() as int) == last
        }),
{
    let f = frame_cells(cells, w, color, n);
    let prev = frame_cells(cells, w, color, n - 1);
    let last = color + cell_text(cells[n - 1]);
    assert(((n - 1) % w + 1 == w) == (n % w == 0)) by (nonlinear_arith)
        requires
            w >= 1,
            n >= 1,
    ;
    if n % w == 0 {
        assert(f == prev + last + seq!['\r', '\n']);
        assert(f.subrange(f.len() - 2 - last.len(), f.len() - 2) =~= last);
    } else {
        assert(f == prev + last + Seq::<char>::empty());
        assert(f.subrange(f.len() - last.len(), f.len() as int) =~= last);
    }
}

} // verus!
