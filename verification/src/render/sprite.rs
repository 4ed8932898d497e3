use super::character::char_render;
use super::glyph::{block_rows, render_rows, Glyph};
use super::text::{longest, longest_len};
use crate::clock::{duration_nanos, elapsed, now};
use crate::types::positions::Position3D;
use std::time::{Duration, Instant};
use vstd::prelude::*;

verus! {

/// One picture of a sprite.
#[derive(Clone, Debug)]
pub struct Base {
    pub sprite: Glyph,
}

/// A sprite that always shows one picture.
#[derive(Clone, Debug)]
pub struct Static {
    pub pos: Position3D<i32>,
    pub base: Base,
}

/// A sprite that steps through its pictures, one step per `tick_rate`.
#[derive(Debug)]
pub struct Dynamic {
    pub pos: Position3D<i32>,
    pub cursor: usize,
    pub tick_rate: Duration,
    pub last_tick: Option<Instant>,
    pub frames: Vec<Base>,
}

/// A picture placed in the world, still or animated.
#[derive(Debug)]
pub enum Sprite {
    Static(Static),
    Dynamic(Dynamic),
}

/// The columns a glyph takes: one for a character, the longest row of a
/// block.
pub open spec fn glyph_width(g: Glyph) -> nat {
    match g {
        Glyph::Small(_) => 1,
        Glyph::Block(b) => longest(b@),
    }
}

/// The rows a glyph takes: one for a character, the rows of a block.
pub open spec fn glyph_height(g: Glyph) -> nat {
    match g {
        Glyph::Small(_) => 1,
        Glyph::Block(b) => b@.len(),
    }
}

/// An animated sprite shows one of its pictures.
pub open spec fn sprite_wf(s: Sprite) -> bool {
    s matches Sprite::Dynamic(d) ==> d.cursor < d.frames@.len()
}

/// The picture a sprite shows now.
pub open spec fn sprite_glyph(s: Sprite) -> Glyph {
    match s {
        Sprite::Static(st) => st.base.sprite,
        Sprite::Dynamic(d) => d.frames@[d.cursor as int].sprite,
    }
}

pub open spec fn sprite_pos(s: Sprite) -> Position3D<i32> {
    match s {
        Sprite::Static(st) => st.pos,
        Sprite::Dynamic(d) => d.pos,
    }
}

/// `p` moved by `by`, where every sum fits in an `i32`.
pub open spec fn moved_ok(p: Position3D<i32>, by: Position3D<i32>) -> bool {
    &&& i32::MIN <= p.x + by.x <= i32::MAX
    &&& i32::MIN <= p.y + by.y <= i32::MAX
    &&& i32::MIN <= p.z + by.z <= i32::MAX
}

pub open spec fn moved(p: Position3D<i32>, by: Position3D<i32>) -> Position3D<i32> {
    Position3D { x: (p.x + by.x) as i32, y: (p.y + by.y) as i32, z: (p.z + by.z) as i32 }
}

/// `p` moved by `by`.
pub fn move_by(p: Position3D<i32>, by: Position3D<i32>) -> (r: Position3D<i32>)
    requires
        moved_ok(p, by),
    ensures
        r == moved(p, by),
{
    Position3D { x: p.x + by.x, y: p.y + by.y, z: p.z + by.z }
}

fn glyph_rows(g: &Glyph) -> (r: usize)
    ensures
        r == glyph_height(*g),
{
    match g {
        Glyph::Small(_) => 1,
        Glyph::Block(b) => b.len(),
    }
}

fn glyph_cols(g: &Glyph) -> (r: usize)
    ensures
        r == glyph_width(*g),
{
    match g {
        Glyph::Small(_) => 1,
        Glyph::Block(b) => longest_len(b),
    }
}

impl Dynamic {
    /// One step of the animation clock. `due` says whether more than
    /// `tick_rate` has passed since the last step. When it has, the next
    /// picture is shown, the step is timed from now, and the answer is
    /// `true`; a sprite never timed starts its clock now; otherwise nothing
    /// changes.
    pub fn step(&mut self, due: bool) -> (r: bool)
        requires
            old(self).cursor < old(self).frames@.len(),
        ensures
            r == due,
            final(self).pos == old(self).pos,
            final(self).frames@ == old(self).frames@,
            final(self).cursor == if due {
                (old(self).cursor + 1) % (old(self).frames@.len() as int)
            } else {
                old(self).cursor as int
            },
            final(self).last_tick is Some || (!due && old(self).last_tick is Some),
            !due && old(self).last_tick is Some ==> final(self).last_tick == old(self).last_tick,
            final(self).tick_rate == old(self).tick_rate,
    {
        if due {
            let n = self.frames.len();
            assert(self.cursor < n);
            self.cursor = (self.cursor + 1) % n;
            self.last_tick = Some(now());
            true
        } else {
            if self.last_tick.is_none() {
                self.last_tick = Some(now());
            }
            false
        }
    }

    /// Whether more than `tick_rate` has passed since the last step (never,
    /// for a sprite not yet timed). It rests on the clock.
    fn due(&self) -> (r: bool)
        ensures
            self.last_tick is None ==> !r,
    {
        match &self.last_tick {
            Some(t) => {
                let passed = elapsed(t);
                duration_nanos(&passed) > duration_nanos(&self.tick_rate)
            },
            None => false,
        }
    }
}

impl Sprite {
    pub fn new_static(sprite: Glyph, pos: Position3D<i32>) -> (r: Self)
        ensures
            r == Sprite::Static(Static { pos, base: Base { sprite } }),
    {
        Self::Static(Static { pos, base: Base { sprite } })
    }

    /// An animated sprite showing the pictures of `sheet` in turn, from the
    /// first.
    pub fn new_dynamic(sheet: Vec<Glyph>, pos: Position3D<i32>, tick_rate: Duration) -> (r: Self)
        ensures
            r matches Sprite::Dynamic(d) && d.pos == pos && d.cursor == 0 && d.last_tick is None
                && d.frames@.len() == sheet@.len() && forall|i: int|
                0 <= i < sheet@.len() ==> (#[trigger] d.frames@[i]).sprite == sheet@[i],
            sprite_wf(r) <==> sheet@.len() > 0,
    {
        let ghost all = sheet@;
        let mut rest = sheet;
        let mut frames: Vec<Base> = Vec::new();
        while rest.len() > 0
            invariant
                frames@.len() + rest@.len() == all.len(),
                rest@ == all.skip(frames@.len() as int),
                forall|j: int| 0 <= j < frames@.len() ==> (#[trigger] frames@[j]).sprite == all[j],
            decreases rest@.len(),
        {
            let g = rest.remove(0);
            assert(all[frames@.len() as int] == g);
            frames.push(Base { sprite: g });
            assert(rest@ =~= all.skip(frames@.len() as int));
        }
        Self::Dynamic(Dynamic { pos, cursor: 0, tick_rate, last_tick: None, frames })
    }

    pub fn is_dynamic(&self) -> (r: bool)
        ensures
            r == (*self is Dynamic),
    {
        match self {
            Self::Dynamic(_) => true,
            _ => false,
        }
    }

    pub fn is_static(&self) -> (r: bool)
        ensures
            r == (*self is Static),
    {
        match self {
            Self::Static(_) => true,
            _ => false,
        }
    }

    /// The rows the current picture takes.
    pub fn height(&self) -> (r: usize)
        requires
            sprite_wf(*self),
        ensures
            r == glyph_height(sprite_glyph(*self)),
    {
        match self {
            Self::Static(s) => glyph_rows(&s.base.sprite),
            Self::Dynamic(d) => glyph_rows(&d.frames[d.cursor].sprite),
        }
    }

    /// The columns the current picture takes.
    pub fn width(&self) -> (r: usize)
        requires
            sprite_wf(*self),
        ensures
            r == glyph_width(sprite_glyph(*self)),
    {
        match self {
            Self::Static(s) => glyph_cols(&s.base.sprite),
            Self::Dynamic(d) => glyph_cols(&d.frames[d.cursor].sprite),
        }
    }

    /// Moves an animated sprite on when its step is due; `true` when it
    /// stepped to its next picture (the same one for a single picture).
    /// After the last picture comes the first again, so the cursor always
    /// names a picture. What is due rests on the clock; `Dynamic::step`
    /// says what happens either way.
    pub fn update(&mut self) -> (r: bool)
        requires
            sprite_wf(*old(self)),
        ensures
            sprite_wf(*final(self)),
            sprite_pos(*final(self)) == sprite_pos(*old(self)),
            *old(self) is Static ==> !r && *final(self) == *old(self),
            *old(self) matches Sprite::Dynamic(d0) ==> *final(self) matches Sprite::Dynamic(d1)
                && d1.frames@ == d0.frames@ && d1.cursor == if r {
                (d0.cursor + 1) % (d0.frames@.len() as int)
            } else {
                d0.cursor as int
            },
            *old(self) matches Sprite::Dynamic(d0) ==> *final(self) matches Sprite::Dynamic(d1)
                && d1.tick_rate == d0.tick_rate && (d0.last_tick is None ==> !r && d1.last_tick is Some)
                && (!r && d0.last_tick is Some ==> d1.last_tick == d0.last_tick),
    {
        match self {
            Self::Static(_) => false,
            Self::Dynamic(d) => {
                let due = d.due();
                d.step(due)
            },
        }
    }

    pub fn pos(&self) -> (r: Position3D<i32>)
        ensures
            r == sprite_pos(*self),
    {
        match self {
            Self::Static(s) => s.pos,
            Self::Dynamic(d) => d.pos,
        }
    }

    /// Moves the sprite by `pos`.
    pub fn move_pos(&mut self, pos: Position3D<i32>)
        requires
            moved_ok(sprite_pos(*old(self)), pos),
        ensures
            sprite_pos(*final(self)) == moved(sprite_pos(*old(self)), pos),
            sprite_wf(*final(self)) == sprite_wf(*old(self)),
            sprite_glyph(*final(self)) == sprite_glyph(*old(self)),
            (*final(self) is Static) == (*old(self) is Static),
    {
        match self {
            Self::Static(s) => s.pos = move_by(s.pos, pos),
            Self::Dynamic(d) => d.pos = move_by(d.pos, pos),
        }
    }

    /// The drawing of the current picture.
    pub fn render(&self) -> (r: String)
        requires
            sprite_wf(*self),
            sprite_glyph(*self) matches Glyph::Block(b) ==> b@.len() > 0,
        ensures
            sprite_glyph(*self) matches Glyph::Small(c) ==> r@ == char_render(c),
            sprite_glyph(*self) matches Glyph::Block(b) ==> r@ == render_rows(block_rows(b@)),
    {
        match self {
            Self::Static(s) => s.base.sprite.render(),
            Self::Dynamic(d) => d.frames[d.cursor].sprite.render(),
        }
    }
}

} // verus!
