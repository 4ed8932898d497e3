use super::camera::{Camera, CameraState};
use super::canvas::Canvas;
use super::character::Character;
use super::character::char_render;
use super::glyph::{block_rows, render_rows, Glyph};
use super::sprite::{
    glyph_height, glyph_width, moved, moved_ok, sprite_glyph, sprite_pos, sprite_wf, Sprite,
};
use super::text::Text;
use super::textbox::{
    box_height, box_width, current_base, layout_fits, layout_ok, rows_cut, slice_fits_rows, stacked_prefix,
    textbox_pos, textbox_slice_rows,
    textbox_sizes_fit, textbox_wf, Base, Textbox,
};
use crate::types::positions::{wrap_i32, Position3D};
use crate::ui::style::Style;
use std::time::Duration;
use vstd::prelude::*;

verus! {

/// The kinds of interface element.
#[derive(Clone, Copy, Debug, PartialEq, Eq, Structural)]
pub enum Ui {
    Menu,
    TextBox,
    CheckBox,
    RadioButtons,
}

/// The picture of a sprite to be made: one glyph, or frames shown in turn.
#[derive(Debug)]
pub enum GlyphType {
    Single(Glyph),
    Multi { frames: Vec<Glyph>, tick_rate: Duration },
}

/// The text of a box to be made: lines, or drawn frames shown in turn.
#[derive(Debug)]
pub enum TextType {
    Single(Vec<Text>),
    Multi { frames: Vec<Base>, tick_rate: Duration },
}

/// What an object on screen is made from.
#[derive(Debug)]
pub enum ObjectData {
    Sprite { pos: Position3D<i32>, glyph: GlyphType },
    Text { pos: Position3D<i32>, data: TextType, style: Style },
}

/// Something drawn in the world: a sprite or a text box.
#[derive(Debug)]
pub enum Object {
    Sprite(Sprite),
    Text(Textbox),
}

/// `o` is what `data` describes, laid out for `can`: at its position,
/// still or moving as it says, with its glyph, or its lines and style drawn
/// for `can`, or its frames.
pub open spec fn made_from(o: Object, data: ObjectData, can: Canvas) -> bool {
    match data {
        ObjectData::Sprite { pos, glyph } => o matches Object::Sprite(s) && match glyph {
            GlyphType::Single(g) => s == Sprite::Static(
                super::sprite::Static { pos, base: super::sprite::Base { sprite: g } },
            ),
            GlyphType::Multi { frames, .. } => s matches Sprite::Dynamic(d) && d.pos == pos
                && d.cursor == 0 && d.frames@.len() == frames@.len() && forall|i: int|
                0 <= i < frames@.len() ==> (#[trigger] d.frames@[i]).sprite == frames@[i],
        },
        ObjectData::Text { pos, data, style } => o matches Object::Text(t) && match data {
            TextType::Single(lines) => t is Static && textbox_pos(t) == pos && current_base(t).text_lines()
                == lines@ && current_base(t).box_style() == style && current_base(t).rows()
                == super::textbox::box_rows(lines@, style, can),
            TextType::Multi { frames, .. } => t matches Textbox::Dynamic(d) && d.pos == pos
                && d.frames@ == frames@ && d.cursor == 0,
        },
    }
}

/// Whether an object made from `data` moves (has frames).
pub open spec fn data_is_dynamic(data: ObjectData) -> bool {
    match data {
        ObjectData::Sprite { glyph, .. } => glyph is Multi,
        ObjectData::Text { data, .. } => data is Multi,
    }
}

/// An object can be made from `data` for `can`: a box of lines must be
/// laid out.
pub open spec fn data_ok(data: ObjectData, can: Canvas) -> bool {
    data matches ObjectData::Text { data: TextType::Single(t), style, .. } ==> layout_ok(
        t@,
        style,
        can,
    )
}

/// An object made from `data` is well formed: frames shown in turn are
/// not none, and every frame of a box can be measured.
pub open spec fn data_wf(data: ObjectData) -> bool {
    match data {
        ObjectData::Sprite { glyph, .. } => glyph matches GlyphType::Multi { frames, .. } ==> frames@.len() > 0,
        ObjectData::Text { data, .. } => data matches TextType::Multi { frames, .. } ==> frames@.len() > 0 && forall|i: int|
            0 <= i < frames@.len() ==> super::textbox::size_fits(
                (#[trigger] frames@[i]).text_lines(),
                frames@[i].box_style(),
            ),
    }
}

/// An object is well formed: a moving object shows one of its frames, and
/// a box's size can be computed.
pub open spec fn object_wf(o: Object) -> bool {
    match o {
        Object::Sprite(s) => sprite_wf(s),
        Object::Text(t) => textbox_wf(t) && textbox_sizes_fit(t),
    }
}

pub open spec fn object_pos(o: Object) -> Position3D<i32> {
    match o {
        Object::Sprite(s) => sprite_pos(s),
        Object::Text(t) => textbox_pos(t),
    }
}

pub open spec fn object_width(o: Object, can: Canvas) -> int {
    match o {
        Object::Sprite(s) => glyph_width(sprite_glyph(s)) as int,
        Object::Text(t) => box_width(current_base(t).text_lines(), current_base(t).box_style(), can),
    }
}

pub open spec fn object_height(o: Object, can: Canvas) -> int {
    match o {
        Object::Sprite(s) => glyph_height(sprite_glyph(s)) as int,
        Object::Text(t) => box_height(current_base(t).text_lines(), current_base(t).box_style(), can),
    }
}

pub open spec fn object_is_dynamic(o: Object) -> bool {
    match o {
        Object::Sprite(s) => s is Dynamic,
        Object::Text(t) => t is Dynamic,
    }
}

/// `after` is `before` after one update that moved it on (`moved`) or not:
/// the same kind, position and frames; a still object unchanged and never
/// moved; a moving one on its next frame exactly when it moved, with its
/// clock started at its first update (which never moves it) and kept when
/// it does not move.
pub open spec fn updated(before: Object, after: Object, moved: bool) -> bool {
    &&& object_wf(after)
    &&& object_pos(after) == object_pos(before)
    &&& object_is_dynamic(after) == object_is_dynamic(before)
    &&& (after is Sprite) == (before is Sprite)
    &&& !object_is_dynamic(before) ==> !moved && after == before
    &&& before matches Object::Sprite(Sprite::Dynamic(d0)) ==> after matches Object::Sprite(Sprite::Dynamic(d1))
        && d1.frames@ == d0.frames@ && d1.cursor == (if moved {
        (d0.cursor + 1) % (d0.frames@.len() as int)
    } else {
        d0.cursor as int
    }) && d1.tick_rate == d0.tick_rate && (d0.last_tick is None ==> !moved && d1.last_tick is Some) && (!moved
        && d0.last_tick is Some ==> d1.last_tick == d0.last_tick)
    &&& before matches Object::Text(Textbox::Dynamic(d0)) ==> after matches Object::Text(Textbox::Dynamic(d1))
        && d1.frames@ == d0.frames@ && d1.cursor == (if moved {
        (d0.cursor + 1) % (d0.frames@.len() as int)
    } else {
        d0.cursor as int
    }) && d1.tick_rate == d0.tick_rate && (d0.last_tick is None ==> !moved && d1.last_tick is Some) && (!moved
        && d0.last_tick is Some ==> d1.last_tick == d0.last_tick)
}

impl Object {
    pub fn new_sprite_static(glyph: Glyph, pos: Position3D<i32>) -> (r: Self)
        ensures
            r matches Object::Sprite(s) && s == Sprite::Static(
                super::sprite::Static { pos, base: super::sprite::Base { sprite: glyph } },
            ),
    {
        Self::Sprite(Sprite::new_static(glyph, pos))
    }

    pub fn new_sprite_dynamic(glyphs: Vec<Glyph>, pos: Position3D<i32>, tick_rate: Duration) -> (r: Self)
        ensures
            r matches Object::Sprite(s) && s matches Sprite::Dynamic(d) && d.pos == pos && d.cursor
                == 0 && d.frames@.len() == glyphs@.len() && forall|i: int|
                0 <= i < glyphs@.len() ==> (#[trigger] d.frames@[i]).sprite == glyphs@[i],
    {
        Self::Sprite(Sprite::new_dynamic(glyphs, pos, tick_rate))
    }

    pub fn new_text_static(pos: Position3D<i32>, lines: Vec<Text>, style: Style, can: &Canvas) -> (r: Self)
        requires
            layout_ok(lines@, style, *can),
        ensures
            r matches Object::Text(t) && t is Static && textbox_pos(t) == pos
                && current_base(t).text_lines() == lines@ && current_base(t).box_style() == style,
    {
        Self::Text(Textbox::new_static(pos, lines, style, can))
    }

    pub fn new_text_dynamic(pos: Position3D<i32>, frames: Vec<Base>, tick_rate: Duration) -> (r: Self)
        ensures
            r matches Object::Text(t) && t matches Textbox::Dynamic(d) && d.pos == pos && d.frames@
                == frames@ && d.cursor == 0,
    {
        Self::Text(Textbox::new_dynamic(pos, frames, tick_rate))
    }

    /// The object `data` describes, laid out for `canvas`.
    pub fn from_data(data: ObjectData, canvas: &Canvas) -> (r: Self)
        requires
            data_ok(data, *canvas),
        ensures
            made_from(r, data, *canvas),
            object_wf(r) == data_wf(data),
            object_pos(r) == match data {
                ObjectData::Sprite { pos, .. } => pos,
                ObjectData::Text { pos, .. } => pos,
            },
            object_is_dynamic(r) == data_is_dynamic(data),
            (r is Sprite) == (data is Sprite),
            data matches ObjectData::Sprite { glyph: GlyphType::Single(g), .. } ==> sprite_glyph(
                r->Sprite_0,
            ) == g,
            data matches ObjectData::Text { data: TextType::Single(t), style, .. } ==> current_base(
                r->Text_0,
            ).text_lines() == t@ && current_base(r->Text_0).box_style() == style,
    {
        match data {
            ObjectData::Sprite { pos, glyph } => match glyph {
                GlyphType::Single(c) => Self::Sprite(Sprite::new_static(c, pos)),
                GlyphType::Multi { frames, tick_rate } => Self::Sprite(
                    Sprite::new_dynamic(frames, pos, tick_rate),
                ),
            },
            ObjectData::Text { pos, data, style } => match data {
                TextType::Single(t) => Self::Text(Textbox::new_static(pos, t, style, canvas)),
                TextType::Multi { frames, tick_rate } => Self::Text(
                    Textbox::new_dynamic(pos, frames, tick_rate),
                ),
            },
        }
    }

    pub fn pos(&self) -> (r: Position3D<i32>)
        ensures
            r == object_pos(*self),
    {
        match self {
            Self::Sprite(s) => s.pos(),
            Self::Text(t) => t.pos(),
        }
    }

    pub fn width(&self, can: &Canvas) -> (r: usize)
        requires
            object_wf(*self),
        ensures
            r == object_width(*self, *can),
    {
        match self {
            Self::Sprite(s) => s.width(),
            Self::Text(t) => {
                proof {
                    if let Textbox::Dynamic(d) = t {
                        assert(d.frames@[d.cursor as int] == current_base(*t));
                    }
                }
                t.width(can)
            },
        }
    }

    pub fn height(&self, can: &Canvas) -> (r: usize)
        requires
            object_wf(*self),
        ensures
            r == object_height(*self, *can),
    {
        match self {
            Self::Sprite(s) => s.height(),
            Self::Text(t) => {
                proof {
                    if let Textbox::Dynamic(d) = t {
                        assert(d.frames@[d.cursor as int] == current_base(*t));
                    }
                }
                t.height(can)
            },
        }
    }

    pub fn is_sprite(&self) -> (r: bool)
        ensures
            r == (*self is Sprite),
    {
        match self {
            Self::Sprite(_) => true,
            _ => false,
        }
    }

    pub fn is_text(&self) -> (r: bool)
        ensures
            r == (*self is Text),
    {
        match self {
            Self::Text(_) => true,
            _ => false,
        }
    }

    /// Moves the object by `pos`.
    pub fn move_pos(&mut self, pos: Position3D<i32>)
        requires
            moved_ok(object_pos(*old(self)), pos),
        ensures
            object_pos(*final(self)) == moved(object_pos(*old(self)), pos),
            object_wf(*final(self)) == object_wf(*old(self)),
            object_is_dynamic(*final(self)) == object_is_dynamic(*old(self)),
            (*final(self) is Sprite) == (*old(self) is Sprite),
            forall|c: Canvas| #[trigger] object_width(*final(self), c) == object_width(*old(self), c),
            forall|c: Canvas| #[trigger] object_height(*final(self), c) == object_height(*old(self), c),
    {
        match self {
            Self::Sprite(s) => s.move_pos(pos),
            Self::Text(t) => t.move_pos(pos),
        }
    }

    pub fn is_dynamic(&self) -> (r: bool)
        ensures
            r == object_is_dynamic(*self),
    {
        match self {
            Self::Sprite(s) => s.is_dynamic(),
            Self::Text(t) => t.is_dynamic(),
        }
    }

    pub fn is_static(&self) -> (r: bool)
        ensures
            r == !object_is_dynamic(*self),
    {
        match self {
            Self::Sprite(s) => s.is_static(),
            Self::Text(t) => t.is_static(),
        }
    }

    /// Moves an animated object on when its step is due; `true` when it
    /// stepped to its next picture. A still object never changes.
    pub fn update(&mut self) -> (r: bool)
        requires
            object_wf(*old(self)),
        ensures
            updated(*old(self), *final(self), r),
    {
        match self {
            Self::Sprite(s) => s.update(),
            Self::Text(t) => t.update(),
        }
    }
}

/// `|v|`.
pub open spec fn abs(v: int) -> int {
    if v < 0 {
        -v
    } else {
        v
    }
}

/// Whether two spans on one axis meet, tested as the camera does: the
/// span with the smaller reach (`|start - size|`) must have an end inside
/// the other. `a` and `b` are the text's start and size, `c` and `d` the
/// camera's.
pub open spec fn spans_meet(a: int, w: int, c: int, cw: int) -> bool {
    let (t_lo, t_hi, c_lo, c_hi) = (a, a + w, c, c + cw);
    if abs(a - w) <= abs(c - cw) {
        (t_lo <= c_hi && t_lo >= c_lo) || (t_hi >= c_lo && t_hi <= c_hi)
    } else {
        (c_lo <= t_hi && c_lo >= t_lo) || (c_hi >= t_lo && c_hi <= t_hi)
    }
}

/// Whether the camera `cam` shows `o`. A text box is shown when its
/// columns and rows meet the camera's (as `spans_meet` tests them) on the
/// camera's depth; a sprite when its position is inside the camera's box
/// (edges included) on the camera's depth. Sizes go through `as i32`.
pub open spec fn shows(cam: CameraState, o: Object, can: Canvas) -> bool {
    let p = object_pos(o);
    let cw = wrap_i32(cam.width as int);
    let ch = wrap_i32(cam.height as int);
    match o {
        Object::Text(_) => {
            &&& spans_meet(p.x as int, wrap_i32(object_width(o, can)), cam.x as int, cw)
            &&& spans_meet(p.y as int, wrap_i32(object_height(o, can)), cam.y as int, ch)
            &&& cam.z == p.z
        },
        Object::Sprite(_) => {
            &&& p.x >= cam.x && p.x <= cam.x + cw
            &&& p.y >= cam.y && p.y <= cam.y + ch
            &&& cam.z == p.z
        },
    }
}

fn as_i32_of_usize(v: usize) -> (r: i32)
    ensures
        r as int == wrap_i32(v as int),
{
    let r = v as i32;
    proof {
        assert(r as int == wrap_i32(v as int)) by (bit_vector)
            requires
                r == v as i32,
        ;
    }
    r
}

fn as_i32_of_u32(v: u32) -> (r: i32)
    ensures
        r as int == wrap_i32(v as int),
{
    let r = v as i32;
    proof {
        assert(r as int == wrap_i32(v as int)) by (bit_vector)
            requires
                r == v as i32,
        ;
    }
    r
}

fn abs64(v: i64) -> (r: i64)
    requires
        v > i64::MIN,
    ensures
        r == abs(v as int),
{
    if v < 0 {
        -v
    } else {
        v
    }
}

fn meet(a: i64, w: i64, c: i64, cw: i64) -> (r: bool)
    requires
        i32::MIN <= a <= i32::MAX,
        i32::MIN <= w <= i32::MAX,
        i32::MIN <= c <= i32::MAX,
        i32::MIN <= cw <= i32::MAX,
    ensures
        r == spans_meet(a as int, w as int, c as int, cw as int),
{
    let t_lo = a;
    let t_hi = a + w;
    let c_lo = c;
    let c_hi = c + cw;
    if abs64(a - w) <= abs64(c - cw) {
        (t_lo <= c_hi && t_lo >= c_lo) || (t_hi >= c_lo && t_hi <= c_hi)
    } else {
        (c_lo <= t_hi && c_lo >= t_lo) || (c_hi >= t_lo && c_hi <= t_hi)
    }
}

impl Camera {
    /// Whether the camera shows `o` (see `shows`). Sums are taken without
    /// overflow.
    pub fn in_view(&self, o: &Object, canvas: &Canvas) -> (r: bool)
        requires
            object_wf(*o),
        ensures
            r == shows(self@, *o, *canvas),
    {
        let p = o.pos();
        let cw = as_i32_of_u32(self.width()) as i64;
        let ch = as_i32_of_u32(self.height()) as i64;
        if o.is_text() {
            let w = as_i32_of_usize(o.width(canvas)) as i64;
            let h = as_i32_of_usize(o.height(canvas)) as i64;
            let x_inbound = meet(p.x as i64, w, self.x() as i64, cw);
            let y_inbound = meet(p.y as i64, h, self.y() as i64, ch);
            x_inbound && y_inbound && self.z() == p.z
        } else {
            let x_inbound = p.x as i64 >= self.x() as i64 && p.x as i64 <= self.x() as i64 + cw;
            let y_inbound = p.y as i64 >= self.y() as i64 && p.y as i64 <= self.y() as i64 + ch;
            x_inbound && y_inbound && self.z() == p.z
        }
    }
}

/// Where and what to draw for one object: its edges and the camera's, how
/// much of it is cut off on each side, where it shows on screen, where the
/// cursor goes, and what is written there.
pub struct DrawPlan {
    pub l_edge: i64,
    pub r_edge: i64,
    pub t_edge: i64,
    pub b_edge: i64,
    pub cam_l_edge: i64,
    pub cam_r_edge: i64,
    pub cam_t_edge: i64,
    pub cam_b_edge: i64,
    pub l_delta: u64,
    pub r_delta: u64,
    pub t_delta: u64,
    pub b_delta: u64,
    pub screen_x: i64,
    pub screen_y: i64,
    pub cursor_x: i64,
    pub cursor_y: i64,
    pub content: String,
}

/// How far `lo` lies before `cam_lo` (zero when it does not).
pub open spec fn cut_before(lo: int, cam_lo: int) -> int {
    if lo < cam_lo {
        cam_lo - lo
    } else {
        0
    }
}

/// How far `hi` lies past `cam_hi` (zero when it does not).
pub open spec fn cut_after(hi: int, cam_hi: int) -> int {
    if hi > cam_hi {
        hi - cam_hi
    } else {
        0
    }
}

/// The object's left, right, top and bottom edges (sizes through
/// `as i32`).
pub open spec fn edges(o: Object, can: Canvas) -> (int, int, int, int) {
    let p = object_pos(o);
    (
        p.x as int,
        p.x + wrap_i32(object_width(o, can)),
        p.y as int,
        p.y + wrap_i32(object_height(o, can)),
    )
}

/// The camera's left, right, top and bottom edges.
pub open spec fn cam_edges(cam: CameraState) -> (int, int, int, int) {
    (
        cam.x as int,
        cam.x + wrap_i32(cam.width as int),
        cam.y as int,
        cam.y + wrap_i32(cam.height as int),
    )
}

/// What is cut off on the left, right, top and bottom.
pub open spec fn cuts(o: Object, can: Canvas, cam: CameraState) -> (int, int, int, int) {
    let e = edges(o, can);
    let c = cam_edges(cam);
    (cut_before(e.0, c.0), cut_after(e.1, c.1), cut_before(e.2, c.2), cut_after(e.3, c.3))
}

/// What can be drawn of an object the camera shows: the rows of a box
/// less what is cut off must exist, and a block sprite must have rows.
pub open spec fn drawable(o: Object, can: Canvas, cam: CameraState) -> bool {
    shows(cam, o, can) ==> match o {
        Object::Text(t) => slice_fits_rows(
            current_base(t).rows(),
            cuts(o, can, cam).0,
            cuts(o, can, cam).1,
            cuts(o, can, cam).3,
        ),
        Object::Sprite(s) => sprite_glyph(s) matches Glyph::Block(b) ==> b@.len() > 0,
    }
}

/// What is written for an object: a sprite's picture, or the rows of a
/// box the camera does not cut off, one under the other.
pub open spec fn drawn_content(o: Object, can: Canvas, cam: CameraState) -> Seq<char> {
    match o {
        Object::Sprite(s) => match sprite_glyph(s) {
            Glyph::Small(c) => char_render(c),
            Glyph::Block(b) => render_rows(block_rows(b@)),
        },
        Object::Text(t) => {
            let rows = textbox_slice_rows(
                t,
                cuts(o, can, cam).0,
                cuts(o, can, cam).1,
                cuts(o, can, cam).2,
                cuts(o, can, cam).3,
            );
            stacked_prefix(rows, rows.len())
        },
    }
}

/// The plan agrees with the object, canvas and camera.
pub open spec fn plan_of(plan: DrawPlan, o: Object, can: Canvas, cam: CameraState) -> bool {
    let e = edges(o, can);
    let c = cam_edges(cam);
    let d = cuts(o, can, cam);
    let p = object_pos(o);
    &&& plan.l_edge == e.0 && plan.r_edge == e.1 && plan.t_edge == e.2 && plan.b_edge == e.3
    &&& plan.cam_l_edge == c.0 && plan.cam_r_edge == c.1 && plan.cam_t_edge == c.2 && plan.cam_b_edge == c.3
    &&& plan.l_delta == d.0 && plan.r_delta == d.1 && plan.t_delta == d.2 && plan.b_delta == d.3
    &&& plan.screen_x == p.x - cam.x && plan.screen_y == p.y - cam.y
    &&& plan.cursor_x == p.x - cam.x + d.0 && plan.cursor_y == p.y - cam.y + d.2
    &&& plan.content@ == drawn_content(o, can, cam)
}

fn cut_lo(lo: i64, cam_lo: i64) -> (r: u64)
    requires
        i32::MIN <= lo <= i32::MAX,
        i32::MIN <= cam_lo <= i32::MAX,
    ensures
        r == cut_before(lo as int, cam_lo as int),
{
    if lo < cam_lo {
        (cam_lo - lo) as u64
    } else {
        0
    }
}

fn cut_hi(hi: i64, cam_hi: i64) -> (r: u64)
    requires
        2 * i32::MIN <= hi <= 2 * i32::MAX,
        2 * i32::MIN <= cam_hi <= 2 * i32::MAX,
    ensures
        r == cut_after(hi as int, cam_hi as int),
{
    if hi > cam_hi {
        (hi - cam_hi) as u64
    } else {
        0
    }
}

impl Object {
    /// Whether the object can be drawn for `cam` (see `drawable`).
    pub fn can_draw(&self, can: &Canvas, cam: &Camera) -> (r: bool)
        requires
            object_wf(*self),
        ensures
            r == drawable(*self, *can, cam@),
    {
        if !cam.in_view(self, can) {
            return true;
        }
        match self {
            Self::Sprite(s) => s.has_rows(),
            Self::Text(t) => {
                let (l, r, _t, b) = self.cut_offs(can, cam);
                t.can_slice(l, r, b)
            },
        }
    }

    /// What is cut off on the left, right, top and bottom.
    fn cut_offs(&self, can: &Canvas, cam: &Camera) -> (r: (u64, u64, u64, u64))
        requires
            object_wf(*self),
        ensures
            r.0 == cuts(*self, *can, cam@).0,
            r.1 == cuts(*self, *can, cam@).1,
            r.2 == cuts(*self, *can, cam@).2,
            r.3 == cuts(*self, *can, cam@).3,
    {
        let p = self.pos();
        let w = as_i32_of_usize(self.width(can)) as i64;
        let h = as_i32_of_usize(self.height(can)) as i64;
        let cw = as_i32_of_u32(cam.width()) as i64;
        let ch = as_i32_of_u32(cam.height()) as i64;
        (
            cut_lo(p.x as i64, cam.x() as i64),
            cut_hi(p.x as i64 + w, cam.x() as i64 + cw),
            cut_lo(p.y as i64, cam.y() as i64),
            cut_hi(p.y as i64 + h, cam.y() as i64 + ch),
        )
    }

    /// The plan for drawing the object with `cam`; `None` when the camera
    /// does not show it.
    pub fn draw(&self, can: &Canvas, cam: &Camera) -> (r: Option<DrawPlan>)
        requires
            object_wf(*self),
            drawable(*self, *can, cam@),
        ensures
            r is None <==> !shows(cam@, *self, *can),
            r matches Some(plan) ==> plan_of(plan, *self, *can, cam@),
    {
        if !cam.in_view(self, can) {
            return None;
        }
        let p = self.pos();
        let width = as_i32_of_usize(self.width(can)) as i64;
        let height = as_i32_of_usize(self.height(can)) as i64;
        let l_edge = p.x as i64;
        let r_edge = p.x as i64 + width;
        let t_edge = p.y as i64;
        let b_edge = p.y as i64 + height;
        let cam_l_edge = cam.x() as i64;
        let cam_r_edge = cam.x() as i64 + as_i32_of_u32(cam.width()) as i64;
        let cam_t_edge = cam.y() as i64;
        let cam_b_edge = cam.y() as i64 + as_i32_of_u32(cam.height()) as i64;
        let l_delta = cut_lo(l_edge, cam_l_edge);
        let r_delta = cut_hi(r_edge, cam_r_edge);
        let t_delta = cut_lo(t_edge, cam_t_edge);
        let b_delta = cut_hi(b_edge, cam_b_edge);
        let screen_x = p.x as i64 - cam.x() as i64;
        let screen_y = p.y as i64 - cam.y() as i64;
        let content = match self {
            Self::Sprite(s) => s.render(),
            Self::Text(t) => {
                let part = t.slice(l_delta as usize, r_delta as usize, t_delta as usize, b_delta as usize);
                part.render()
            },
        };
        Some(
            DrawPlan {
                l_edge,
                r_edge,
                t_edge,
                b_edge,
                cam_l_edge,
                cam_r_edge,
                cam_t_edge,
                cam_b_edge,
                l_delta,
                r_delta,
                t_delta,
                b_delta,
                screen_x,
                screen_y,
                cursor_x: screen_x + l_delta as i64,
                cursor_y: screen_y + t_delta as i64,
                content,
            },
        )
    }
}

impl Sprite {
    /// Whether the current picture is a character or a block with rows.
    fn has_rows(&self) -> (r: bool)
        requires
            sprite_wf(*self),
        ensures
            r == (sprite_glyph(*self) matches Glyph::Block(b) ==> b@.len() > 0),
    {
        let g = match self {
            Sprite::Static(st) => &st.base.sprite,
            Sprite::Dynamic(d) => &d.frames[d.cursor].sprite,
        };
        match g {
            Glyph::Small(_) => true,
            Glyph::Block(b) => b.len() > 0,
        }
    }
}

/// Whether an object can be made from `data` for `can` and is then well
/// formed.
pub fn data_fits(data: &ObjectData, can: &Canvas) -> (r: bool)
    ensures
        r == (data_ok(*data, *can) && data_wf(*data)),
{
    match data {
        ObjectData::Sprite { glyph, .. } => match glyph {
            GlyphType::Single(_) => true,
            GlyphType::Multi { frames, .. } => frames.len() > 0,
        },
        ObjectData::Text { data: td, style, .. } => match td {
            TextType::Single(t) => layout_fits(t, style, can),
            TextType::Multi { frames, .. } => {
                assert(data_wf(*data) <==> (frames@.len() > 0 && forall|i: int|
                    0 <= i < frames@.len() ==> super::textbox::size_fits(
                        (#[trigger] frames@[i]).text_lines(),
                        frames@[i].box_style(),
                    )));
                if frames.len() == 0 {
                    return false;
                }
                let mut i: usize = 0;
                while i < frames.len()
                    invariant
                        0 <= i <= frames@.len(),
                        data_ok(*data, *can),
                        frames@.len() > 0,
                        data_wf(*data) <==> (forall|i: int|
                            0 <= i < frames@.len() ==> super::textbox::size_fits(
                                (#[trigger] frames@[i]).text_lines(),
                                frames@[i].box_style(),
                            )),
                        forall|j: int| 0 <= j < i ==> super::textbox::size_fits(
                            (#[trigger] frames@[j]).text_lines(),
                            frames@[j].box_style(),
                        ),
                    decreases frames@.len() - i,
                {
                    if !frames[i].size_fits() {
                        assert(!super::textbox::size_fits(frames@[i as int].text_lines(), frames@[i as int].box_style()));
                        return false;
                    }
                    i += 1;
                }
                true
            },
        },
    }
}

/// The camera shows only what lies on its own depth: a text box or a
/// sprite whose z differs from the camera's is never shown. A sprite on
/// the camera's depth is shown exactly when its position lies inside the
/// camera's box, edges included.
pub proof fn law_camera_shows_its_depth(cam: CameraState, o: Object, can: Canvas)
    ensures
        shows(cam, o, can) ==> object_pos(o).z == cam.z,
        o is Sprite && object_pos(o).z == cam.z ==> (shows(cam, o, can) <==> (cam.x <= object_pos(o).x
            <= cam.x + wrap_i32(cam.width as int) && cam.y <= object_pos(o).y <= cam.y + wrap_i32(
            cam.height as int,
        ))),
{
}

/// Cutting an object against the camera keeps exactly the part inside the
/// camera: what is cut off on the left and top brings the object's left
/// and top edges (its position) up to the camera's, what is cut off on
/// the right and bottom brings its right and bottom edges (position plus
/// width and height) down to the camera's, and nothing is cut from a side
/// that lies inside. A plan starts writing at that first visible cell,
/// counted from the camera's corner.
pub proof fn law_cuts_clip_to_camera(o: Object, can: Canvas, cam: CameraState, plan: DrawPlan)
    ensures
        ({
            let p = object_pos(o);
            let right = p.x + wrap_i32(object_width(o, can));
            let bottom = p.y + wrap_i32(object_height(o, can));
            let cam_right = cam.x + wrap_i32(cam.width as int);
            let cam_bottom = cam.y + wrap_i32(cam.height as int);
            let d = cuts(o, can, cam);
            &&& d.0 >= 0 && d.1 >= 0 && d.2 >= 0 && d.3 >= 0
            &&& p.x + d.0 == if p.x >= cam.x { p.x as int } else { cam.x as int }
            &&& p.y + d.2 == if p.y >= cam.y { p.y as int } else { cam.y as int }
            &&& right - d.1 == if right <= cam_right { right } else { cam_right }
            &&& bottom - d.3 == if bottom <= cam_bottom { bottom } else { cam_bottom }
            &&& plan_of(plan, o, can, cam) ==> {
                &&& plan.cursor_x == (if p.x >= cam.x { p.x as int } else { cam.x as int }) - cam.x
                &&& plan.cursor_y == (if p.y >= cam.y { p.y as int } else { cam.y as int }) - cam.y
                &&& plan.screen_x == p.x - cam.x && plan.screen_y == p.y - cam.y
            }
        }),
{
}

} // verus!
