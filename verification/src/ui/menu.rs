use super::border::{border_width, Border};
use super::style::{measure_len_capped, Style};
use crate::render::canvas::Canvas;
use crate::render::character::Character;
use crate::render::layer::{id_layer, Layer, RenderUnitId};
use crate::render::object::{ObjectData, TextType};
use crate::render::renderer::RenderSignal;
use crate::render::text::{longest, longest_len, Text};
use crate::types::positions::{Position, Position3D};
use std::sync::Arc;
use vstd::prelude::*;

verus! {

/// The columns before each label: the cursor and a space, or two spaces.
pub const CURSOR_OFFSET: usize = 2;

/// The columns a menu adds to its longest label.
pub const TOTAL_OFFSET: usize = 4;

/// The signal that shows a widget's lines: an insertion under a new
/// interface id the first time, an update under the same id after.
pub open spec fn shows_lines(
    sig: RenderSignal,
    had_id: bool,
    pos: Position<i32>,
    rows: Seq<Seq<Character>>,
    style: Style,
) -> bool {
    let data_ok = |d: ObjectData|
        d matches ObjectData::Text { pos: p, data: TextType::Single(t), style: s } && p == Position3D {
            x: pos.x,
            y: pos.y,
            z: 0,
        } && t@.map_values(|l: Text| l@) == rows && s == style;
    if had_id {
        sig matches RenderSignal::Update(_, d) && data_ok(d)
    } else {
        sig matches RenderSignal::Insert(id, d) && id_layer(*id) == Layer::Ui && data_ok(d)
    }
}

/// Shows `lines` at `pos` in `style` under the widget's render id, making
/// an interface id the first time.
pub fn emit(render_id: &mut Option<Arc<RenderUnitId>>, pos: Position<i32>, lines: Vec<Text>, style: Style) -> (r: RenderSignal)
    ensures
        *final(render_id) is Some,
        *old(render_id) is Some ==> *final(render_id) == *old(render_id),
        shows_lines(r, *old(render_id) is Some, pos, lines@.map_values(|l: Text| l@), style),
{
    let data = ObjectData::Text { pos: Position3D { x: pos.x, y: pos.y, z: 0 }, data: TextType::Single(lines), style };
    match render_id {
        Some(id) => RenderSignal::Update(id.clone(), data),
        None => {
            let id = RenderUnitId::new(Layer::Ui);
            *render_id = Some(id.clone());
            RenderSignal::Insert(id, data)
        },
    }
}

/// An entry of a menu: a label and what choosing it does.
#[derive(Debug)]
pub struct Item<F> {
    pub label: Text,
    pub action: F,
}

impl<F> Item<F> {
    pub fn new(l: Text, f: F) -> (r: Self)
        ensures
            r.label@ == l@,
            r.action == f,
    {
        Self { label: l, action: f }
    }

    /// The labels, in order.
    pub fn lines(matrix: &Vec<Self>) -> (r: Vec<Text>)
        ensures
            r@.len() == matrix@.len(),
            forall|i: int| 0 <= i < matrix@.len() ==> (#[trigger] r@[i])@ == matrix@[i].label@,
    {
        let mut v: Vec<Text> = Vec::new();
        let mut i: usize = 0;
        while i < matrix.len()
            invariant
                0 <= i <= matrix@.len(),
                v@.len() == i,
                forall|j: int| 0 <= j < i ==> (#[trigger] v@[j])@ == matrix@[j].label@,
            decreases matrix@.len() - i,
        {
            v.push(matrix[i].label.clone());
            i += 1;
        }
        v
    }
}

/// A list of entries with a cursor on one of them.
#[derive(Debug)]
pub struct Menu<F> {
    render_id: Option<Arc<RenderUnitId>>,
    marker: Character,
    style: Style,
    position: Position<i32>,
    items: Vec<Item<F>>,
    cursor: usize,
    max_per_page: u16,
    page: u16,
}

/// The rows a menu shows: each label after the cursor and a space, or two
/// spaces.
pub open spec fn menu_rows(labels: Seq<Seq<Character>>, cursor: int, marker: Character, space: Character) -> Seq<Seq<Character>> {
    Seq::new(
        labels.len(),
        |i: int| (if i == cursor { seq![marker, space] } else { seq![space, space] }) + labels[i],
    )
}

impl<F> Menu<F> {
    /// The render id the menu is shown under, once it has been shown.
    pub closed spec fn render_handle(&self) -> Option<Arc<RenderUnitId>> {
        self.render_id
    }

    pub closed spec fn label_texts(&self) -> Seq<Text> {
        self.items@.map_values(|it: Item<F>| it.label)
    }

    pub closed spec fn labels(&self) -> Seq<Seq<Character>> {
        self.items@.map_values(|it: Item<F>| it.label@)
    }

    pub closed spec fn cursor(&self) -> int {
        self.cursor as int
    }

    pub closed spec fn spec_position(&self) -> Position<i32> {
        self.position
    }

    pub closed spec fn spec_style(&self) -> Style {
        self.style
    }

    /// The number of entries a page holds.
    pub closed spec fn per_page(&self) -> u16 {
        self.max_per_page
    }

    pub closed spec fn marker(&self) -> Character {
        self.marker
    }

    /// The blank that follows the cursor and fills the other rows.
    pub open spec fn space(&self) -> Character {
        Character::make(' ', self.spec_style().color.foreground, self.spec_style().color.background)
    }

    pub closed spec fn actions(&self) -> Seq<F> {
        self.items@.map_values(|it: Item<F>| it.action)
    }

    /// A menu at `(x, y)` with the cursor (`>`) on the first entry.
    pub fn new(x: i32, y: i32, style: Style, items: Vec<Item<F>>) -> (r: Self)
        ensures
            r.render_handle() is None,
            r.spec_position() == (Position { x, y }),
            r.marker() == Character::make('>', style.color.foreground, style.color.background),
            r.spec_style() == style,
            r.labels() == items@.map_values(|it: Item<F>| it.label@),
            r.actions() == items@.map_values(|it: Item<F>| it.action),
            r.cursor() == 0,
    {
        let marker = Character::new('>', style.fg(), style.bg());
        Self {
            render_id: None,
            position: Position { x, y },
            marker,
            style,
            items,
            cursor: 0,
            max_per_page: 0,
            page: 0,
        }
    }

    /// The rows the menu shows now.
    fn rows(&self) -> (r: Vec<Text>)
        ensures
            r@.map_values(|l: Text| l@) == menu_rows(self.labels(), self.cursor(), self.marker(), self.space()),
    {
        let sp = Character::new(' ', self.style.fg(), self.style.bg());
        let mut out: Vec<Text> = Vec::new();
        let mut i: usize = 0;
        while i < self.items.len()
            invariant
                0 <= i <= self.items@.len(),
                sp == self.space(),
                out@.len() == i,
                forall|j: int| 0 <= j < i ==> (#[trigger] out@[j])@ == menu_rows(self.labels(), self.cursor(), self.marker(), self.space())[j],
            decreases self.items@.len() - i,
        {
            let mut l = self.items[i].label.clone();
            if i == self.cursor {
                l.insert(0, self.marker);
                l.insert(1, sp);
            } else {
                l.insert(0, sp);
                l.insert(0, sp);
            }
            assert(self.labels()[i as int] == self.items@[i as int].label@);
            proof {
                let want = menu_rows(self.labels(), self.cursor(), self.marker(), self.space())[i as int];
                assert(l@ =~= want);
            }
            out.push(l);
            i += 1;
        }
        assert(out@.map_values(|l: Text| l@) =~= menu_rows(self.labels(), self.cursor(), self.marker(), self.space()));
        out
    }

    /// The signal that shows the menu as it is now (see `menu_rows`).
    pub fn output(&mut self) -> (r: RenderSignal)
        ensures
            shows_lines(r, old(self).render_handle() is Some, old(self).spec_position(), menu_rows(old(self).labels(), old(self).cursor(), old(self).marker(), old(self).space()), old(self).spec_style()),
            final(self).render_handle() is Some,
            old(self).render_handle() is Some ==> final(self).render_handle() == old(self).render_handle(),
            final(self).labels() == old(self).labels(),
            final(self).cursor() == old(self).cursor(),
            final(self).spec_position() == old(self).spec_position(),
            final(self).spec_style() == old(self).spec_style(),
            final(self).marker() == old(self).marker(),
            final(self).actions() == old(self).actions(),
    {
        let out = self.rows();
        let style = self.style.clone();
        emit(&mut self.render_id, self.position, out, style)
    }

    /// Moves the menu by `x` and `y` and gives the signal that shows it.
    pub fn shift(&mut self, x: i32, y: i32) -> (r: RenderSignal)
        requires
            i32::MIN <= old(self).spec_position().x + x <= i32::MAX,
            i32::MIN <= old(self).spec_position().y + y <= i32::MAX,
        ensures
            final(self).spec_position() == (Position {
                x: (old(self).spec_position().x + x) as i32,
                y: (old(self).spec_position().y + y) as i32,
            }),
            final(self).labels() == old(self).labels(),
            final(self).cursor() == old(self).cursor(),
            shows_lines(r, old(self).render_handle() is Some, final(self).spec_position(), menu_rows(old(self).labels(), old(self).cursor(), old(self).marker(), old(self).space()), old(self).spec_style()),
    {
        self.position.x = self.position.x + x;
        self.position.y = self.position.y + y;
        self.output()
    }

    pub fn style(&self) -> (r: &Style)
        ensures
            *r == self.spec_style(),
    {
        &self.style
    }

    pub fn x(&self) -> (r: i32)
        ensures
            r == self.spec_position().x,
    {
        self.position.x
    }

    pub fn y(&self) -> (r: i32)
        ensures
            r == self.spec_position().y,
    {
        self.position.y
    }

    /// The longest label's length (zero for no entries).
    fn largest_line(&self) -> (r: usize)
        ensures
            r == longest(self.label_texts()),
    {
        let labels = Item::lines(&self.items);
        let ghost want = self.label_texts();
        proof {
            lemma_longest_same(labels@, want);
        }
        longest_len(&labels)
    }

    /// The menu's width: the style's width, or else the longest label, the
    /// border's columns and the cursor columns on both sides.
    pub fn width(&self, canvas: &Canvas) -> (r: usize)
        requires
            self.spec_style().size.width is None ==> longest(self.label_texts())
                + (match self.spec_style().border {
                Some(b) => border_width(b),
                None => 0,
            }) + TOTAL_OFFSET <= usize::MAX,
        ensures
            r == match self.spec_style().size.width {
                Some(m) => measure_len_capped(m, canvas.width as nat) as int,
                None => longest(self.label_texts()) + (match self.spec_style().border {
                    Some(b) => border_width(b),
                    None => 0,
                }) + TOTAL_OFFSET,
            },
    {
        match &self.style.size.width {
            Some(w) => w.get(canvas.width),
            None => {
                let mut output: usize = 0;
                output += self.largest_line();
                if let Some(b) = &self.style.border {
                    output += b.width();
                }
                output += TOTAL_OFFSET;
                output
            },
        }
    }

    /// Where the cursor is drawn: on the cursor's row, inside the border
    /// and its padding (sizes through `as i32`).
    pub fn cursor_pos(&self) -> (r: Position<i32>)
        requires
            cursor_pos_fits(self.spec_position(), self.cursor(), self.spec_style().border),
        ensures
            r == cursor_at(self.spec_position(), self.cursor(), self.spec_style().border),
    {
        let c = as_i32(self.cursor);
        match &self.style.border {
            None => Position::new(self.position.x, self.position.y + c),
            Some(b) => Position::new(
                self.position.x + 1 + as_i32(b.l_pad()),
                self.position.y + 1 + as_i32(b.top_pad()) + c,
            ),
        }
    }

    /// Adds an entry at the end and gives the signal that shows the menu.
    pub fn add(&mut self, item: Item<F>) -> (r: RenderSignal)
        ensures
            final(self).labels() == old(self).labels().push(item.label@),
            final(self).actions() == old(self).actions().push(item.action),
            final(self).cursor() == old(self).cursor(),
            shows_lines(r, old(self).render_handle() is Some, old(self).spec_position(), menu_rows(final(self).labels(), old(self).cursor(), old(self).marker(), old(self).space()), old(self).spec_style()),
    {
        self.items.push(item);
        proof {
            assert(self.labels() =~= old(self).labels().push(item.label@));
            assert(self.actions() =~= old(self).actions().push(item.action));
        }
        self.output()
    }

    /// Moves the cursor up by `amount` entries if it stays on the menu;
    /// the signal that shows the menu when it moved.
    pub fn cursor_up(&mut self, amount: usize) -> (r: Option<RenderSignal>)
        ensures
            r is Some <==> old(self).cursor() >= amount,
            final(self).cursor() == if old(self).cursor() >= amount {
                old(self).cursor() - amount
            } else {
                old(self).cursor()
            },
            final(self).labels() == old(self).labels(),
            r matches Some(sig) ==> shows_lines(sig, old(self).render_handle() is Some, old(self).spec_position(), menu_rows(old(self).labels(), final(self).cursor(), old(self).marker(), old(self).space()), old(self).spec_style()),
    {
        if self.cursor >= amount {
            self.cursor -= amount;
            return Some(self.output());
        }
        None
    }

    /// Moves the cursor down by `amount` entries if it stays on the menu;
    /// the signal that shows the menu when it moved.
    pub fn cursor_down(&mut self, amount: usize) -> (r: Option<RenderSignal>)
        ensures
            r is Some <==> old(self).cursor() + amount < old(self).labels().len(),
            final(self).cursor() == if old(self).cursor() + amount < old(self).labels().len() {
                old(self).cursor() + amount
            } else {
                old(self).cursor()
            },
            final(self).labels() == old(self).labels(),
            r matches Some(sig) ==> shows_lines(sig, old(self).render_handle() is Some, old(self).spec_position(), menu_rows(old(self).labels(), final(self).cursor(), old(self).marker(), old(self).space()), old(self).spec_style()),
    {
        if amount < self.items.len() && self.cursor < self.items.len() - amount {
            self.cursor += amount;
            return Some(self.output());
        }
        None
    }

    /// The entries that fit on a page: the height left under the menu (or
    /// the style's share of it), less the border's rows.
    fn update_max_per_page(&mut self, canvas: &Canvas)
        requires
            0 <= old(self).spec_position().y <= canvas.height,
            old(self).spec_style().border matches Some(b) ==> super::border::border_height(b) <= usize::MAX,
            old(self).spec_style().border matches Some(b) ==> super::border::border_height(b) <= page_room(old(self).spec_style(), canvas.height - old(self).spec_position().y),
        ensures
            final(self).labels() == old(self).labels(),
            final(self).cursor() == old(self).cursor(),
            final(self).spec_position() == old(self).spec_position(),
            final(self).spec_style() == old(self).spec_style(),
            final(self).render_handle() == old(self).render_handle(),
            final(self).per_page() == (page_room(old(self).spec_style(), canvas.height - old(self).spec_position().y)
                - match old(self).spec_style().border {
                Some(b) => super::border::border_height(b),
                None => 0,
            }) as u16,
    {
        let room = canvas.height - self.position.y as usize;
        let mut max: usize = if let Some(h) = &self.style.size.height {
            h.get(room)
        } else {
            room
        };
        if let Some(b) = &self.style.border {
            max -= b.height();
        }
        self.max_per_page = max as u16;
    }
}

impl<F: Fn() -> O, O> Menu<F> {
    /// Runs the action of the entry under the cursor.
    pub fn execute(&mut self) -> (r: O)
        requires
            old(self).cursor() < old(self).labels().len(),
            call_requires(old(self).actions()[old(self).cursor()], ()),
        ensures
            call_ensures(old(self).actions()[old(self).cursor()], (), r),
    {
        assert(self.actions()[self.cursor()] == self.items@[self.cursor as int].action);
        (self.items[self.cursor].action)()
    }
}

/// The rows a page can take: the style's height of `room`, or all of it.
pub open spec fn page_room(style: Style, room: int) -> int {
    match style.size.height {
        Some(m) => measure_len_capped(m, room as nat) as int,
        None => room,
    }
}

/// Where the cursor of a menu at `pos` is drawn.
pub open spec fn cursor_at(pos: Position<i32>, cursor: int, border: Option<Border>) -> Position<i32> {
    match border {
        None => Position { x: pos.x, y: (pos.y + wrap(cursor)) as i32 },
        Some(b) => Position {
            x: (pos.x + 1 + wrap(b.padding.left as int)) as i32,
            y: (pos.y + 1 + wrap(b.padding.top as int) + wrap(cursor)) as i32,
        },
    }
}

/// The sums `cursor_at` takes fit in an `i32`.
pub open spec fn cursor_pos_fits(pos: Position<i32>, cursor: int, border: Option<Border>) -> bool {
    match border {
        None => i32::MIN <= pos.y + wrap(cursor) <= i32::MAX,
        Some(b) => {
            &&& i32::MIN <= pos.x + 1 <= i32::MAX
            &&& i32::MIN <= pos.x + 1 + wrap(b.padding.left as int) <= i32::MAX
            &&& i32::MIN <= pos.y + 1 <= i32::MAX
            &&& i32::MIN <= pos.y + 1 + wrap(b.padding.top as int) <= i32::MAX
            &&& i32::MIN <= pos.y + 1 + wrap(b.padding.top as int) + wrap(cursor) <= i32::MAX
        },
    }
}

/// `v` through `as i32`.
pub open spec fn wrap(v: int) -> int {
    crate::types::positions::wrap_i32(v)
}

fn as_i32(v: usize) -> (r: i32)
    ensures
        r as int == wrap(v as int),
{
    let r = v as i32;
    proof {
        assert(r as int == crate::types::positions::wrap_i32(v as int)) by (bit_vector)
            requires
                r == v as i32,
        ;
    }
    r
}

/// Two sequences of texts with the same characters have the same longest
/// line.
proof fn lemma_longest_same(a: Seq<Text>, b: Seq<Text>)
    requires
        a.len() == b.len(),
        forall|i: int| 0 <= i < a.len() ==> (#[trigger] a[i])@ == b[i]@,
    ensures
        longest(a) == longest(b),
    decreases a.len(),
{
    if a.len() > 0 {
        lemma_longest_same(a.drop_last(), b.drop_last());
        assert(a.last()@ == b.last()@);
    }
}

/// A menu shows one row per label: the label behind two cells, the first
/// of which is the marker on the cursor's row and a space on every other
/// row, the second always a space.
pub proof fn law_menu_marks_cursor_row(labels: Seq<Seq<Character>>, cursor: int, marker: Character, space: Character)
    ensures
        menu_rows(labels, cursor, marker, space).len() == labels.len(),
        forall|i: int|
            0 <= i < labels.len() ==> {
                let row = #[trigger] menu_rows(labels, cursor, marker, space)[i];
                &&& row.len() == labels[i].len() + 2
                &&& row.skip(2) == labels[i]
                &&& row[0] == if i == cursor { marker } else { space }
                &&& row[1] == space
            },
{
    assert forall|i: int| 0 <= i < labels.len() implies ({
        let row = #[trigger] menu_rows(labels, cursor, marker, space)[i];
        &&& row.len() == labels[i].len() + 2
        &&& row.skip(2) == labels[i]
        &&& row[0] == if i == cursor { marker } else { space }
        &&& row[1] == space
    }) by {
        let row = menu_rows(labels, cursor, marker, space)[i];
        assert(row.skip(2) =~= labels[i]);
    }
}

/// Where the cursor of a menu is drawn: without a border, in the menu's
/// column, as many rows down as the cursor; with one, one column and one
/// row further in for the border's sides, plus the left and top padding.
pub proof fn law_cursor_position(pos: Position<i32>, cursor: int, border: Option<Border>)
    requires
        cursor_pos_fits(pos, cursor, border),
        0 <= cursor <= i32::MAX,
        border matches Some(b) ==> b.padding.left <= i32::MAX && b.padding.top <= i32::MAX,
    ensures
        border is None ==> cursor_at(pos, cursor, border) == (Position { x: pos.x, y: (pos.y + cursor) as i32 }),
        border matches Some(b) ==> cursor_at(pos, cursor, border).x == pos.x + 1 + b.padding.left
            && cursor_at(pos, cursor, border).y == pos.y + 1 + b.padding.top + cursor,
{
    assert(crate::types::positions::wrap_i32(cursor) == cursor);
    if let Some(b) = border {
        assert(crate::types::positions::wrap_i32(b.padding.left as int) == b.padding.left);
        assert(crate::types::positions::wrap_i32(b.padding.top as int) == b.padding.top);
    }
}

} // verus!
