use super::menu::{emit, shows_lines};
use super::style::{Coloring, Style};
use crate::render::character::Character;
use crate::render::layer::RenderUnitId;
use crate::render::renderer::RenderSignal;
use crate::render::text::Text;
use crate::types::positions::Position;
use std::sync::Arc;
use vstd::prelude::*;

verus! {

/// An option of a selector: its label and the value it stands for.
#[derive(Debug)]
pub struct SelectorItem {
    pub label: Text,
    pub value: usize,
}

impl SelectorItem {
    pub fn new(l: Text, v: usize) -> (r: Self)
        ensures
            r.label@ == l@,
            r.value == v,
    {
        Self { label: l, value: v }
    }
}

/// Whether the options are laid out in a column or a row.
#[derive(Debug, Clone, Copy, PartialEq, Eq, Structural)]
pub enum SelectionDirection {
    Vertical,
    Horizontal,
}

/// How a selector is being used.
#[derive(Debug, Clone, Copy, PartialEq, Eq, Structural)]
pub enum SelectorState {
    NoState,
    Hovered,
    Selected,
}

/// A row or column of options with a cursor; one option can be chosen.
#[derive(Debug)]
pub struct Selector {
    render_id: Option<Arc<RenderUnitId>>,
    pos: Position<i32>,
    style: Style,
    items: Vec<SelectorItem>,
    state: SelectorState,
    select_color: Coloring,
    hover_color: Coloring,
    direction: SelectionDirection,
    selected: Option<usize>,
    cursor: usize,
}

/// The rows a selector shows: in a column, one label per row; in a row,
/// every label followed by a space.
pub open spec fn selector_rows(labels: Seq<Seq<Character>>, dir: SelectionDirection, space: Character) -> Seq<Seq<Character>> {
    match dir {
        SelectionDirection::Vertical => labels,
        SelectionDirection::Horizontal => seq![spaced(labels, labels.len() as int, space)],
    }
}

/// The first `n` labels, each followed by `space`.
pub open spec fn spaced(labels: Seq<Seq<Character>>, n: int, space: Character) -> Seq<Character>
    decreases n,
{
    if n <= 0 {
        Seq::empty()
    } else {
        spaced(labels, n - 1, space) + labels[n - 1] + seq![space]
    }
}

impl Selector {
    pub closed spec fn render_handle(&self) -> Option<Arc<RenderUnitId>> {
        self.render_id
    }

    pub closed spec fn labels(&self) -> Seq<Seq<Character>> {
        self.items@.map_values(|it: SelectorItem| it.label@)
    }

    pub closed spec fn cursor(&self) -> int {
        self.cursor as int
    }

    pub closed spec fn selection(&self) -> Option<usize> {
        self.selected
    }

    pub closed spec fn spec_pos(&self) -> Position<i32> {
        self.pos
    }

    pub closed spec fn spec_style(&self) -> Style {
        self.style
    }

    pub closed spec fn direction(&self) -> SelectionDirection {
        self.direction
    }

    pub open spec fn space(&self) -> Character {
        Character::make(' ', self.spec_style().color.foreground, self.spec_style().color.background)
    }

    /// A selector with the cursor on the first option and nothing chosen.
    pub fn new(
        x: i32,
        y: i32,
        style: Style,
        select_color: Coloring,
        hover_color: Coloring,
        direction: SelectionDirection,
        items: Vec<SelectorItem>,
    ) -> (r: Self)
        ensures
            r.render_handle() is None,
            r.spec_pos() == (Position { x, y }),
            r.spec_style() == style,
            r.direction() == direction,
            r.labels() == items@.map_values(|it: SelectorItem| it.label@),
            r.cursor() == 0,
            r.selection() is None,
    {
        Self {
            render_id: None,
            pos: Position { x, y },
            style,
            select_color,
            hover_color,
            state: SelectorState::NoState,
            items,
            direction,
            cursor: 0,
            selected: None,
        }
    }

    /// Moves the cursor to the next option, round to the first, while
    /// nothing is chosen.
    pub fn next(&mut self)
        requires
            old(self).selection() is None ==> old(self).labels().len() > 0,
        ensures
            final(self).cursor() == if old(self).selection() is None {
                (old(self).cursor() + 1) % (old(self).labels().len() as int)
            } else {
                old(self).cursor()
            },
            final(self).selection() == old(self).selection(),
            final(self).labels() == old(self).labels(),
    {
        if self.selected.is_none() {
            let n = self.items.len();
            assert(self.labels().len() == n);
            self.cursor = ((self.cursor as u128 + 1) % n as u128) as usize;
        }
    }

    /// Moves the cursor to the previous option, round to the last, while an
    /// option is chosen.
    pub fn prev(&mut self)
        requires
            old(self).selection() is Some ==> old(self).labels().len() > 0,
        ensures
            final(self).cursor() == if old(self).selection() is Some {
                if old(self).cursor() == 0 {
                    old(self).labels().len() - 1
                } else {
                    old(self).cursor() - 1
                }
            } else {
                old(self).cursor()
            },
            final(self).selection() == old(self).selection(),
            final(self).labels() == old(self).labels(),
    {
        if !self.selected.is_none() {
            if self.cursor == 0 {
                assert(self.labels().len() == self.items@.len());
                self.cursor = self.items.len() - 1;
            } else {
                self.cursor -= 1;
            }
        }
    }

    fn rows(&self) -> (r: Vec<Text>)
        ensures
            r@.map_values(|l: Text| l@) == selector_rows(self.labels(), self.direction(), self.space()),
    {
        let sp = Character::new(' ', self.style.fg(), self.style.bg());
        match self.direction {
            SelectionDirection::Horizontal => {
                let mut t: Text = Text::from("", self.style.fg(), self.style.bg());
                proof {
                    reveal_strlit("");
                }
                let mut i: usize = 0;
                while i < self.items.len()
                    invariant
                        0 <= i <= self.items@.len(),
                        sp == self.space(),
                        t@ == spaced(self.labels(), i as int, self.space()),
                    decreases self.items@.len() - i,
                {
                    t.join(self.items[i].label.clone());
                    t.push(sp);
                    assert(self.labels()[i as int] == self.items@[i as int].label@);
                    assert(t@ =~= spaced(self.labels(), i + 1, self.space()));
                    i += 1;
                }
                let mut v: Vec<Text> = Vec::new();
                v.push(t);
                assert(v@.map_values(|l: Text| l@) =~= selector_rows(self.labels(), self.direction(), self.space()));
                v
            },
            SelectionDirection::Vertical => {
                let mut v: Vec<Text> = Vec::new();
                let mut i: usize = 0;
                while i < self.items.len()
                    invariant
                        0 <= i <= self.items@.len(),
                        v@.len() == i,
                        forall|j: int| 0 <= j < i ==> (#[trigger] v@[j])@ == self.labels()[j],
                    decreases self.items@.len() - i,
                {
                    v.push(self.items[i].label.clone());
                    i += 1;
                }
                assert(v@.map_values(|l: Text| l@) =~= selector_rows(self.labels(), self.direction(), self.space()));
                v
            },
        }
    }

    /// The signal that shows the selector (see `selector_rows`).
    pub fn output(&mut self) -> (r: RenderSignal)
        ensures
            shows_lines(r, old(self).render_handle() is Some, old(self).spec_pos(), selector_rows(old(self).labels(), old(self).direction(), old(self).space()), old(self).spec_style()),
            final(self).render_handle() is Some,
            old(self).render_handle() is Some ==> final(self).render_handle() == old(self).render_handle(),
            final(self).labels() == old(self).labels(),
            final(self).cursor() == old(self).cursor(),
            final(self).selection() == old(self).selection(),
    {
        let out = self.rows();
        let style = self.style.clone();
        emit(&mut self.render_id, self.pos, out, style)
    }

    /// Chooses the option under the cursor, or clears the choice.
    pub fn toggle_select(&mut self)
        ensures
            final(self).selection() == if old(self).selection() is None {
                Some(old(self).cursor() as usize)
            } else {
                None
            },
            final(self).cursor() == old(self).cursor(),
            final(self).labels() == old(self).labels(),
    {
        if self.selected.is_none() {
            self.selected = Some(self.cursor);
        } else {
            self.selected = None;
        }
    }

    pub fn get_selected(&self) -> (r: Option<usize>)
        ensures
            r == self.selection(),
    {
        self.selected
    }
}

/// A selector in a column shows one label per row, as they are; in a
/// row, it shows one row with the labels in order, each followed by a
/// space, and grows by a label and a space with every label added.
pub proof fn law_selector_rows(labels: Seq<Seq<Character>>, label: Seq<Character>, space: Character)
    ensures
        selector_rows(labels, SelectionDirection::Vertical, space) == labels,
        selector_rows(labels, SelectionDirection::Horizontal, space).len() == 1,
        selector_rows(seq![label], SelectionDirection::Horizontal, space)[0] == label.push(space),
        selector_rows(labels.push(label), SelectionDirection::Horizontal, space)[0] == selector_rows(
            labels,
            SelectionDirection::Horizontal,
            space,
        )[0] + label.push(space),
{
    let one = seq![label];
    assert(spaced(one, 0, space) == Seq::<Character>::empty());
    assert(spaced(one, 1, space) =~= label.push(space));
    let more = labels.push(label);
    lemma_spaced_prefix(labels, label, space, labels.len() as int);
    assert(spaced(more, more.len() as int, space) =~= spaced(labels, labels.len() as int, space) + label.push(space));
}

proof fn lemma_spaced_prefix(labels: Seq<Seq<Character>>, label: Seq<Character>, space: Character, n: int)
    requires
        0 <= n <= labels.len(),
    ensures
        spaced(labels.push(label), n, space) == spaced(labels, n, space),
    decreases n,
{
    if n > 0 {
        lemma_spaced_prefix(labels, label, space, n - 1);
        assert(labels.push(label)[n - 1] == labels[n - 1]);
    }
}

} // verus!
