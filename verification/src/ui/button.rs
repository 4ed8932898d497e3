use super::menu::{emit, shows_lines};
use super::style::{Coloring, Style};
use crate::render::character::Character;
use crate::render::layer::RenderUnitId;
use crate::render::renderer::RenderSignal;
use crate::render::text::Text;
use crate::types::positions::Position;
use std::sync::Arc;
use vstd::prelude::*;

verus! {

/// A labelled button that runs an action.
pub struct Button<F> {
    render_id: Option<Arc<RenderUnitId>>,
    text: Vec<Text>,
    style: Style,
    pos: Position<i32>,
    select_color: Coloring,
    selected: bool,
    action: F,
}

impl<F> Button<F> {
    pub closed spec fn render_handle(&self) -> Option<Arc<RenderUnitId>> {
        self.render_id
    }

    pub closed spec fn rows(&self) -> Seq<Seq<Character>> {
        self.text@.map_values(|t: Text| t@)
    }

    pub closed spec fn spec_pos(&self) -> Position<i32> {
        self.pos
    }

    pub closed spec fn spec_style(&self) -> Style {
        self.style
    }

    pub closed spec fn is_selected(&self) -> bool {
        self.selected
    }

    pub closed spec fn spec_action(&self) -> F {
        self.action
    }

    /// A button, not selected, not yet shown.
    pub fn new(pos: Position<i32>, text: Vec<Text>, style: Style, select_color: Coloring, action: F) -> (r: Self)
        ensures
            r.render_handle() is None,
            r.rows() == text@.map_values(|t: Text| t@),
            r.spec_pos() == pos,
            r.spec_style() == style,
            !r.is_selected(),
            r.spec_action() == action,
    {
        Self { render_id: None, text, pos, style, select_color, selected: false, action }
    }

    /// The colors the button is drawn in: the selection colors when it is
    /// selected, else the style's.
    fn current_colors(&self) -> (r: (u8, u8))
        ensures
            r == if self.is_selected() {
                (self.select_color.foreground, self.select_color.background)
            } else {
                (self.spec_style().color.foreground, self.spec_style().color.background)
            },
    {
        if self.selected {
            (self.select_color.foreground, self.select_color.background)
        } else {
            (self.style.fg(), self.style.bg())
        }
    }

    /// The signal that shows the button's lines.
    pub fn output(&mut self) -> (r: RenderSignal)
        ensures
            shows_lines(r, old(self).render_handle() is Some, old(self).spec_pos(), old(self).rows(), old(self).spec_style()),
            final(self).render_handle() is Some,
            old(self).render_handle() is Some ==> final(self).render_handle() == old(self).render_handle(),
            final(self).rows() == old(self).rows(),
            final(self).is_selected() == old(self).is_selected(),
    {
        let _colors = self.current_colors();
        let mut lines: Vec<Text> = Vec::new();
        let mut i: usize = 0;
        while i < self.text.len()
            invariant
                0 <= i <= self.text@.len(),
                lines@.len() == i,
                forall|j: int| 0 <= j < i ==> (#[trigger] lines@[j])@ == self.text@[j]@,
            decreases self.text@.len() - i,
        {
            lines.push(self.text[i].clone());
            i += 1;
        }
        assert(lines@.map_values(|t: Text| t@) =~= self.rows());
        let style = self.style.clone();
        emit(&mut self.render_id, self.pos, lines, style)
    }

    /// Selects or unselects the button and gives the signal that shows it.
    pub fn toggle_select(&mut self) -> (r: RenderSignal)
        ensures
            final(self).is_selected() == !old(self).is_selected(),
            final(self).rows() == old(self).rows(),
            shows_lines(r, old(self).render_handle() is Some, old(self).spec_pos(), old(self).rows(), old(self).spec_style()),
    {
        self.selected = !self.selected;
        self.output()
    }
}

impl<F> Button<F> {
    /// Runs the action on `input`.
    pub fn execute<I, O>(&self, input: I) -> (r: O)
        where
            F: Fn(I) -> O,
        requires
            call_requires(self.spec_action(), (input,)),
        ensures
            call_ensures(self.spec_action(), (input,), r),
    {
        (self.action)(input)
    }
}

} // verus!
