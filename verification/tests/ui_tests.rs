use ssh_colony::input::KeyEvent;
use ssh_colony::render::canvas::Canvas;
use ssh_colony::render::layer::Layer;
use ssh_colony::render::object::{ObjectData, TextType};
use ssh_colony::render::renderer::RenderSignal;
use ssh_colony::render::text::Text;
use ssh_colony::types::positions::Position;
use ssh_colony::ui::button::Button;
use ssh_colony::ui::menu::{Item, Menu};
use ssh_colony::ui::selector::{SelectionDirection, Selector, SelectorItem};
use ssh_colony::ui::style::{Coloring, Measure, Style};
use ssh_colony::ui::textbox::TextArea;

/// The rows a signal shows, whether it inserts or updates, and the layer of
/// an inserted id.
fn rows(sig: RenderSignal) -> (Vec<String>, bool, Option<Layer>) {
    let (data, insert, layer) = match sig {
        RenderSignal::Insert(id, d) => (d, true, Some(id.layer())),
        RenderSignal::Update(_, d) => (d, false, None),
        other => panic!("unexpected signal {:?}", other),
    };
    match data {
        ObjectData::Text { data: TextType::Single(v), .. } => {
            (v.iter().map(|t| t.to_string()).collect(), insert, layer)
        }
        other => panic!("unexpected data {:?}", other),
    }
}

fn one() -> i32 {
    1
}

fn two() -> i32 {
    2
}

fn menu() -> Menu<fn() -> i32> {
    let items = vec![
        Item::new(Text::from("a", 7, 0), one as fn() -> i32),
        Item::new(Text::from("b", 7, 0), two as fn() -> i32),
    ];
    Menu::new(3, 4, Style::default(), items)
}

#[test]
fn menu_shows_cursor_on_first_row() {
    let mut m = menu();
    let (r, insert, layer) = rows(m.output());
    assert_eq!(r, vec!["> a".to_string(), "  b".to_string()]);
    assert!(insert);
    assert_eq!(layer, Some(Layer::Ui));
    // shown again: an update under the same id
    let (_, insert, _) = rows(m.output());
    assert!(!insert);
    assert_eq!((m.x(), m.y()), (3, 4));
}

#[test]
fn menu_cursor_moves_within_entries() {
    let mut m = menu();
    assert!(m.cursor_up(1).is_none());
    let (r, _, _) = rows(m.cursor_down(1).unwrap());
    assert_eq!(r, vec!["  a".to_string(), "> b".to_string()]);
    assert!(m.cursor_down(1).is_none());
    assert_eq!(m.execute(), 2);
    assert!(m.cursor_up(2).is_none());
    let (r, _, _) = rows(m.cursor_up(1).unwrap());
    assert_eq!(r, vec!["> a".to_string(), "  b".to_string()]);
    assert_eq!(m.execute(), 1);
}

#[test]
fn menu_add_shift_and_width() {
    let mut m = menu();
    let (r, _, _) = rows(m.add(Item::new(Text::from("ccc", 7, 0), one as fn() -> i32)));
    assert_eq!(r, vec!["> a".to_string(), "  b".to_string(), "  ccc".to_string()]);
    let can = Canvas::new(80, 24);
    // longest label and the cursor columns on both sides
    assert_eq!(m.width(&can), 3 + 4);
    let _ = m.shift(2, -1);
    assert_eq!((m.x(), m.y()), (5, 3));
    assert_eq!(m.cursor_pos(), Position::new(5, 3));
}

fn selector(dir: SelectionDirection) -> Selector {
    let items = vec![
        SelectorItem::new(Text::from("x", 7, 0), 10),
        SelectorItem::new(Text::from("yy", 7, 0), 20),
        SelectorItem::new(Text::from("z", 7, 0), 30),
    ];
    Selector::new(0, 0, Style::default(), Coloring::new(1, 2), Coloring::new(3, 4), dir, items)
}

#[test]
fn selector_rows_by_direction() {
    let mut v = selector(SelectionDirection::Vertical);
    let (r, _, _) = rows(v.output());
    assert_eq!(r, vec!["x".to_string(), "yy".to_string(), "z".to_string()]);
    let mut h = selector(SelectionDirection::Horizontal);
    let (r, _, _) = rows(h.output());
    assert_eq!(r, vec!["x yy z ".to_string()]);
}

#[test]
fn selector_selects_under_cursor() {
    let mut s = selector(SelectionDirection::Vertical);
    s.next();
    s.next();
    s.next();
    // wrapped round to the first entry, then one more
    s.next();
    s.toggle_select();
    assert_eq!(s.get_selected(), Some(1));
    // while selected, next does nothing and prev steps back
    s.next();
    s.prev();
    s.prev();
    s.toggle_select();
    assert_eq!(s.get_selected(), None);
    s.toggle_select();
    assert_eq!(s.get_selected(), Some(2));
}

fn add_one(x: i32) -> i32 {
    x + 1
}

#[test]
fn button_toggles_and_runs_action() {
    let mut b = Button::new(
        Position::new(1, 1),
        vec![Text::from("ok", 7, 0)],
        Style::default(),
        Coloring::new(0, 7),
        add_one as fn(i32) -> i32,
    );
    let (r, insert, _) = rows(b.toggle_select());
    assert_eq!(r, vec!["ok".to_string()]);
    assert!(insert);
    let (_, insert, _) = rows(b.toggle_select());
    assert!(!insert);
    assert_eq!(b.execute::<i32, i32>(41), 42);
}

fn area() -> TextArea {
    TextArea::new(0, 0, '|', Style::default().set_width(Measure::Cell(10)), None)
}

fn typed(a: &mut TextArea, can: &Canvas, keys: &[KeyEvent]) -> Option<RenderSignal> {
    let mut last = None;
    for k in keys {
        last = a.process_key(k.clone(), can);
    }
    last
}

#[test]
fn text_area_typing_and_backspace() {
    let can = Canvas::new(80, 24);
    let mut a = area();
    assert_eq!(a.max_len_value(&can), 9);
    let sig = typed(&mut a, &can, &[KeyEvent::Char('h'), KeyEvent::Char('i')]).unwrap();
    assert_eq!(a.get_value(), vec!["hi".to_string()]);
    let (r, insert, _) = rows(sig);
    assert_eq!(r, vec!["hi|".to_string()]);
    // the first key showed the area; the second updates it
    assert!(!insert);
    typed(&mut a, &can, &[KeyEvent::Left, KeyEvent::Char('o')]);
    assert_eq!(a.get_value(), vec!["hoi".to_string()]);
    typed(&mut a, &can, &[KeyEvent::Right, KeyEvent::Backspace]);
    assert_eq!(a.get_value(), vec!["ho".to_string()]);
    // keys that are not handled show nothing
    assert!(a.process_key(KeyEvent::Tab, &can).is_none());
}

#[test]
fn text_area_enter_and_join() {
    let can = Canvas::new(80, 24);
    let mut a = area();
    typed(&mut a, &can, &[KeyEvent::Char('a'), KeyEvent::Char('b'), KeyEvent::Enter]);
    // at the end of the line: an empty line above, cursor on the next row
    assert_eq!(a.get_value(), vec!["".to_string(), "ab".to_string()]);
    let sig = typed(&mut a, &can, &[KeyEvent::Up, KeyEvent::Char('c')]).unwrap();
    assert_eq!(a.get_value(), vec!["c".to_string(), "ab".to_string()]);
    let (r, _, _) = rows(sig);
    assert_eq!(r, vec!["c|".to_string(), "ab".to_string()]);
}
