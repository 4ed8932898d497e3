use ssh_colony::input::{Event, OtherEvent};
use ssh_colony::render::camera::Camera;
use ssh_colony::render::canvas::Canvas;
use ssh_colony::render::character::Character;
use ssh_colony::render::glyph::Glyph;
use ssh_colony::render::layer::{Layer, RenderUnitId};
use ssh_colony::render::object::{data_fits, GlyphType, Object, ObjectData, TextType};
use ssh_colony::render::renderer::{Effect, RenderSignal, Renderer};
use ssh_colony::render::sprite::Sprite;
use ssh_colony::render::text::Text;
use ssh_colony::render::textbox::{layout_fits, Base, Textbox};
use ssh_colony::types::positions::Position3D;
use ssh_colony::ui::border::{Border, BorderSprite, Padding};
use ssh_colony::ui::style::{Measure, Size, Style};

const ON: &str = "\x1b[38;5;7m\x1b[48;5;0m";
const OFF: &str = "\x1b[0m";

fn stacked(rows: &[&str]) -> String {
    let mut s = String::new();
    for (i, r) in rows.iter().enumerate() {
        s.push_str(ON);
        s.push_str(r);
        s.push_str(OFF);
        if i + 1 < rows.len() {
            s.push_str(&format!("\x1b[1B\x1b[{}D", r.chars().count()));
        }
    }
    s
}

fn lines(v: &[&str]) -> Vec<Text> {
    v.iter().map(|l| Text::from(l, 7, 0)).collect()
}

fn pos(x: i32, y: i32, z: i32) -> Position3D<i32> {
    Position3D::new(x, y, z)
}

#[test]
fn framed_box_rows() {
    let can = Canvas::new(80, 24);
    let style = Style::default()
        .set_border(Border::from(BorderSprite::Char('#'), Padding::square(0)))
        .set_size(Size::rect(Measure::Cell(6), Measure::Cell(5)));
    let ls = lines(&["ab", "c"]);
    assert!(layout_fits(&ls, &style, &can));
    let tb = Textbox::new_static(pos(0, 0, 0), ls, style, &can);
    assert_eq!(tb.width(&can), 6);
    assert_eq!(tb.height(&can), 5);
    let out = tb.slice(0, 0, 0, 0).render();
    assert_eq!(out, stacked(&[" #### ", "#ab  #", "#c   #", "#    #", " #### "]));
}

#[test]
fn plain_box_rows_and_alignment() {
    let can = Canvas::new(80, 24);
    let style = Style::default()
        .set_size(Size::rect(Measure::Cell(5), Measure::Cell(3)))
        .set_justify(ssh_colony::ui::style::Justify::Center)
        .set_align(ssh_colony::ui::style::Align::Center);
    let ls = lines(&["ab"]);
    let tb = Textbox::new_static(pos(0, 0, 0), ls, style, &can);
    let out = tb.slice(0, 0, 0, 0).render();
    // three spare columns: two before, one after; two spare rows: one each way
    assert_eq!(out, stacked(&["     ", "  ab ", "     "]));
}

#[test]
fn box_height_counts_longest_line() {
    let can = Canvas::new(80, 24);
    let ls = lines(&["hello"]);
    let tb = Textbox::new_static(pos(0, 0, 0), ls, Style::default(), &can);
    assert_eq!(tb.width(&can), 5);
    assert_eq!(tb.height(&can), 5);
}

#[test]
fn layout_refuses_what_does_not_fit() {
    let can = Canvas::new(80, 24);
    let style = Style::default().set_size(Size::rect(Measure::Cell(2), Measure::Cell(2)));
    assert!(!layout_fits(&lines(&["abc"]), &style, &can));
    assert!(layout_fits(&lines(&["ab"]), &style, &can));
    let tall = Style::default().set_size(Size::rect(Measure::Cell(4), Measure::Cell(1)));
    assert!(!layout_fits(&lines(&["a", "b"]), &tall, &can));
}

#[test]
fn textbox_insert_and_push() {
    let can = Canvas::new(80, 24);
    let mut tb = Textbox::new_static(pos(0, 0, 0), lines(&["ac"]), Style::default(), &can);
    tb.insert(0, 1, &[Character::new('b', 7, 0)], &can);
    tb.push(Text::from("xyz", 7, 0), &can);
    let out = tb.slice(0, 0, 0, 0).render();
    assert_eq!(out, stacked(&["abc", "xyz", "   "]));
}

#[test]
fn sprite_sizes() {
    let s = Sprite::new_static(Glyph::small(Character::new('D', 7, 0)), pos(1, 2, 0));
    assert_eq!(s.width(), 1);
    assert_eq!(s.height(), 1);
    let block = Glyph::block(lines(&["ab", "cd", "ef"]));
    let d = Sprite::new_dynamic(vec![block], pos(0, 0, 0), std::time::Duration::from_millis(5));
    assert_eq!(d.width(), 2);
    assert_eq!(d.height(), 3);
    assert!(d.is_dynamic());
}

#[test]
fn sprite_moves() {
    let mut s = Sprite::new_static(Glyph::small(Character::new('D', 7, 0)), pos(1, 2, 0));
    s.move_pos(pos(3, -4, 1));
    assert_eq!(s.pos(), pos(4, -2, 1));
}

#[test]
fn camera_sees_sprites_inside() {
    let cam = Camera::new(10, 5);
    let can = Canvas::new(10, 5);
    let inside = Object::new_sprite_static(Glyph::small(Character::new('x', 7, 0)), pos(10, 5, 0));
    let outside = Object::new_sprite_static(Glyph::small(Character::new('x', 7, 0)), pos(11, 0, 0));
    let deeper = Object::new_sprite_static(Glyph::small(Character::new('x', 7, 0)), pos(0, 0, 1));
    assert!(cam.in_view(&inside, &can));
    assert!(!cam.in_view(&outside, &can));
    assert!(!cam.in_view(&deeper, &can));
}

#[test]
fn camera_moves() {
    let mut cam = Camera::new(10, 5);
    cam.shift(2, 3, 0);
    assert_eq!((cam.x(), cam.y(), cam.z()), (2, 3, 0));
    cam.shrink(20, 1, 0);
    assert_eq!((cam.width(), cam.height()), (0, 4));
    cam.grow(1, 1, 1);
    assert_eq!((cam.width(), cam.height()), (1, 5));
    cam.set_pos(-1, -1, 4);
    let p = cam.get_screen_pos(pos(0, 0, 4));
    assert_eq!((p.x, p.y), (1, 1));
}

#[test]
fn draw_plan_cuts_what_is_off_camera() {
    let can = Canvas::new(80, 24);
    let mut cam = Camera::new(4, 10);
    cam.set_pos(2, 0, 0);
    let obj = Object::new_text_static(pos(0, 0, 0), lines(&["abcdef"]), Style::default(), &can);
    assert!(obj.can_draw(&can, &cam));
    let plan = obj.draw(&can, &cam).unwrap();
    assert_eq!(plan.l_delta, 2);
    assert_eq!(plan.r_delta, 0);
    assert_eq!((plan.cursor_x, plan.cursor_y), (0, 0));
    assert_eq!(plan.screen_x, -2);
}

fn text_data(x: i32, y: i32, l: &[&str]) -> ObjectData {
    ObjectData::Text { pos: pos(x, y, 0), data: TextType::Single(lines(l)), style: Style::default() }
}

#[test]
fn renderer_insert_frame_remove() {
    let mut r = Renderer::new(Canvas::new(20, 10));
    let id = RenderUnitId::new(Layer::Ui);
    let mut fx = Vec::new();
    r.dispatch(RenderSignal::Insert(id.clone(), text_data(0, 0, &["hi"])), &mut fx);
    assert!(fx.is_empty());
    assert_eq!(id.load(), 1);
    let f = r.frame();
    assert_eq!(f.count, 1);
    assert_eq!(f.ui.keys, vec![1]);
    assert_eq!(f.ui.plans[0].content, stacked(&["hi", "  "]));
    r.dispatch(RenderSignal::Remove(id.clone()), &mut fx);
    assert_eq!(r.frame().count, 0);
}

#[test]
fn renderer_ids_count_up_per_layer() {
    let mut r = Renderer::new(Canvas::new(20, 10));
    let mut fx = Vec::new();
    let a = RenderUnitId::new(Layer::Foreground);
    let b = RenderUnitId::new(Layer::Foreground);
    let c = RenderUnitId::new(Layer::Background);
    r.dispatch(RenderSignal::Insert(a.clone(), text_data(0, 0, &["a"])), &mut fx);
    r.dispatch(RenderSignal::Insert(b.clone(), text_data(1, 0, &["b"])), &mut fx);
    r.dispatch(RenderSignal::Insert(c.clone(), text_data(2, 0, &["c"])), &mut fx);
    assert_eq!((a.load(), b.load(), c.load()), (1, 2, 1));
    assert_eq!(r.frame().count, 3);
}

#[test]
fn renderer_size_change_sends_event() {
    let mut r = Renderer::new(Canvas::new(20, 10));
    let mut fx = Vec::new();
    r.dispatch(RenderSignal::TermSizeChange(30, 12), &mut fx);
    assert_eq!(fx.len(), 1);
    match &fx[0] {
        Effect::Send(Event::Other(OtherEvent::ScreenSizeChange { width, height })) => {
            assert_eq!((*width, *height), (30, 12));
        }
        _ => panic!("expected a size change"),
    }
    assert_eq!(r.frame().canvas, Canvas::new(30, 12));
}

#[test]
fn renderer_refuses_unknown_move_and_clears() {
    let mut r = Renderer::new(Canvas::new(20, 10));
    let mut fx = Vec::new();
    let ghost_id = RenderUnitId::from_usize(7, Layer::Middleground);
    r.dispatch(RenderSignal::Move(std::sync::Arc::new(ghost_id), pos(1, 1, 0)), &mut fx);
    assert!(matches!(fx[0], Effect::Refused));
    let id = RenderUnitId::new(Layer::Middleground);
    r.dispatch(
        RenderSignal::Batch(vec![
            RenderSignal::Insert(id.clone(), text_data(0, 0, &["x"])),
            RenderSignal::Clear,
        ]),
        &mut fx,
    );
    assert!(matches!(fx[1], Effect::ClearScreen));
    assert_eq!(r.frame().count, 0);
}

#[test]
fn renderer_move_and_layer_change() {
    let mut r = Renderer::new(Canvas::new(20, 10));
    let mut fx = Vec::new();
    let id = RenderUnitId::new(Layer::Foreground);
    r.dispatch(RenderSignal::Insert(id.clone(), text_data(0, 0, &["x"])), &mut fx);
    r.dispatch(RenderSignal::Move(id.clone(), pos(3, 2, 0)), &mut fx);
    let f = r.frame();
    assert_eq!(f.foreground.plans[0].l_edge, 3);
    assert_eq!(f.foreground.plans[0].t_edge, 2);
    r.dispatch(RenderSignal::MoveLayer(id.clone(), Layer::Background), &mut fx);
    let f = r.frame();
    assert_eq!(f.foreground.count, 0);
    assert_eq!(f.background.count, 1);
    assert!(fx.is_empty());
}

#[test]
fn renderer_refuses_bad_layout() {
    let mut r = Renderer::new(Canvas::new(20, 10));
    let mut fx = Vec::new();
    let style = Style::default().set_size(Size::rect(Measure::Cell(1), Measure::Cell(1)));
    let data = ObjectData::Text { pos: pos(0, 0, 0), data: TextType::Single(lines(&["toolong"])), style };
    assert!(!data_fits(&data, &Canvas::new(20, 10)));
    r.dispatch(RenderSignal::Insert(RenderUnitId::new(Layer::Ui), data), &mut fx);
    assert!(matches!(fx[0], Effect::Refused));
    let empty = ObjectData::Sprite { pos: pos(0, 0, 0), glyph: GlyphType::Multi { frames: vec![], tick_rate: std::time::Duration::from_millis(1) } };
    r.dispatch(RenderSignal::Insert(RenderUnitId::new(Layer::Ui), empty), &mut fx);
    assert!(matches!(fx[1], Effect::Refused));
    assert_eq!(r.frame().count, 0);
}

#[test]
fn textbox_render_prints_rows() {
    let can = Canvas::new(80, 24);
    let tb = Textbox::new_static(pos(0, 0, 0), lines(&["ab"]), Style::default(), &can);
    let expected = format!("{ON}ab{OFF}[1B[2D\n{ON}  {OFF}");
    assert_eq!(tb.render(), expected);
}

#[test]
fn base_measures() {
    let can = Canvas::new(80, 24);
    let style = Style::default()
        .set_border(Border::from(BorderSprite::Char('#'), Padding::rectangle(1, 0)))
        .set_size(Size::rect(Measure::Cell(8), Measure::Cell(4)));
    let b = Base::new(lines(&["ab", "c"]), style, &can);
    assert_eq!(b.max_text_len(&can), 4);
    assert_eq!(b.v_alignments(&can), (0, 0));
    assert_eq!(b.h_alignments(0, &can), (0, 2));
    assert_eq!(b.h_alignments(1, &can), (0, 3));
}

#[test]
fn sprite_first_update_starts_clock() {
    let a = Glyph::small(Character::new('a', 7, 0));
    let b = Glyph::small(Character::new('b', 7, 0));
    let mut d = Sprite::new_dynamic(vec![a, b], pos(0, 0, 0), std::time::Duration::from_nanos(0));
    // the first update only starts the clock
    assert!(!d.update());
    let start = std::time::Instant::now();
    while start.elapsed() < std::time::Duration::from_millis(1) {}
    assert!(d.update());
    // a still sprite never moves
    let mut s = Sprite::new_static(Glyph::small(Character::new('D', 7, 0)), pos(1, 2, 0));
    assert!(!s.update());
}

#[test]
fn renderer_tick_without_animation_is_quiet() {
    let can = Canvas::new(20, 10);
    let mut r = Renderer::new(can);
    let mut effects = Vec::new();
    r.dispatch(RenderSignal::Insert(RenderUnitId::new(Layer::Foreground), text_data(1, 1, &["hi"])), &mut effects);
    assert!(!r.tick());
}

#[test]
fn renderer_sequence_goes_in_order() {
    let mut r = Renderer::new(Canvas::new(20, 10));
    let mut fx = Vec::new();
    r.dispatch(
        RenderSignal::Sequence(vec![
            RenderSignal::SetCamera(pos(1, 1, 0)),
            RenderSignal::SetCamera(pos(2, 2, 0)),
            RenderSignal::SetCamera(pos(3, 3, 0)),
        ]),
        &mut fx,
    );
    let f = r.frame();
    assert_eq!((f.cam.x, f.cam.y), (3, 3));
    assert!(fx.is_empty());
}

#[test]
fn renderer_batch_goes_first_then_from_the_back() {
    let mut r = Renderer::new(Canvas::new(20, 10));
    let mut fx = Vec::new();
    r.dispatch(
        RenderSignal::Batch(vec![
            RenderSignal::SetCamera(pos(1, 1, 0)),
            RenderSignal::SetCamera(pos(2, 2, 0)),
            RenderSignal::SetCamera(pos(3, 3, 0)),
        ]),
        &mut fx,
    );
    let f = r.frame();
    assert_eq!((f.cam.x, f.cam.y), (2, 2));
    r.dispatch(
        RenderSignal::Batch(vec![
            RenderSignal::TermSizeChange(30, 12),
            RenderSignal::Redraw,
            RenderSignal::Clear,
            RenderSignal::MoveCamera(pos(1, 0, 0)),
        ]),
        &mut fx,
    );
    assert_eq!(fx.len(), 2);
    assert!(matches!(fx[0], Effect::Send(_)));
    assert!(matches!(fx[1], Effect::ClearScreen));
    assert_eq!(r.frame().cam.x, 3);
}
