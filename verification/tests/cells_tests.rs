use ssh_colony::cells::{
    dwarf_object, hurt_dwarf_object, msg_fits, render_msg_disbatch, DynamicObject, Object, ObjectBuffer,
    ObjectPos, RenderMsg, StaticObject,
};
use ssh_colony::render::canvas::Canvas;
use std::time::Duration;

fn at(x: u32, y: u32) -> ObjectPos {
    ObjectPos { x, y }
}

fn still(s: &str) -> Object {
    Object::Static(StaticObject::new(s).unwrap())
}

fn grid() -> (Canvas, ObjectBuffer) {
    (Canvas::new(4, 3), ObjectBuffer::new(12))
}

fn shown(buf: &ObjectBuffer) -> Vec<Option<String>> {
    (0..buf.len()).map(|i| buf.sprite_at(i).map(|s| s.to_string())).collect()
}

#[test]
fn objects_refuse_empty_sprites() {
    assert!(StaticObject::new("").is_none());
    assert_eq!(StaticObject::new("x").unwrap().sprite(), "x");
    let tick = Duration::from_millis(5);
    assert!(DynamicObject::new(vec![], tick).is_none());
    assert!(DynamicObject::new(vec!["a".to_string(), String::new()], tick).is_none());
}

#[test]
fn moving_object_steps_through_frames() {
    let mut d = DynamicObject::new(vec!["a".to_string(), "b".to_string()], Duration::from_secs(60)).unwrap();
    assert_eq!(d.sprite(), "a");
    assert!(!d.step(false));
    assert_eq!(d.sprite(), "a");
    assert!(d.step(true));
    assert_eq!(d.sprite(), "b");
    assert!(d.step(true));
    assert_eq!(d.sprite(), "a");
    // a minute has not passed
    assert!(!d.update());
}

#[test]
fn dwarf_sprites() {
    assert_eq!(dwarf_object().sprite(), "\x1b[37mD");
    let mut hurt = hurt_dwarf_object(100);
    assert_eq!(hurt.sprite(), "\x1b[31mD");
    assert!(hurt.as_static().is_none());
    let d = hurt.as_dynamic().unwrap();
    assert_eq!(d.sprite.len(), 2);
    assert_eq!(d.sprite[1], "\x1b[37mD");
    assert_eq!(d.tick, Duration::from_millis(100));
    let copy = dwarf_object().duplicate();
    assert_eq!(copy.sprite(), "\x1b[37mD");
}

#[test]
fn insert_and_remove_cells() {
    let (can, mut buf) = grid();
    render_msg_disbatch(RenderMsg::Insert(at(1, 1), still("x")), &can, &mut buf);
    assert_eq!(buf.sprite_at(5), Some("x"));
    assert!(!buf.is_animated(5));
    render_msg_disbatch(RenderMsg::Insert(at(2, 0), hurt_dwarf_object(10)), &can, &mut buf);
    assert!(buf.is_animated(2));
    render_msg_disbatch(RenderMsg::Remove(at(1, 1)), &can, &mut buf);
    assert_eq!(buf.sprite_at(5), None);
}

#[test]
fn text_is_laid_out_cell_by_cell() {
    let (can, mut buf) = grid();
    render_msg_disbatch(RenderMsg::Insert(at(1, 0), still("o")), &can, &mut buf);
    let msg = RenderMsg::InsertText(at(0, 0), "a b\nc".to_string(), Some("<".to_string()), Some(">".to_string()));
    render_msg_disbatch(msg, &can, &mut buf);
    let s = shown(&buf);
    assert_eq!(s[0], Some("<a>".to_string()));
    // a space empties its cell
    assert_eq!(s[1], None);
    assert_eq!(s[2], Some("<b>".to_string()));
    // the line break takes a cell, then the next row starts at column 0
    assert_eq!(s[3], Some("<\n>".to_string()));
    assert_eq!(s[4], Some("<c>".to_string()));
}

#[test]
fn ranges_fill_blocks() {
    let (can, mut buf) = grid();
    render_msg_disbatch(RenderMsg::InsertRange(at(0, 0), at(2, 2), still("#")), &can, &mut buf);
    let filled: Vec<usize> = (0..12).filter(|&i| buf.sprite_at(i).is_some()).collect();
    assert_eq!(filled, vec![0, 1, 4, 5]);
    render_msg_disbatch(RenderMsg::RemoveRange(at(1, 1), at(0, 0)), &can, &mut buf);
    let filled: Vec<usize> = (0..12).filter(|&i| buf.sprite_at(i).is_some()).collect();
    assert_eq!(filled, vec![0, 1, 4]);
    // nothing spanned on one axis: nothing written
    render_msg_disbatch(RenderMsg::InsertRange(at(3, 0), at(3, 2), still("#")), &can, &mut buf);
    assert_eq!(buf.sprite_at(3), None);
}

#[test]
fn swap_batch_and_clear() {
    let (can, mut buf) = grid();
    let batch = RenderMsg::Batch(vec![
        RenderMsg::Insert(at(0, 0), still("a")),
        RenderMsg::Insert(at(0, 2), hurt_dwarf_object(10)),
        RenderMsg::Insert(at(1, 1), still("b")),
        RenderMsg::Remove(at(1, 1)),
    ]);
    render_msg_disbatch(batch, &can, &mut buf);
    assert_eq!(buf.sprite_at(0), Some("a"));
    assert_eq!(buf.sprite_at(5), None);
    assert!(buf.is_animated(8));
    // the second cell of a swap is counted with the height as row length
    render_msg_disbatch(RenderMsg::Swap(at(0, 0), at(1, 1)), &can, &mut buf);
    assert_eq!(buf.sprite_at(0), None);
    assert_eq!(buf.sprite_at(4), Some("a"));
    render_msg_disbatch(RenderMsg::Clear, &can, &mut buf);
    assert_eq!(buf.len(), 12);
    assert!(!buf.is_animated(8));
    assert_eq!(buf.sprite_at(4), Some("a"));
}

#[test]
fn frame_draws_every_cell() {
    let (can, mut buf) = grid();
    render_msg_disbatch(RenderMsg::Insert(at(1, 1), still("x")), &can, &mut buf);
    let row = "C C C C \r\n";
    let expected = format!("\x1b[H\x1b[0m{}C CxC C \r\n{}", row, row);
    assert_eq!(buf.frame(4, "C"), expected);
}

#[test]
fn tick_moves_objects_that_are_due() {
    let (can, mut buf) = grid();
    render_msg_disbatch(RenderMsg::Insert(at(0, 0), hurt_dwarf_object(0)), &can, &mut buf);
    render_msg_disbatch(RenderMsg::Insert(at(1, 0), still("s")), &can, &mut buf);
    assert!(buf.tick());
    assert_eq!(buf.sprite_at(0), Some("\x1b[37mD"));
    assert_eq!(buf.sprite_at(1), Some("s"));
    assert!(buf.tick());
    assert_eq!(buf.sprite_at(0), Some("\x1b[31mD"));
    // a slow object is not due yet, and a cleared grid animates nothing
    let (can2, mut slow) = grid();
    render_msg_disbatch(RenderMsg::Insert(at(0, 0), hurt_dwarf_object(60_000)), &can2, &mut slow);
    assert!(!slow.tick());
    render_msg_disbatch(RenderMsg::Clear, &can, &mut buf);
    assert!(!buf.tick());
    assert_eq!(buf.sprite_at(0), Some("\x1b[31mD"));
}

#[test]
fn messages_are_checked_against_the_grid() {
    let can = Canvas::new(4, 3);
    assert!(msg_fits(&RenderMsg::Insert(at(3, 2), still("x")), &can, 12));
    assert!(!msg_fits(&RenderMsg::Insert(at(0, 3), still("x")), &can, 12));
    assert!(msg_fits(&RenderMsg::InsertRange(at(0, 0), at(4, 3), still("#")), &can, 12));
    assert!(!msg_fits(&RenderMsg::RemoveRange(at(1, 2), at(5, 3)), &can, 12));
    assert!(msg_fits(&RenderMsg::InsertText(at(2, 1), "ab\ncd".to_string(), None, None), &can, 12));
    assert!(!msg_fits(&RenderMsg::InsertText(at(2, 2), "abc".to_string(), None, None), &can, 12));
    // the second cell of a swap is counted with the height as row length
    assert!(msg_fits(&RenderMsg::Swap(at(0, 0), at(0, 3)), &can, 12));
    assert!(!msg_fits(&RenderMsg::Swap(at(0, 0), at(0, 4)), &can, 12));
    let batch = RenderMsg::Batch(vec![RenderMsg::Remove(at(0, 0)), RenderMsg::Remove(at(0, 9))]);
    assert!(!msg_fits(&batch, &can, 12));
    assert!(msg_fits(&RenderMsg::Clear, &can, 12));
}

#[test]
fn one_frame_object_never_changes() {
    let mut d = DynamicObject::new(vec!["a".to_string()], Duration::from_millis(0)).unwrap();
    assert!(!d.step(true));
    assert!(!d.update());
    assert_eq!(d.sprite(), "a");
}
