use ssh_colony::input::{
    check_event_input, parse_number, poll_event, Event, KeyEvent, MouseButton, MouseData,
    MouseEvent, MousePos, OtherEvent,
};

fn key(b: &[u8]) -> Option<Event> {
    assert!(check_event_input(b));
    poll_event(b)
}

#[test]
fn arrow_and_function_keys() {
    assert_eq!(key(&[27, 91, 65]), Some(Event::Keyboard(KeyEvent::Up)));
    assert_eq!(key(&[27, 91, 66]), Some(Event::Keyboard(KeyEvent::Down)));
    assert_eq!(key(&[27, 91, 67]), Some(Event::Keyboard(KeyEvent::Right)));
    assert_eq!(key(&[27, 91, 68]), Some(Event::Keyboard(KeyEvent::Left)));
    assert_eq!(key(&[27, 79, 80]), Some(Event::Keyboard(KeyEvent::F(1))));
    assert_eq!(key(&[27, 91, 50, 52, 126]), Some(Event::Keyboard(KeyEvent::F(12))));
}

#[test]
fn single_bytes() {
    assert_eq!(key(b"a"), Some(Event::Keyboard(KeyEvent::Char('a'))));
    assert_eq!(key(b" "), Some(Event::Keyboard(KeyEvent::Char(' '))));
    assert_eq!(key(&[10]), Some(Event::Keyboard(KeyEvent::Enter)));
    assert_eq!(key(&[27]), Some(Event::Keyboard(KeyEvent::Escape)));
    assert_eq!(key(&[127]), Some(Event::Keyboard(KeyEvent::Backspace)));
    assert_eq!(key(&[8]), Some(Event::Keyboard(KeyEvent::Backspace)));
    assert_eq!(key(&[9]), Some(Event::Keyboard(KeyEvent::Tab)));
    assert_eq!(key(&[1]), None);
    assert_eq!(key(b"ab"), None);
}

#[test]
fn sgr_mouse_reports() {
    let pressed = key(b"\x1b[<0;12;7M");
    assert_eq!(
        pressed,
        Some(Event::Mouse(MouseEvent::Pressed(MouseData {
            button: MouseButton::Left,
            pos: MousePos { x: 12, y: 7 },
        })))
    );
    let released = key(b"\x1b[<2;3;4m");
    assert_eq!(
        released,
        Some(Event::Mouse(MouseEvent::Release(MouseData {
            button: MouseButton::Middle,
            pos: MousePos { x: 3, y: 4 },
        })))
    );
    let dragged = key(b"\x1b[<17;5;6M");
    assert_eq!(
        dragged,
        Some(Event::Mouse(MouseEvent::Move(MouseData {
            button: MouseButton::Right,
            pos: MousePos { x: 5, y: 6 },
        })))
    );
    assert_eq!(key(b"\x1b[<0;x;7M"), None);
}

#[test]
fn x10_mouse_reports() {
    // no button: a release at (1, 2)
    assert_eq!(
        key(&[27, 91, 77, 35, 33, 34]),
        Some(Event::Mouse(MouseEvent::Release(MouseData {
            button: MouseButton::NoButton,
            pos: MousePos { x: 1, y: 2 },
        })))
    );
    // a press of the left button is not understood
    assert_eq!(key(&[27, 91, 77, 32, 33, 34]), None);
}

#[test]
fn size_reports() {
    assert_eq!(
        key(b"\x1b[8;24;80t"),
        Some(Event::Other(OtherEvent::ScreenSizeChange { width: 80, height: 24 }))
    );
    assert!(!check_event_input(b"\x1b[8;24t"));
    assert!(!check_event_input(b"\x1b[8;a;80t"));
}

#[test]
fn refuses_bad_mouse_utf8() {
    assert!(!check_event_input(&[27, 91, 60, 0xff, 77]));
    assert!(!check_event_input(&[27, 91, 60]));
}

#[test]
fn number_parsing() {
    assert_eq!(parse_number(b"123", 1000), Some(123));
    assert_eq!(parse_number(b"+7", 10), Some(7));
    assert_eq!(parse_number(b"1001", 1000), None);
    assert_eq!(parse_number(b"", 10), None);
    assert_eq!(parse_number(b"+", 10), None);
    assert_eq!(parse_number(b"1a", 10), None);
}

#[test]
fn event_descriptions() {
    assert_eq!(Event::Keyboard(KeyEvent::Alt('x')).describe(), "Alt-x");
    assert_eq!(Event::Keyboard(KeyEvent::F(11)).describe(), "F11");
    assert_eq!(Event::Keyboard(KeyEvent::Up).describe(), "Up Arrow");
    let m = MouseData { button: MouseButton::NoButton, pos: MousePos { x: 4, y: 9 } };
    assert_eq!(Event::Mouse(MouseEvent::Move(m)).describe(), "Moved(4,9)");
    let d = MouseData { button: MouseButton::Left, pos: MousePos { x: 1, y: 2 } };
    assert_eq!(Event::Mouse(MouseEvent::Move(d.clone())).describe(), "Dragged(Left,1,2)");
    assert_eq!(Event::Mouse(MouseEvent::Pressed(d)).describe(), "Left Button Pressed");
    assert_eq!(
        Event::Other(OtherEvent::ScreenSizeChange { width: 80, height: 24 }).describe(),
        "Screen Size changed to (80,24)"
    );
    assert_eq!(Event::Other(OtherEvent::Unknown("q".to_string())).describe(), "Unknown (q)");
}
