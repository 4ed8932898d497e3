use ssh_colony::render::character::Character as Char;
use ssh_colony::render::text::Text;

#[test]
fn text_basic_test() {
    let text = Text::from("hello", 2, 0);
    println!("{}", text.render())
}

#[test]
fn text_multicolor_test() {
    let mut text = Text::from("Mulicolor Text", 2, 0);
    text.insert(9, Char::new(',', 0, 1));
    println!("{}", text.render());
}

#[test]
fn text_join_test() {
    let mut a = Text::from("Hello, ", 2, 1);
    let b = Text::from("World!", 1, 2);
    a.join(b);
    println!("{}", a.render());
}

#[test]
fn text_render_exact() {
    let text = Text::from("hi", 2, 0);
    assert_eq!(text.render(), "\x1b[38;5;2m\x1b[48;5;0mhi\x1b[0m");
}

#[test]
fn text_render_color_change() {
    let mut text = Text::from("ab", 2, 0);
    text.insert(1, Char::new(',', 0, 1));
    assert_eq!(
        text.render(),
        "\x1b[38;5;2m\x1b[48;5;0ma\x1b[38;5;0m\x1b[48;5;1m,\x1b[38;5;2m\x1b[48;5;0mb\x1b[0m"
    );
}

#[test]
fn text_join_then_split_gives_back_parts() {
    let mut a = Text::from("Hello, ", 2, 1);
    let b = Text::from("World!", 1, 2);
    a.join(b);
    assert_eq!(a.len(), 13);
    let (left, right) = a.split(7);
    assert_eq!(left.to_string(), "Hello, ");
    assert_eq!(right.to_string(), "World!");
}

#[test]
fn text_insert_then_remove() {
    let mut t = Text::from("abc", 1, 0);
    t.insert(1, Char::new('x', 3, 4));
    assert_eq!(t.to_string(), "axbc");
    let c = t.remove(1);
    assert_eq!(c.as_char(), 'x');
    assert_eq!(t.to_string(), "abc");
}
