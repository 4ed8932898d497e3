use vstd::prelude::*;
use vstd::utf8::valid_utf8;
use crate::render::escape::{decimal, push_char, push_decimal};

verus! {

/// A key press.
#[derive(Debug, Clone, PartialEq, Eq)]
pub enum KeyEvent {
    /// Any printable value.
    Char(char),
    /// Control and a printable value.
    Control(char),
    /// Alt and a printable value.
    Alt(char),
    Enter,
    Tab,
    Backspace,
    Escape,
    Up,
    Down,
    Left,
    Right,
    /// A function key, F1 to F12.
    F(u8),
}

/// Events that are neither keys nor mouse events.
#[derive(Debug, Clone, PartialEq, Eq)]
pub enum OtherEvent {
    EnterFocus,
    LeaveFocus,
    ScreenSizeChange { width: u32, height: u32 },
    Unknown(String),
}

/// A mouse event.
#[derive(Debug, Clone, PartialEq, Eq)]
pub enum MouseEvent {
    Pressed(MouseData),
    Release(MouseData),
    Move(MouseData),
}

/// The button and position of a mouse event.
#[derive(Debug, Clone, PartialEq, Eq)]
pub struct MouseData {
    pub button: MouseButton,
    pub pos: MousePos,
}

/// A cell of the terminal, counted from one.
#[derive(Debug, Clone, PartialEq, Eq)]
pub struct MousePos {
    pub x: u16,
    pub y: u16,
}

#[derive(Debug, Clone, PartialEq, Eq)]
pub enum MouseButton {
    NoButton,
    Left,
    Right,
    Middle,
    Fourth,
    Fith,
}

#[derive(Debug, Clone, PartialEq, Eq)]
pub enum Modifier {
    Shift,
    Control,
    Alt,
}

/// An input event.
#[derive(Debug, Clone, PartialEq, Eq)]
pub enum Event {
    Keyboard(KeyEvent),
    Mouse(MouseEvent),
    Other(OtherEvent),
}

/// Whether `a` and `b` hold the same bytes.
pub fn eq_bytes(a: &[u8], b: &[u8]) -> (r: bool)
    ensures
        r == (a@ == b@),
{
    if a.len() != b.len() {
        return false;
    }
    let mut i: usize = 0;
    while i < a.len()
        invariant
            a@.len() == b@.len(),
            0 <= i <= a@.len(),
            forall|j: int| 0 <= j < i ==> a@[j] == b@[j],
        decreases a@.len() - i,
    {
        if a[i] != b[i] {
            return false;
        }
        i += 1;
    }
    assert(a@ =~= b@);
    true
}

/// Whether `s` begins with `prefix`.
pub open spec fn has_prefix(s: Seq<u8>, prefix: Seq<u8>) -> bool {
    prefix.len() <= s.len() && s.take(prefix.len() as int) == prefix
}

/// Whether `a` begins with the bytes of `prefix`.
pub fn starts_with(a: &[u8], prefix: &[u8]) -> (r: bool)
    ensures
        r == has_prefix(a@, prefix@),
{
    if prefix.len() > a.len() {
        return false;
    }
    let mut i: usize = 0;
    while i < prefix.len()
        invariant
            prefix@.len() <= a@.len(),
            0 <= i <= prefix@.len(),
            forall|j: int| 0 <= j < i ==> a@[j] == prefix@[j],
        decreases prefix@.len() - i,
    {
        if a[i] != prefix[i] {
            return false;
        }
        i += 1;
    }
    assert(a@.take(prefix@.len() as int) =~= prefix@);
    true
}

/// The start of an SGR mouse report: `ESC [ <`.
pub open spec fn sgr_mouse_prefix() -> Seq<u8> {
    seq![27u8, 91u8, 60u8]
}

/// The start of an X10 mouse report: `ESC [ M`.
pub open spec fn x10_mouse_prefix() -> Seq<u8> {
    seq![27u8, 91u8, 77u8]
}

/// The start of a terminal size report: `ESC [ 8 ;`.
pub open spec fn size_report_prefix() -> Seq<u8> {
    seq![27u8, 91u8, 56u8, 59u8]
}

/// The key that a fixed sequence of bytes stands for.
pub open spec fn fixed_key(seq: Seq<u8>) -> Option<KeyEvent> {
    if seq == seq![27u8, 91u8, 65u8] {
        Some(KeyEvent::Up)
    } else if seq == seq![27u8, 91u8, 66u8] {
        Some(KeyEvent::Down)
    } else if seq == seq![27u8, 91u8, 67u8] {
        Some(KeyEvent::Right)
    } else if seq == seq![27u8, 91u8, 68u8] {
        Some(KeyEvent::Left)
    } else if seq == seq![27u8, 79u8, 80u8] {
        Some(KeyEvent::F(1))
    } else if seq == seq![27u8, 91u8, 49u8, 49u8, 126u8] {
        Some(KeyEvent::F(1))
    } else if seq == seq![27u8, 91u8, 91u8, 65u8] {
        Some(KeyEvent::F(1))
    } else if seq == seq![27u8, 91u8, 77u8] {
        Some(KeyEvent::F(1))
    } else if seq == seq![27u8, 79u8, 81u8] {
        Some(KeyEvent::F(2))
    } else if seq == seq![27u8, 91u8, 49u8, 50u8, 126u8] {
        Some(KeyEvent::F(2))
    } else if seq == seq![27u8, 91u8, 91u8, 66u8] {
        Some(KeyEvent::F(2))
    } else if seq == seq![27u8, 91u8, 78u8] {
        Some(KeyEvent::F(2))
    } else if seq == seq![27u8, 79u8, 82u8] {
        Some(KeyEvent::F(3))
    } else if seq == seq![27u8, 91u8, 49u8, 51u8, 126u8] {
        Some(KeyEvent::F(3))
    } else if seq == seq![27u8, 91u8, 91u8, 67u8] {
        Some(KeyEvent::F(3))
    } else if seq == seq![27u8, 91u8, 79u8] {
        Some(KeyEvent::F(3))
    } else if seq == seq![27u8, 79u8, 83u8] {
        Some(KeyEvent::F(4))
    } else if seq == seq![27u8, 91u8, 49u8, 52u8, 126u8] {
        Some(KeyEvent::F(4))
    } else if seq == seq![27u8, 91u8, 91u8, 68u8] {
        Some(KeyEvent::F(4))
    } else if seq == seq![27u8, 91u8, 80u8] {
        Some(KeyEvent::F(4))
    } else if seq == seq![27u8, 91u8, 49u8, 53u8, 126u8] {
        Some(KeyEvent::F(5))
    } else if seq == seq![27u8, 91u8, 91u8, 69u8] {
        Some(KeyEvent::F(5))
    } else if seq == seq![27u8, 91u8, 81u8] {
        Some(KeyEvent::F(5))
    } else if seq == seq![27u8, 91u8, 49u8, 55u8, 126u8] {
        Some(KeyEvent::F(6))
    } else if seq == seq![27u8, 91u8, 82u8] {
        Some(KeyEvent::F(6))
    } else if seq == seq![27u8, 91u8, 49u8, 56u8, 126u8] {
        Some(KeyEvent::F(7))
    } else if seq == seq![27u8, 91u8, 83u8] {
        Some(KeyEvent::F(7))
    } else if seq == seq![27u8, 91u8, 49u8, 57u8, 126u8] {
        Some(KeyEvent::F(8))
    } else if seq == seq![27u8, 91u8, 84u8] {
        Some(KeyEvent::F(8))
    } else if seq == seq![27u8, 91u8, 50u8, 48u8, 126u8] {
        Some(KeyEvent::F(9))
    } else if seq == seq![27u8, 91u8, 85u8] {
        Some(KeyEvent::F(9))
    } else if seq == seq![27u8, 91u8, 50u8, 49u8, 126u8] {
        Some(KeyEvent::F(10))
    } else if seq == seq![27u8, 91u8, 86u8] {
        Some(KeyEvent::F(10))
    } else if seq == seq![27u8, 91u8, 50u8, 51u8, 126u8] {
        Some(KeyEvent::F(11))
    } else if seq == seq![27u8, 91u8, 87u8] {
        Some(KeyEvent::F(11))
    } else if seq == seq![27u8, 91u8, 50u8, 52u8, 126u8] {
        Some(KeyEvent::F(12))
    } else if seq == seq![27u8, 91u8, 88u8] {
        Some(KeyEvent::F(12))
    } else {
        None
    }
}

fn match_fixed_key(seq: &[u8]) -> (r: Option<KeyEvent>)
    ensures
        r == fixed_key(seq@),
{
    if eq_bytes(seq, &[27u8, 91, 65]) {
        return Some(KeyEvent::Up);
    }
    if eq_bytes(seq, &[27u8, 91, 66]) {
        return Some(KeyEvent::Down);
    }
    if eq_bytes(seq, &[27u8, 91, 67]) {
        return Some(KeyEvent::Right);
    }
    if eq_bytes(seq, &[27u8, 91, 68]) {
        return Some(KeyEvent::Left);
    }
    if eq_bytes(seq, &[27u8, 79, 80]) {
        return Some(KeyEvent::F(1));
    }
    if eq_bytes(seq, &[27u8, 91, 49, 49, 126]) {
        return Some(KeyEvent::F(1));
    }
    if eq_bytes(seq, &[27u8, 91, 91, 65]) {
        return Some(KeyEvent::F(1));
    }
    if eq_bytes(seq, &[27u8, 91, 77]) {
        return Some(KeyEvent::F(1));
    }
    if eq_bytes(seq, &[27u8, 79, 81]) {
        return Some(KeyEvent::F(2));
    }
    if eq_bytes(seq, &[27u8, 91, 49, 50, 126]) {
        return Some(KeyEvent::F(2));
    }
    if eq_bytes(seq, &[27u8, 91, 91, 66]) {
        return Some(KeyEvent::F(2));
    }
    if eq_bytes(seq, &[27u8, 91, 78]) {
        return Some(KeyEvent::F(2));
    }
    if eq_bytes(seq, &[27u8, 79, 82]) {
        return Some(KeyEvent::F(3));
    }
    if eq_bytes(seq, &[27u8, 91, 49, 51, 126]) {
        return Some(KeyEvent::F(3));
    }
    if eq_bytes(seq, &[27u8, 91, 91, 67]) {
        return Some(KeyEvent::F(3));
    }
    if eq_bytes(seq, &[27u8, 91, 79]) {
        return Some(KeyEvent::F(3));
    }
    if eq_bytes(seq, &[27u8, 79, 83]) {
        return Some(KeyEvent::F(4));
    }
    if eq_bytes(seq, &[27u8, 91, 49, 52, 126]) {
        return Some(KeyEvent::F(4));
    }
    if eq_bytes(seq, &[27u8, 91, 91, 68]) {
        return Some(KeyEvent::F(4));
    }
    if eq_bytes(seq, &[27u8, 91, 80]) {
        return Some(KeyEvent::F(4));
    }
    if eq_bytes(seq, &[27u8, 91, 49, 53, 126]) {
        return Some(KeyEvent::F(5));
    }
    if eq_bytes(seq, &[27u8, 91, 91, 69]) {
        return Some(KeyEvent::F(5));
    }
    if eq_bytes(seq, &[27u8, 91, 81]) {
        return Some(KeyEvent::F(5));
    }
    if eq_bytes(seq, &[27u8, 91, 49, 55, 126]) {
        return Some(KeyEvent::F(6));
    }
    if eq_bytes(seq, &[27u8, 91, 82]) {
        return Some(KeyEvent::F(6));
    }
    if eq_bytes(seq, &[27u8, 91, 49, 56, 126]) {
        return Some(KeyEvent::F(7));
    }
    if eq_bytes(seq, &[27u8, 91, 83]) {
        return Some(KeyEvent::F(7));
    }
    if eq_bytes(seq, &[27u8, 91, 49, 57, 126]) {
        return Some(KeyEvent::F(8));
    }
    if eq_bytes(seq, &[27u8, 91, 84]) {
        return Some(KeyEvent::F(8));
    }
    if eq_bytes(seq, &[27u8, 91, 50, 48, 126]) {
        return Some(KeyEvent::F(9));
    }
    if eq_bytes(seq, &[27u8, 91, 85]) {
        return Some(KeyEvent::F(9));
    }
    if eq_bytes(seq, &[27u8, 91, 50, 49, 126]) {
        return Some(KeyEvent::F(10));
    }
    if eq_bytes(seq, &[27u8, 91, 86]) {
        return Some(KeyEvent::F(10));
    }
    if eq_bytes(seq, &[27u8, 91, 50, 51, 126]) {
        return Some(KeyEvent::F(11));
    }
    if eq_bytes(seq, &[27u8, 91, 87]) {
        return Some(KeyEvent::F(11));
    }
    if eq_bytes(seq, &[27u8, 91, 50, 52, 126]) {
        return Some(KeyEvent::F(12));
    }
    if eq_bytes(seq, &[27u8, 91, 88]) {
        return Some(KeyEvent::F(12));
    }
    None
}

pub open spec fn is_digit(b: u8) -> bool {
    48 <= b <= 57
}

/// The number written by the decimal digits `s`.
pub open spec fn digits_value(s: Seq<u8>) -> nat
    decreases s.len(),
{
    if s.len() == 0 {
        0
    } else {
        digits_value(s.drop_last()) * 10 + (s.last() - 48) as nat
    }
}

/// The unsigned number that `s` spells, as Rust's `str::parse` reads an
/// unsigned integer: an optional `+`, then one or more decimal digits,
/// with a value at most `max`.
pub open spec fn parse_unsigned(s: Seq<u8>, max: nat) -> Option<nat> {
    if s.len() == 0 {
        None
    } else if digit_part(s).len() > 0 && all_digits(digit_part(s)) && digits_value(digit_part(s))
        <= max {
        Some(digits_value(digit_part(s)))
    } else {
        None
    }
}

/// `s` without a leading `+`.
pub open spec fn digit_part(s: Seq<u8>) -> Seq<u8> {
    if s.len() > 0 && s[0] == 43u8 {
        s.skip(1)
    } else {
        s
    }
}

pub open spec fn all_digits(d: Seq<u8>) -> bool {
    forall|i: int| 0 <= i < d.len() ==> is_digit(#[trigger] d[i])
}

proof fn lemma_digits_prefix_le(d: Seq<u8>, k: int)
    requires
        0 <= k <= d.len(),
        forall|i: int| 0 <= i < d.len() ==> is_digit(#[trigger] d[i]),
    ensures
        digits_value(d.take(k)) <= digits_value(d),
    decreases d.len(),
{
    if k < d.len() {
        let p = d.drop_last();
        assert(p.take(k) =~= d.take(k));
        lemma_digits_prefix_le(p, k);
    } else {
        assert(d.take(k) =~= d);
    }
}

/// The unsigned number that `s` spells (see `parse_unsigned`).
pub fn parse_number(s: &[u8], max: u64) -> (r: Option<u64>)
    requires
        max <= u32::MAX,
    ensures
        r matches Some(v) ==> parse_unsigned(s@, max as nat) == Some(v as nat),
        r is None ==> parse_unsigned(s@, max as nat) is None,
{
    if s.len() == 0 {
        return None;
    }
    let start: usize = if s[0] == 43u8 {
        1
    } else {
        0
    };
    let ghost d = s@.skip(start as int);
    assert(d =~= digit_part(s@));
    if start == s.len() {
        return None;
    }
    let mut acc: u64 = 0;
    let mut i: usize = start;
    while i < s.len()
        invariant
            s@.len() > 0,
            start == (if s@[0] == 43u8 { 1usize } else { 0usize }),
            start < s@.len(),
            d == s@.skip(start as int),
            d == digit_part(s@),
            start <= i <= s@.len(),
            max <= u32::MAX,
            acc <= max,
            forall|j: int| 0 <= j < i - start ==> is_digit(#[trigger] d[j]),
            acc == digits_value(d.take(i - start)),
        decreases s@.len() - i,
    {
        let b = s[i];
        if b < 48 || b > 57 {
            proof {
                assert(d[i - start] == b);
                assert(!is_digit(d[i - start]));
                assert(!all_digits(d));
            }
            return None;
        }
        assert(d.take(i - start + 1).drop_last() =~= d.take(i - start));
        acc = acc * 10 + (b - 48) as u64;
        if acc > max {
            proof {
                let k = i - start + 1;
                if all_digits(d) {
                    lemma_digits_prefix_le(d, k);
                }
            }
            return None;
        }
        i += 1;
    }
    assert(d.take(d.len() as int) =~= d);
    Some(acc)
}

/// The position of the first `sep` in `s`, or the length of `s`.
pub open spec fn first_sep(s: Seq<u8>, sep: u8) -> nat
    decreases s.len(),
{
    if s.len() == 0 {
        0
    } else if s[0] == sep {
        0
    } else {
        1 + first_sep(s.skip(1), sep)
    }
}

proof fn lemma_first_sep(s: Seq<u8>, sep: u8)
    ensures
        first_sep(s, sep) <= s.len(),
        first_sep(s, sep) < s.len() ==> s[first_sep(s, sep) as int] == sep,
        forall|j: int| 0 <= j < first_sep(s, sep) ==> s[j] != sep,
    decreases s.len(),
{
    if s.len() > 0 && s[0] != sep {
        lemma_first_sep(s.skip(1), sep);
        assert forall|j: int| 0 <= j < first_sep(s, sep) implies s[j] != sep by {
            if j > 0 {
                assert(s.skip(1)[j - 1] == s[j]);
            }
        }
    }
}

/// The fields of `s` between the bytes `sep`, as `str::split` yields them.
pub open spec fn split_on(s: Seq<u8>, sep: u8) -> Seq<Seq<u8>>
    decreases s.len(),
{
    let i = first_sep(s, sep);
    if i >= s.len() {
        seq![s]
    } else {
        seq![s.take(i as int)] + split_on(s.skip(i as int + 1), sep)
    }
}

/// The end of the field of `s` that starts at `start`: the position of
/// the next `sep`, or the length of `s`.
fn field_end(s: &[u8], start: usize, sep: u8) -> (r: usize)
    requires
        start <= s@.len(),
    ensures
        r == start + first_sep(s@.skip(start as int), sep),
        r <= s@.len(),
{
    let mut i = start;
    proof {
        lemma_first_sep(s@.skip(start as int), sep);
    }
    while i < s.len()
        invariant_except_break
            start <= i <= s@.len(),
            forall|j: int| start <= j < i ==> s@[j] != sep,
        ensures
            start <= i <= s@.len(),
            forall|j: int| start <= j < i ==> s@[j] != sep,
            i == s@.len() || s@[i as int] == sep,
        decreases s@.len() - i,
    {
        if s[i] == sep {
            break;
        }
        i += 1;
    }
    proof {
        let t = s@.skip(start as int);
        lemma_first_sep(t, sep);
        let f = first_sep(t, sep);
        if f < i - start {
            assert(t[f as int] == sep);
            assert(s@[start + f] == sep);
        }
        if f > i - start {
            assert(t[i - start] != sep);
            assert(s@[i as int] == sep);
        }
    }
    i
}

proof fn lemma_split_first(s: Seq<u8>, sep: u8)
    ensures
        split_on(s, sep).len() >= 1,
        split_on(s, sep)[0] == s.take(first_sep(s, sep) as int),
        first_sep(s, sep) < s.len() ==> split_on(s, sep).len() == 1 + split_on(
            s.skip(first_sep(s, sep) as int + 1),
            sep,
        ).len(),
        first_sep(s, sep) < s.len() ==> forall|k: int|
            1 <= k < split_on(s, sep).len() ==> #[trigger] split_on(s, sep)[k] == split_on(
                s.skip(first_sep(s, sep) as int + 1),
                sep,
            )[k - 1],
        first_sep(s, sep) >= s.len() ==> split_on(s, sep).len() == 1,
{
    lemma_first_sep(s, sep);
    if first_sep(s, sep) >= s.len() {
        assert(s.take(first_sep(s, sep) as int) =~= s);
    }
}

/// The bytes of `s[start..end]`.
fn sub_bytes(s: &[u8], start: usize, end: usize) -> (r: &[u8])
    requires
        start <= end <= s@.len(),
    ensures
        r@ == s@.subrange(start as int, end as int),
{
    &s[start..end]
}

/// The button of an SGR mouse report.
pub open spec fn sgr_button(cb: u8) -> MouseButton {
    let b = cb & 3u8;
    if b == 0 {
        MouseButton::Left
    } else if b == 1 {
        MouseButton::Right
    } else if b == 2 {
        MouseButton::Middle
    } else {
        MouseButton::NoButton
    }
}

/// The button of an X10 mouse report.
pub open spec fn x10_button(cb: u8) -> MouseButton {
    let b = cb & 3u8;
    if b == 0 {
        MouseButton::Left
    } else if b == 1 {
        MouseButton::Middle
    } else if b == 2 {
        MouseButton::Right
    } else {
        MouseButton::NoButton
    }
}

/// Whether a mouse report's button byte marks a motion.
pub open spec fn is_motion(cb: u8) -> bool {
    cb & 16u8 != 0
}

/// The mouse event that an SGR report `ESC [ < cb ; x ; y (M|m)` stands
/// for: `M` presses (or drags, when the motion bit is set), `m` releases.
pub open spec fn decode_sgr_mouse(seq: Seq<u8>) -> Option<MouseEvent> {
    let rest = seq.skip(3);
    let last = rest.last();
    if last != 109u8 && last != 77u8 {
        None
    } else {
        let f = split_on(rest.drop_last(), 59u8);
        if f.len() < 3 {
            None
        } else {
            match (parse_unsigned(f[0], 255), parse_unsigned(f[1], 65535), parse_unsigned(f[2], 65535)) {
                (Some(cb), Some(x), Some(y)) => {
                    let data = MouseData {
                        button: sgr_button(cb as u8),
                        pos: MousePos { x: x as u16, y: y as u16 },
                    };
                    if last == 77u8 {
                        if is_motion(cb as u8) {
                            Some(MouseEvent::Move(data))
                        } else {
                            Some(MouseEvent::Pressed(data))
                        }
                    } else {
                        Some(MouseEvent::Release(data))
                    }
                },
                _ => None,
            }
        }
    }
}

/// The mouse event that a six-byte X10 report `ESC [ M b x y` stands for
/// (each of `b`, `x`, `y` offset by 32): a motion moves; otherwise only a
/// report of no button is understood, as a release.
pub open spec fn decode_x10_mouse(seq: Seq<u8>) -> Option<MouseEvent> {
    let cb = seq[3].wrapping_sub(32);
    let pos = MousePos { x: seq[4].wrapping_sub(32) as u16, y: seq[5].wrapping_sub(32) as u16 };
    let button = x10_button(cb);
    if is_motion(cb) {
        Some(MouseEvent::Move(MouseData { button, pos }))
    } else if button == MouseButton::NoButton {
        Some(MouseEvent::Release(MouseData { button: MouseButton::NoButton, pos }))
    } else {
        None
    }
}

/// The mouse event that a mouse report stands for.
pub open spec fn decode_mouse(seq: Seq<u8>) -> Option<MouseEvent> {
    if has_prefix(seq, sgr_mouse_prefix()) {
        decode_sgr_mouse(seq)
    } else if has_prefix(seq, x10_mouse_prefix()) && seq.len() == 6 {
        decode_x10_mouse(seq)
    } else {
        None
    }
}

/// Whether a mouse report can be read: an SGR report must have a body
/// that is valid UTF-8 and not empty.
pub open spec fn mouse_input_ok(seq: Seq<u8>) -> bool {
    has_prefix(seq, sgr_mouse_prefix()) ==> seq.len() > 3 && valid_utf8(seq.skip(3))
}

/// The fields of a size report `ESC [ 8 ; rows ; cols t`.
pub open spec fn size_fields(seq: Seq<u8>) -> Seq<Seq<u8>> {
    split_on(seq.skip(4).drop_last(), 59u8)
}

/// Whether a size report ends in `t` and has two leading numeric fields.
pub open spec fn size_report_ok(seq: Seq<u8>) -> bool {
    &&& seq.len() > 4
    &&& seq.last() == 116u8
    &&& size_fields(seq).len() >= 2
    &&& parse_unsigned(size_fields(seq)[0], u32::MAX as nat) is Some
    &&& parse_unsigned(size_fields(seq)[1], u32::MAX as nat) is Some
}

/// The screen size that a size report announces: the second field is the
/// width, the first the height.
pub open spec fn decode_size(seq: Seq<u8>) -> Event {
    Event::Other(
        OtherEvent::ScreenSizeChange {
            width: parse_unsigned(size_fields(seq)[1], u32::MAX as nat)->0 as u32,
            height: parse_unsigned(size_fields(seq)[0], u32::MAX as nat)->0 as u32,
        },
    )
}

/// Whether `b` is a printable ASCII character or a space.
pub open spec fn is_printable(b: u8) -> bool {
    33 <= b <= 126 || b == 32
}

/// The event that a sequence of input bytes stands for.
pub open spec fn decode_event(seq: Seq<u8>) -> Option<Event> {
    if fixed_key(seq) is Some {
        Some(Event::Keyboard(fixed_key(seq)->0))
    } else if seq.len() == 1 && is_printable(seq[0]) {
        Some(Event::Keyboard(KeyEvent::Char(seq[0] as char)))
    } else if seq == seq![10u8] {
        Some(Event::Keyboard(KeyEvent::Enter))
    } else if seq == seq![27u8] {
        Some(Event::Keyboard(KeyEvent::Escape))
    } else if seq == seq![8u8] || seq == seq![127u8] {
        Some(Event::Keyboard(KeyEvent::Backspace))
    } else if seq == seq![9u8] {
        Some(Event::Keyboard(KeyEvent::Tab))
    } else if has_prefix(seq, x10_mouse_prefix()) || has_prefix(seq, sgr_mouse_prefix()) {
        match decode_mouse(seq) {
            Some(m) => Some(Event::Mouse(m)),
            None => None,
        }
    } else if has_prefix(seq, size_report_prefix()) {
        Some(decode_size(seq))
    } else {
        None
    }
}

/// Whether `poll_event` can read `seq`: mouse reports must be readable
/// and size reports well formed.
pub open spec fn event_input_ok(seq: Seq<u8>) -> bool {
    &&& mouse_input_ok(seq)
    &&& has_prefix(seq, size_report_prefix()) ==> size_report_ok(seq)
}

/// Whether `bytes` are valid UTF-8 (`std::str::from_utf8` succeeds).
#[verifier::external_body]
fn is_valid_utf8(bytes: &[u8]) -> (r: bool)
    ensures
        r == valid_utf8(bytes@),
{
    std::str::from_utf8(bytes).is_ok()
}

/// Whether `poll_event` can read `seq` (see `event_input_ok`).
pub fn check_event_input(seq: &[u8]) -> (r: bool)
    ensures
        r == event_input_ok(seq@),
{
    let mouse_ok = if starts_with(seq, &[27u8, 91, 60]) {
        seq.len() > 3 && is_valid_utf8(sub_bytes(seq, 3, seq.len()))
    } else {
        true
    };
    proof {
        assert(seq![27u8, 91u8, 60u8] =~= sgr_mouse_prefix());
        if seq@.len() > 3 {
            assert(seq@.subrange(3, seq@.len() as int) =~= seq@.skip(3));
        }
    }
    if !mouse_ok {
        return false;
    }
    if starts_with(seq, &[27u8, 91, 56, 59]) {
        assert(seq![27u8, 91u8, 56u8, 59u8] =~= size_report_prefix());
        size_report_fields(seq).is_some()
    } else {
        assert(seq![27u8, 91u8, 56u8, 59u8] =~= size_report_prefix());
        true
    }
}

/// The bounds of the first `count` fields of `s` between the bytes `sep`
/// (fewer when `s` has fewer fields).
fn field_bounds(s: &[u8], sep: u8, count: usize) -> (r: Vec<(usize, usize)>)
    ensures
        r@.len() == (if split_on(s@, sep).len() < count { split_on(s@, sep).len() } else { count as nat }),
        forall|k: int|
            0 <= k < r@.len() ==> {
                &&& (#[trigger] r@[k]).0 <= r@[k].1 <= s@.len()
                &&& s@.subrange(r@[k].0 as int, r@[k].1 as int) == split_on(s@, sep)[k]
            },
{
    let mut r: Vec<(usize, usize)> = Vec::new();
    let mut pos: usize = 0;
    let mut done = false;
    proof {
        assert(s@.skip(0) =~= s@);
    }
    while r.len() < count && !done
        invariant
            pos <= s@.len(),
            r@.len() <= count,
            !done ==> split_on(s@, sep).len() == r@.len() + split_on(s@.skip(pos as int), sep).len(),
            !done ==> forall|m: int|
                0 <= m < split_on(s@.skip(pos as int), sep).len() ==> split_on(s@, sep)[r@.len() + m]
                    == #[trigger] split_on(s@.skip(pos as int), sep)[m],
            done ==> split_on(s@, sep).len() == r@.len(),
            forall|k: int|
                0 <= k < r@.len() ==> {
                    &&& (#[trigger] r@[k]).0 <= r@[k].1 <= s@.len()
                    &&& s@.subrange(r@[k].0 as int, r@[k].1 as int) == split_on(s@, sep)[k]
                },
        decreases count - r@.len(), (if done { 0int } else { 1int }),
    {
        let ghost t = s@.skip(pos as int);
        let end = field_end(s, pos, sep);
        proof {
            lemma_split_first(t, sep);
            assert(s@.subrange(pos as int, end as int) =~= t.take(first_sep(t, sep) as int));
            assert(split_on(s@, sep)[r@.len() as int] == split_on(t, sep)[0]);
        }
        r.push((pos, end));
        if end >= s.len() {
            done = true;
        } else {
            proof {
                let t2 = s@.skip(end + 1);
                assert(t.skip(first_sep(t, sep) as int + 1) =~= t2);
                assert forall|m: int|
                    0 <= m < split_on(t2, sep).len() implies split_on(s@, sep)[r@.len() + m]
                        == #[trigger] split_on(t2, sep)[m] by {
                    assert(split_on(t, sep)[m + 1] == split_on(t2, sep)[m]);
                    assert(split_on(s@, sep)[(r@.len() - 1) + (m + 1)] == split_on(t, sep)[m + 1]);
                }
            }
            pos = end + 1;
        }
    }
    r
}

/// The height and width a size report announces, when it is well formed.
fn size_report_fields(seq: &[u8]) -> (r: Option<(u32, u32)>)
    requires
        has_prefix(seq@, size_report_prefix()),
    ensures
        r is Some <==> size_report_ok(seq@),
        r matches Some(p) ==> decode_size(seq@) == Event::Other(
            OtherEvent::ScreenSizeChange { width: p.1, height: p.0 },
        ),
{
    let n = seq.len();
    if n <= 4 || seq[n - 1] != 116u8 {
        return None;
    }
    let body = sub_bytes(seq, 4, n - 1);
    proof {
        assert(body@ =~= seq@.skip(4).drop_last());
    }
    let fields = field_bounds(body, 59u8, 2);
    if fields.len() < 2 {
        return None;
    }
    let f0 = sub_bytes(body, fields[0].0, fields[0].1);
    let f1 = sub_bytes(body, fields[1].0, fields[1].1);
    let h = parse_number(f0, 0xffff_ffff);
    let w = parse_number(f1, 0xffff_ffff);
    match (h, w) {
        (Some(h), Some(w)) => Some((h as u32, w as u32)),
        _ => None,
    }
}

/// The mouse event that an SGR report stands for.
fn sgr_mouse_event(seq: &[u8]) -> (r: Option<MouseEvent>)
    requires
        has_prefix(seq@, sgr_mouse_prefix()),
        seq@.len() > 3,
    ensures
        r == decode_sgr_mouse(seq@),
{
    let n = seq.len();
    let last = seq[n - 1];
    proof {
        assert(seq@.skip(3).last() == last);
    }
    if last != 109u8 && last != 77u8 {
        return None;
    }
    let body = sub_bytes(seq, 3, n - 1);
    proof {
        assert(body@ =~= seq@.skip(3).drop_last());
    }
    let fields = field_bounds(body, 59u8, 3);
    if fields.len() < 3 {
        return None;
    }
    let f0 = sub_bytes(body, fields[0].0, fields[0].1);
    let f1 = sub_bytes(body, fields[1].0, fields[1].1);
    let f2 = sub_bytes(body, fields[2].0, fields[2].1);
    let cb = parse_number(f0, 255);
    let cx = parse_number(f1, 65535);
    let cy = parse_number(f2, 65535);
    match (cb, cx, cy) {
        (Some(cb), Some(cx), Some(cy)) => {
            let cb = cb as u8;
            let btn = match cb & 3u8 {
                0 => MouseButton::Left,
                1 => MouseButton::Right,
                2 => MouseButton::Middle,
                _ => MouseButton::NoButton,
            };
            let data = MouseData { button: btn, pos: MousePos { x: cx as u16, y: cy as u16 } };
            if last == 77u8 {
                if cb & 16u8 != 0 {
                    Some(MouseEvent::Move(data))
                } else {
                    Some(MouseEvent::Pressed(data))
                }
            } else {
                Some(MouseEvent::Release(data))
            }
        },
        _ => None,
    }
}

/// The mouse event that a mouse report stands for.
pub fn parse_mouse_event(seq: &[u8]) -> (r: Option<MouseEvent>)
    requires
        mouse_input_ok(seq@),
    ensures
        r == decode_mouse(seq@),
{
    if starts_with(seq, &[27u8, 91, 60]) {
        assert(seq![27u8, 91u8, 60u8] =~= sgr_mouse_prefix());
        sgr_mouse_event(seq)
    } else if starts_with(seq, &[27u8, 91, 77]) && seq.len() == 6 {
        assert(seq![27u8, 91u8, 60u8] =~= sgr_mouse_prefix());
        assert(seq![27u8, 91u8, 77u8] =~= x10_mouse_prefix());
        let cb = seq[3].wrapping_sub(32);
        let cx = seq[4].wrapping_sub(32) as u16;
        let cy = seq[5].wrapping_sub(32) as u16;
        let button = match cb & 3u8 {
            0 => MouseButton::Left,
            1 => MouseButton::Middle,
            2 => MouseButton::Right,
            _ => MouseButton::NoButton,
        };
        let pos = MousePos { x: cx, y: cy };
        if cb & 16u8 != 0 {
            Some(MouseEvent::Move(MouseData { button, pos }))
        } else if matches!(button, MouseButton::NoButton) {
            Some(MouseEvent::Release(MouseData { button: MouseButton::NoButton, pos }))
        } else {
            None
        }
    } else {
        assert(seq![27u8, 91u8, 60u8] =~= sgr_mouse_prefix());
        assert(seq![27u8, 91u8, 77u8] =~= x10_mouse_prefix());
        None
    }
}

/// The screen size event that a size report stands for.
pub fn parse_terminal_size_change(seq: &[u8]) -> (r: Option<Event>)
    requires
        has_prefix(seq@, size_report_prefix()),
        size_report_ok(seq@),
    ensures
        r == Some(decode_size(seq@)),
{
    match size_report_fields(seq) {
        Some((h, w)) => Some(Event::Other(OtherEvent::ScreenSizeChange { width: w, height: h })),
        None => None,
    }
}

/// The event that a sequence of input bytes stands for, if any.
pub fn poll_event(seq: &[u8]) -> (r: Option<Event>)
    requires
        event_input_ok(seq@),
    ensures
        r == decode_event(seq@),
{
    if let Some(k) = match_fixed_key(seq) {
        return Some(Event::Keyboard(k));
    }
    if seq.len() == 1 {
        let b = seq[0];
        assert(seq@ =~= seq![b]);
        if (b >= 33 && b <= 126) || b == 32 {
            return Some(Event::Keyboard(KeyEvent::Char(b as char)));
        } else if b == 10 {
            return Some(Event::Keyboard(KeyEvent::Enter));
        } else if b == 27 {
            return Some(Event::Keyboard(KeyEvent::Escape));
        } else if b == 8 || b == 127 {
            return Some(Event::Keyboard(KeyEvent::Backspace));
        } else if b == 9 {
            return Some(Event::Keyboard(KeyEvent::Tab));
        }
        return None;
    }
    assert(seq![27u8, 91u8, 60u8] =~= sgr_mouse_prefix());
    assert(seq![27u8, 91u8, 77u8] =~= x10_mouse_prefix());
    assert(seq![27u8, 91u8, 56u8, 59u8] =~= size_report_prefix());
    if starts_with(seq, &[27u8, 91, 77]) || starts_with(seq, &[27u8, 91, 60]) {
        return match parse_mouse_event(seq) {
            Some(m) => Some(Event::Mouse(m)),
            None => None,
        };
    }
    if starts_with(seq, &[27u8, 91, 56, 59]) {
        return parse_terminal_size_change(seq);
    }
    None
}

/// The name of a mouse button, as event descriptions show it.
pub open spec fn button_name(b: MouseButton) -> Seq<char> {
    match b {
        MouseButton::Left => "Left"@,
        MouseButton::Right => "Right"@,
        MouseButton::Middle => "Middle"@,
        MouseButton::Fourth => "Fourth"@,
        MouseButton::Fith => "Fith"@,
        MouseButton::NoButton => "Unknown"@,
    }
}

/// A human-readable description of an event.
pub open spec fn describe_event(e: Event) -> Seq<char> {
    match e {
        Event::Keyboard(k) => match k {
            KeyEvent::Alt(c) => "Alt-"@.push(c),
            KeyEvent::Control(c) => "Ctrl-"@.push(c),
            KeyEvent::Char(c) => seq![c],
            KeyEvent::F(n) => "F"@ + decimal(n as nat),
            KeyEvent::Enter => "Enter"@,
            KeyEvent::Backspace => "Backspace"@,
            KeyEvent::Tab => "Tab"@,
            KeyEvent::Escape => "Escape"@,
            KeyEvent::Up => "Up Arrow"@,
            KeyEvent::Down => "Down Arrow"@,
            KeyEvent::Right => "Right Arrow"@,
            KeyEvent::Left => "Left Arrow"@,
        },
        Event::Mouse(m) => match m {
            MouseEvent::Move(d) => if d.button == MouseButton::NoButton {
                "Moved("@ + decimal(d.pos.x as nat) + ","@ + decimal(d.pos.y as nat) + ")"@
            } else {
                "Dragged("@ + button_name(d.button) + ","@ + decimal(d.pos.x as nat) + ","@
                    + decimal(d.pos.y as nat) + ")"@
            },
            MouseEvent::Pressed(d) => button_name(d.button) + " Button Pressed"@,
            MouseEvent::Release(d) => button_name(d.button) + " Button Released"@,
        },
        Event::Other(o) => match o {
            OtherEvent::EnterFocus => "Enter Focus Event"@,
            OtherEvent::LeaveFocus => "Leave Focus Event"@,
            OtherEvent::ScreenSizeChange { width, height } => "Screen Size changed to ("@
                + decimal(width as nat) + ","@ + decimal(height as nat) + ")"@,
            OtherEvent::Unknown(s) => "Unknown ("@ + s@ + ")"@,
        },
    }
}

fn button_text(b: &MouseButton) -> (r: &'static str)
    ensures
        r@ == button_name(*b),
{
    match b {
        MouseButton::Left => "Left",
        MouseButton::Right => "Right",
        MouseButton::Middle => "Middle",
        MouseButton::Fourth => "Fourth",
        MouseButton::Fith => "Fith",
        MouseButton::NoButton => "Unknown",
    }
}

impl Event {
    /// A human-readable description of the event.
    pub fn describe(&self) -> (r: String)
        ensures
            r@ == describe_event(*self),
    {
        let mut s = String::new();
        match self {
            Event::Keyboard(k) => match k {
                KeyEvent::Alt(c) => {
                    s.append("Alt-");
                    push_char(&mut s, *c);
                },
                KeyEvent::Control(c) => {
                    s.append("Ctrl-");
                    push_char(&mut s, *c);
                },
                KeyEvent::Char(c) => {
                    push_char(&mut s, *c);
                },
                KeyEvent::F(n) => {
                    s.append("F");
                    push_decimal(&mut s, *n as u64);
                },
                KeyEvent::Enter => s.append("Enter"),
                KeyEvent::Backspace => s.append("Backspace"),
                KeyEvent::Tab => s.append("Tab"),
                KeyEvent::Escape => s.append("Escape"),
                KeyEvent::Up => s.append("Up Arrow"),
                KeyEvent::Down => s.append("Down Arrow"),
                KeyEvent::Right => s.append("Right Arrow"),
                KeyEvent::Left => s.append("Left Arrow"),
            },
            Event::Mouse(m) => match m {
                MouseEvent::Move(d) => {
                    if matches!(d.button, MouseButton::NoButton) {
                        s.append("Moved(");
                    } else {
                        s.append("Dragged(");
                        s.append(button_text(&d.button));
                        s.append(",");
                    }
                    push_decimal(&mut s, d.pos.x as u64);
                    s.append(",");
                    push_decimal(&mut s, d.pos.y as u64);
                    s.append(")");
                },
                MouseEvent::Pressed(d) => {
                    s.append(button_text(&d.button));
                    s.append(" Button Pressed");
                },
                MouseEvent::Release(d) => {
                    s.append(button_text(&d.button));
                    s.append(" Button Released");
                },
            },
            Event::Other(o) => match o {
                OtherEvent::EnterFocus => s.append("Enter Focus Event"),
                OtherEvent::LeaveFocus => s.append("Leave Focus Event"),
                OtherEvent::ScreenSizeChange { width, height } => {
                    s.append("Screen Size changed to (");
                    push_decimal(&mut s, *width as u64);
                    s.append(",");
                    push_decimal(&mut s, *height as u64);
                    s.append(")");
                },
                OtherEvent::Unknown(u) => {
                    s.append("Unknown (");
                    s.append(u.as_str());
                    s.append(")");
                },
            },
        }
        assert(s@ =~= describe_event(*self));
        s
    }
}

/// ESC O P, Q, R and S are F1 to F4.
pub proof fn law_ss3_function_keys(n: u8)
    requires
        1 <= n <= 4,
    ensures
        decode_event(seq![27u8, 79u8, (79 + n) as u8]) == Some(Event::Keyboard(KeyEvent::F(n))),
{
    if n == 1 {
        assert(seq![27u8, 79u8, (79 + 1) as u8] =~= seq![27u8, 79u8, 80u8]);
        assert(decode_event(seq![27u8, 79u8, 80u8]) == Some(Event::Keyboard(KeyEvent::F(1u8))));
    } else if n == 2 {
        assert(seq![27u8, 79u8, (79 + 2) as u8] =~= seq![27u8, 79u8, 81u8]);
        assert(decode_event(seq![27u8, 79u8, 81u8]) == Some(Event::Keyboard(KeyEvent::F(2u8))));
    } else if n == 3 {
        assert(seq![27u8, 79u8, (79 + 3) as u8] =~= seq![27u8, 79u8, 82u8]);
        assert(decode_event(seq![27u8, 79u8, 82u8]) == Some(Event::Keyboard(KeyEvent::F(3u8))));
    } else if n == 4 {
        assert(seq![27u8, 79u8, (79 + 4) as u8] =~= seq![27u8, 79u8, 83u8]);
        assert(decode_event(seq![27u8, 79u8, 83u8]) == Some(Event::Keyboard(KeyEvent::F(4u8))));
    }
}

/// ESC [ [ A to E are F1 to F5.
pub proof fn law_linux_function_keys(n: u8)
    requires
        1 <= n <= 5,
    ensures
        decode_event(seq![27u8, 91u8, 91u8, (64 + n) as u8]) == Some(Event::Keyboard(KeyEvent::F(n))),
{
    if n == 1 {
        assert(seq![27u8, 91u8, 91u8, (64 + 1) as u8] =~= seq![27u8, 91u8, 91u8, 65u8]);
        assert(decode_event(seq![27u8, 91u8, 91u8, 65u8]) == Some(Event::Keyboard(KeyEvent::F(1u8))));
    } else if n == 2 {
        assert(seq![27u8, 91u8, 91u8, (64 + 2) as u8] =~= seq![27u8, 91u8, 91u8, 66u8]);
        assert(decode_event(seq![27u8, 91u8, 91u8, 66u8]) == Some(Event::Keyboard(KeyEvent::F(2u8))));
    } else if n == 3 {
        assert(seq![27u8, 91u8, 91u8, (64 + 3) as u8] =~= seq![27u8, 91u8, 91u8, 67u8]);
        assert(decode_event(seq![27u8, 91u8, 91u8, 67u8]) == Some(Event::Keyboard(KeyEvent::F(3u8))));
    } else if n == 4 {
        assert(seq![27u8, 91u8, 91u8, (64 + 4) as u8] =~= seq![27u8, 91u8, 91u8, 68u8]);
        assert(decode_event(seq![27u8, 91u8, 91u8, 68u8]) == Some(Event::Keyboard(KeyEvent::F(4u8))));
    } else if n == 5 {
        assert(seq![27u8, 91u8, 91u8, (64 + 5) as u8] =~= seq![27u8, 91u8, 91u8, 69u8]);
        assert(decode_event(seq![27u8, 91u8, 91u8, 69u8]) == Some(Event::Keyboard(KeyEvent::F(5u8))));
    }
}

/// ESC [ M to X are F1 to F12, one letter per key.
#[verifier::rlimit(40)]
pub proof fn law_letter_function_keys(n: u8)
    requires
        1 <= n <= 12,
    ensures
        decode_event(seq![27u8, 91u8, (76 + n) as u8]) == Some(Event::Keyboard(KeyEvent::F(n))),
{
    if n == 1 {
        assert(seq![27u8, 91u8, (76 + 1) as u8] =~= seq![27u8, 91u8, 77u8]);
        assert(decode_event(seq![27u8, 91u8, 77u8]) == Some(Event::Keyboard(KeyEvent::F(1u8))));
    } else if n == 2 {
        assert(seq![27u8, 91u8, (76 + 2) as u8] =~= seq![27u8, 91u8, 78u8]);
        assert(decode_event(seq![27u8, 91u8, 78u8]) == Some(Event::Keyboard(KeyEvent::F(2u8))));
    } else if n == 3 {
        assert(seq![27u8, 91u8, (76 + 3) as u8] =~= seq![27u8, 91u8, 79u8]);
        assert(decode_event(seq![27u8, 91u8, 79u8]) == Some(Event::Keyboard(KeyEvent::F(3u8))));
    } else if n == 4 {
        assert(seq![27u8, 91u8, (76 + 4) as u8] =~= seq![27u8, 91u8, 80u8]);
        assert(decode_event(seq![27u8, 91u8, 80u8]) == Some(Event::Keyboard(KeyEvent::F(4u8))));
    } else if n == 5 {
        assert(seq![27u8, 91u8, (76 + 5) as u8] =~= seq![27u8, 91u8, 81u8]);
        assert(decode_event(seq![27u8, 91u8, 81u8]) == Some(Event::Keyboard(KeyEvent::F(5u8))));
    } else if n == 6 {
        assert(seq![27u8, 91u8, (76 + 6) as u8] =~= seq![27u8, 91u8, 82u8]);
        assert(decode_event(seq![27u8, 91u8, 82u8]) == Some(Event::Keyboard(KeyEvent::F(6u8))));
    } else if n == 7 {
        assert(seq![27u8, 91u8, (76 + 7) as u8] =~= seq![27u8, 91u8, 83u8]);
        assert(decode_event(seq![27u8, 91u8, 83u8]) == Some(Event::Keyboard(KeyEvent::F(7u8))));
    } else if n == 8 {
        assert(seq![27u8, 91u8, (76 + 8) as u8] =~= seq![27u8, 91u8, 84u8]);
        assert(decode_event(seq![27u8, 91u8, 84u8]) == Some(Event::Keyboard(KeyEvent::F(8u8))));
    } else if n == 9 {
        assert(seq![27u8, 91u8, (76 + 9) as u8] =~= seq![27u8, 91u8, 85u8]);
        assert(decode_event(seq![27u8, 91u8, 85u8]) == Some(Event::Keyboard(KeyEvent::F(9u8))));
    } else if n == 10 {
        assert(seq![27u8, 91u8, (76 + 10) as u8] =~= seq![27u8, 91u8, 86u8]);
        assert(decode_event(seq![27u8, 91u8, 86u8]) == Some(Event::Keyboard(KeyEvent::F(10u8))));
    } else if n == 11 {
        assert(seq![27u8, 91u8, (76 + 11) as u8] =~= seq![27u8, 91u8, 87u8]);
        assert(decode_event(seq![27u8, 91u8, 87u8]) == Some(Event::Keyboard(KeyEvent::F(11u8))));
    } else if n == 12 {
        assert(seq![27u8, 91u8, (76 + 12) as u8] =~= seq![27u8, 91u8, 88u8]);
        assert(decode_event(seq![27u8, 91u8, 88u8]) == Some(Event::Keyboard(KeyEvent::F(12u8))));
    }
}

/// ESC [ 1 1 ~ to ESC [ 1 5 ~ are F1 to F5.
pub proof fn law_vt_low_function_keys(n: u8)
    requires
        1 <= n <= 5,
    ensures
        decode_event(seq![27u8, 91u8, 49u8, (48 + n) as u8, 126u8]) == Some(Event::Keyboard(KeyEvent::F(n))),
{
    if n == 1 {
        assert(seq![27u8, 91u8, 49u8, (48 + 1) as u8, 126u8] =~= seq![27u8, 91u8, 49u8, 49u8, 126u8]);
        assert(decode_event(seq![27u8, 91u8, 49u8, 49u8, 126u8]) == Some(Event::Keyboard(KeyEvent::F(1u8))));
    } else if n == 2 {
        assert(seq![27u8, 91u8, 49u8, (48 + 2) as u8, 126u8] =~= seq![27u8, 91u8, 49u8, 50u8, 126u8]);
        assert(decode_event(seq![27u8, 91u8, 49u8, 50u8, 126u8]) == Some(Event::Keyboard(KeyEvent::F(2u8))));
    } else if n == 3 {
        assert(seq![27u8, 91u8, 49u8, (48 + 3) as u8, 126u8] =~= seq![27u8, 91u8, 49u8, 51u8, 126u8]);
        assert(decode_event(seq![27u8, 91u8, 49u8, 51u8, 126u8]) == Some(Event::Keyboard(KeyEvent::F(3u8))));
    } else if n == 4 {
        assert(seq![27u8, 91u8, 49u8, (48 + 4) as u8, 126u8] =~= seq![27u8, 91u8, 49u8, 52u8, 126u8]);
        assert(decode_event(seq![27u8, 91u8, 49u8, 52u8, 126u8]) == Some(Event::Keyboard(KeyEvent::F(4u8))));
    } else if n == 5 {
        assert(seq![27u8, 91u8, 49u8, (48 + 5) as u8, 126u8] =~= seq![27u8, 91u8, 49u8, 53u8, 126u8]);
        assert(decode_event(seq![27u8, 91u8, 49u8, 53u8, 126u8]) == Some(Event::Keyboard(KeyEvent::F(5u8))));
    }
}

/// ESC [ 1 7 ~ to ESC [ 1 9 ~ are F6 to F8 (code 16 is skipped).
pub proof fn law_vt_mid_function_keys(n: u8)
    requires
        6 <= n <= 8,
    ensures
        decode_event(seq![27u8, 91u8, 49u8, (49 + n) as u8, 126u8]) == Some(Event::Keyboard(KeyEvent::F(n))),
{
    if n == 6 {
        assert(seq![27u8, 91u8, 49u8, (49 + 6) as u8, 126u8] =~= seq![27u8, 91u8, 49u8, 55u8, 126u8]);
        assert(decode_event(seq![27u8, 91u8, 49u8, 55u8, 126u8]) == Some(Event::Keyboard(KeyEvent::F(6u8))));
    } else if n == 7 {
        assert(seq![27u8, 91u8, 49u8, (49 + 7) as u8, 126u8] =~= seq![27u8, 91u8, 49u8, 56u8, 126u8]);
        assert(decode_event(seq![27u8, 91u8, 49u8, 56u8, 126u8]) == Some(Event::Keyboard(KeyEvent::F(7u8))));
    } else if n == 8 {
        assert(seq![27u8, 91u8, 49u8, (49 + 8) as u8, 126u8] =~= seq![27u8, 91u8, 49u8, 57u8, 126u8]);
        assert(decode_event(seq![27u8, 91u8, 49u8, 57u8, 126u8]) == Some(Event::Keyboard(KeyEvent::F(8u8))));
    }
}

/// ESC [ 2 0 ~ and ESC [ 2 1 ~ are F9 and F10.
pub proof fn law_vt_high_function_keys(n: u8)
    requires
        9 <= n <= 10,
    ensures
        decode_event(seq![27u8, 91u8, 50u8, (39 + n) as u8, 126u8]) == Some(Event::Keyboard(KeyEvent::F(n))),
{
    if n == 9 {
        assert(seq![27u8, 91u8, 50u8, (39 + 9) as u8, 126u8] =~= seq![27u8, 91u8, 50u8, 48u8, 126u8]);
        assert(decode_event(seq![27u8, 91u8, 50u8, 48u8, 126u8]) == Some(Event::Keyboard(KeyEvent::F(9u8))));
    } else if n == 10 {
        assert(seq![27u8, 91u8, 50u8, (39 + 10) as u8, 126u8] =~= seq![27u8, 91u8, 50u8, 49u8, 126u8]);
        assert(decode_event(seq![27u8, 91u8, 50u8, 49u8, 126u8]) == Some(Event::Keyboard(KeyEvent::F(10u8))));
    }
}

/// ESC [ 2 3 ~ and ESC [ 2 4 ~ are F11 and F12 (code 22 is skipped).
pub proof fn law_vt_top_function_keys(n: u8)
    requires
        11 <= n <= 12,
    ensures
        decode_event(seq![27u8, 91u8, 50u8, (40 + n) as u8, 126u8]) == Some(Event::Keyboard(KeyEvent::F(n))),
{
    if n == 11 {
        assert(seq![27u8, 91u8, 50u8, (40 + 11) as u8, 126u8] =~= seq![27u8, 91u8, 50u8, 51u8, 126u8]);
        assert(decode_event(seq![27u8, 91u8, 50u8, 51u8, 126u8]) == Some(Event::Keyboard(KeyEvent::F(11u8))));
    } else if n == 12 {
        assert(seq![27u8, 91u8, 50u8, (40 + 12) as u8, 126u8] =~= seq![27u8, 91u8, 50u8, 52u8, 126u8]);
        assert(decode_event(seq![27u8, 91u8, 50u8, 52u8, 126u8]) == Some(Event::Keyboard(KeyEvent::F(12u8))));
    }
}

/// The cursor keys: ESC [ A is up, B down, C right and D left.
pub proof fn law_arrow_keys()
    ensures
        decode_event(seq![27u8, 91u8, 65u8]) == Some(Event::Keyboard(KeyEvent::Up)),
        decode_event(seq![27u8, 91u8, 66u8]) == Some(Event::Keyboard(KeyEvent::Down)),
        decode_event(seq![27u8, 91u8, 67u8]) == Some(Event::Keyboard(KeyEvent::Right)),
        decode_event(seq![27u8, 91u8, 68u8]) == Some(Event::Keyboard(KeyEvent::Left)),
{
}

/// A single byte: a printable character (or a space) is that character,
/// 10 is Enter, 27 Escape, 8 and 127 Backspace and 9 Tab.
pub proof fn law_single_byte_keys(b: u8)
    ensures
        32 <= b <= 126 ==> decode_event(seq![b]) == Some(Event::Keyboard(KeyEvent::Char(b as char))),
        b == 10 ==> decode_event(seq![b]) == Some(Event::Keyboard(KeyEvent::Enter)),
        b == 27 ==> decode_event(seq![b]) == Some(Event::Keyboard(KeyEvent::Escape)),
        b == 8 || b == 127 ==> decode_event(seq![b]) == Some(Event::Keyboard(KeyEvent::Backspace)),
        b == 9 ==> decode_event(seq![b]) == Some(Event::Keyboard(KeyEvent::Tab)),
{
    assert(fixed_key(seq![b]) is None);
}

/// An X10 mouse report `ESC [ M b x y` carries the button code, column
/// and row each offset by 32. With the motion bit (16) of the code set it
/// is a move, with the button given by the code's low two bits: 0 left,
/// 1 middle, 2 right, 3 none; without it, a code whose low bits are 3 (no
/// button) is a release, and any other is not understood.
pub proof fn law_x10_mouse_report(b: u8, x: u8, y: u8)
    requires
        b >= 32,
        x >= 32,
        y >= 32,
    ensures
        ({
            let cb = b - 32;
            let pos = MousePos { x: (x - 32) as u16, y: (y - 32) as u16 };
            let button = if cb % 4 == 0 {
                MouseButton::Left
            } else if cb % 4 == 1 {
                MouseButton::Middle
            } else if cb % 4 == 2 {
                MouseButton::Right
            } else {
                MouseButton::NoButton
            };
            let got = decode_event(seq![27u8, 91u8, 77u8, b, x, y]);
            &&& (cb / 16) % 2 == 1 ==> got == Some(Event::Mouse(MouseEvent::Move(MouseData { button, pos })))
            &&& (cb / 16) % 2 == 0 && cb % 4 == 3 ==> got == Some(
                Event::Mouse(MouseEvent::Release(MouseData { button: MouseButton::NoButton, pos })),
            )
            &&& (cb / 16) % 2 == 0 && cb % 4 != 3 ==> got is None
        }),
{
    let s = seq![27u8, 91u8, 77u8, b, x, y];
    let cb: u8 = (b - 32) as u8;
    assert(s.take(3) =~= x10_mouse_prefix());
    assert(!has_prefix(s, sgr_mouse_prefix())) by {
        assert(s.take(3)[2] != sgr_mouse_prefix()[2]);
    }
    assert(!has_prefix(s, size_report_prefix())) by {
        assert(s.take(4)[2] != size_report_prefix()[2]);
    }
    assert(fixed_key(s) is None);
    assert(b.wrapping_sub(32) == cb);
    assert(x.wrapping_sub(32) == x - 32);
    assert(y.wrapping_sub(32) == y - 32);
    assert((cb & 3u8) == cb % 4) by (bit_vector);
    assert((cb & 16u8 != 0) == ((cb / 16) % 2 == 1)) by (bit_vector);
}

proof fn lemma_split_field(a: Seq<u8>, rest: Seq<u8>, sep: u8)
    requires
        forall|i: int| 0 <= i < a.len() ==> a[i] != sep,
    ensures
        split_on(a + seq![sep] + rest, sep) == seq![a] + split_on(rest, sep),
{
    let s = a + seq![sep] + rest;
    lemma_first_sep(s, sep);
    let f = first_sep(s, sep);
    if f < a.len() {
        assert(s[f as int] == a[f as int]);
    }
    if f > a.len() {
        assert(s[a.len() as int] == sep);
    }
    assert(f == a.len());
    assert(s.take(f as int) =~= a);
    assert(s.skip(f as int + 1) =~= rest);
}

proof fn lemma_split_last(a: Seq<u8>, sep: u8)
    requires
        forall|i: int| 0 <= i < a.len() ==> a[i] != sep,
    ensures
        split_on(a, sep) == seq![a],
{
    lemma_first_sep(a, sep);
    if first_sep(a, sep) < a.len() {
        assert(a[first_sep(a, sep) as int] == sep);
    }
}

/// A number written in decimal digits alone is read as its value.
proof fn lemma_parse_digits(d: Seq<u8>, max: nat)
    requires
        d.len() > 0,
        all_digits(d),
        digits_value(d) <= max,
    ensures
        parse_unsigned(d, max) == Some(digits_value(d)),
{
    assert(is_digit(d[0]));
}

proof fn lemma_long_not_fixed(s: Seq<u8>)
    requires
        s.len() > 5,
    ensures
        fixed_key(s) is None,
{
}

/// An SGR mouse report `ESC [ < b ; x ; y M` or `... m`, its three fields
/// written in decimal digits, is a mouse event at column `x` and row `y`:
/// `m` a release, `M` a press, or a move when the motion bit (16) of `b`
/// is set. The button is given by the low two bits of `b`: 0 left, 1
/// right, 2 middle, 3 none.
#[verifier::rlimit(40)]
pub proof fn law_sgr_mouse_report(b: Seq<u8>, x: Seq<u8>, y: Seq<u8>, last: u8)
    requires
        b.len() > 0 && x.len() > 0 && y.len() > 0,
        all_digits(b) && all_digits(x) && all_digits(y),
        digits_value(b) <= 255 && digits_value(x) <= 65535 && digits_value(y) <= 65535,
        last == 77u8 || last == 109u8,
    ensures
        ({
            let cb = digits_value(b);
            let pos = MousePos { x: digits_value(x) as u16, y: digits_value(y) as u16 };
            let button = if cb % 4 == 0 {
                MouseButton::Left
            } else if cb % 4 == 1 {
                MouseButton::Right
            } else if cb % 4 == 2 {
                MouseButton::Middle
            } else {
                MouseButton::NoButton
            };
            let data = MouseData { button, pos };
            let got = decode_event(seq![27u8, 91u8, 60u8] + b + seq![59u8] + x + seq![59u8] + y + seq![last]);
            &&& last == 109u8 ==> got == Some(Event::Mouse(MouseEvent::Release(data)))
            &&& last == 77u8 && (cb / 16) % 2 == 1 ==> got == Some(Event::Mouse(MouseEvent::Move(data)))
            &&& last == 77u8 && (cb / 16) % 2 == 0 ==> got == Some(Event::Mouse(MouseEvent::Pressed(data)))
        }),
{
    let s = seq![27u8, 91u8, 60u8] + b + seq![59u8] + x + seq![59u8] + y + seq![last];
    assert(s.take(3) =~= sgr_mouse_prefix());
    lemma_long_not_fixed(s);
    let body = s.skip(3);
    assert(body.drop_last() =~= b + seq![59u8] + (x + seq![59u8] + y));
    assert(body.last() == last);
    assert forall|i: int| 0 <= i < b.len() implies b[i] != 59u8 by { assert(is_digit(b[i])); }
    assert forall|i: int| 0 <= i < x.len() implies x[i] != 59u8 by { assert(is_digit(x[i])); }
    assert forall|i: int| 0 <= i < y.len() implies y[i] != 59u8 by { assert(is_digit(y[i])); }
    lemma_split_field(b, x + seq![59u8] + y, 59u8);
    lemma_split_field(x, y, 59u8);
    lemma_split_last(y, 59u8);
    let f = split_on(body.drop_last(), 59u8);
    assert(f =~= seq![b, x, y]);
    lemma_parse_digits(b, 255);
    lemma_parse_digits(x, 65535);
    lemma_parse_digits(y, 65535);
    let cb = digits_value(b) as u8;
    assert((cb & 3u8) == cb % 4) by (bit_vector);
    assert((cb & 16u8 != 0) == ((cb / 16) % 2 == 1)) by (bit_vector);
}

/// A size report `ESC [ 8 ; rows ; cols t`, both fields written in
/// decimal digits, announces a screen `cols` wide and `rows` high.
pub proof fn law_size_report(rows: Seq<u8>, cols: Seq<u8>)
    requires
        rows.len() > 0 && cols.len() > 0,
        all_digits(rows) && all_digits(cols),
        digits_value(rows) <= u32::MAX && digits_value(cols) <= u32::MAX,
    ensures
        decode_event(seq![27u8, 91u8, 56u8, 59u8] + rows + seq![59u8] + cols + seq![116u8]) == Some(
            Event::Other(OtherEvent::ScreenSizeChange { width: digits_value(cols) as u32, height: digits_value(rows) as u32 }),
        ),
{
    let s = seq![27u8, 91u8, 56u8, 59u8] + rows + seq![59u8] + cols + seq![116u8];
    assert(s.take(4) =~= size_report_prefix());
    assert(!has_prefix(s, sgr_mouse_prefix())) by {
        assert(s.take(3)[2] != sgr_mouse_prefix()[2]);
    }
    assert(!has_prefix(s, x10_mouse_prefix())) by {
        assert(s.take(3)[2] != x10_mouse_prefix()[2]);
    }
    lemma_long_not_fixed(s);
    assert(s.skip(4).drop_last() =~= rows + seq![59u8] + cols);
    assert forall|i: int| 0 <= i < rows.len() implies rows[i] != 59u8 by { assert(is_digit(rows[i])); }
    assert forall|i: int| 0 <= i < cols.len() implies cols[i] != 59u8 by { assert(is_digit(cols[i])); }
    lemma_split_field(rows, cols, 59u8);
    lemma_split_last(cols, 59u8);
    assert(size_fields(s) =~= seq![rows, cols]);
    lemma_parse_digits(rows, u32::MAX as nat);
    lemma_parse_digits(cols, u32::MAX as nat);
}

} // verus!
