use ssh_colony::ui::style::{Align, Alignment, Coloring, Justify, Measure, Size, Style};

#[test]
fn measure_test() {
    for height in [24usize, 29, 37, 50, 101, 7] {
        let x = Measure::Cell(40);
        assert_eq!(x.get(height), 40);
        let x = Measure::Cell(60);
        assert_eq!(x.get(height), 60);
        let x = Measure::Percent(100);
        assert_eq!(x.get(height), height);
        let x = Measure::Percent(50);
        assert_eq!(x.get(height), height / 2);
        let x = Measure::Percent(25);
        assert_eq!(x.get(height), height / 4);
    }
}

#[test]
fn measure_percent_rounds_down() {
    assert_eq!(Measure::Percent(33).get(10), 3);
    assert_eq!(Measure::Percent(200).get(10), 20);
    assert_eq!(Measure::Percent(10).get(0), 0);
    assert_eq!(Measure::Percent(255).get(usize::MAX), usize::MAX);
}

#[test]
fn measure_raw() {
    assert_eq!(Measure::Cell(7).get_raw(), 7);
    assert_eq!(Measure::Percent(42).get_raw(), 42);
}

#[test]
fn alignment_presets() {
    assert_eq!(Alignment::centered(), Alignment { justify: Justify::Center, align: Align::Center });
    assert_eq!(Alignment::top_right(), Alignment { justify: Justify::Right, align: Align::Top });
    assert_eq!(Alignment::bot_left(), Alignment { justify: Justify::Left, align: Align::Bottom });
    assert_eq!(Alignment::bot_right(), Alignment { justify: Justify::Right, align: Align::Bottom });
    assert_eq!(Alignment::default(), Alignment { justify: Justify::Left, align: Align::Top });
}

#[test]
fn size_builders() {
    assert_eq!(Size::square(Measure::Cell(3)), Size::new(Some(Measure::Cell(3)), Some(Measure::Cell(3))));
    assert_eq!(Size::w_only(Measure::Percent(5)).height, None);
    assert_eq!(Size::h_only(Measure::Percent(5)).width, None);
    assert_eq!(Size::rect(Measure::Cell(1), Measure::Cell(2)).height, Some(Measure::Cell(2)));
    assert_eq!(Size::default(), Size::new(None, None));
}

#[test]
fn style_setters() {
    let s = Style::default().set_fg(3).set_bg(4).set_justify(Justify::Right).set_align(Align::Bottom);
    assert_eq!(s.fg(), 3);
    assert_eq!(s.bg(), 4);
    assert_eq!(s.justify(), Justify::Right);
    assert_eq!(s.align(), Align::Bottom);
    let s = s.set_width(Measure::Cell(9)).set_height(Measure::Percent(50));
    assert_eq!(s.width(), Some(&Measure::Cell(9)));
    assert_eq!(s.height(), Some(&Measure::Percent(50)));
}

#[test]
fn coloring_render() {
    let c = Coloring::new(1, 2);
    assert_eq!(c.render(), "\x1b[48;5;2m\x1b[38;5;1m");
    assert_eq!(Coloring::default(), Coloring::new(7, 0));
}

#[test]
fn border_counts_one_glyph_per_side() {
    let b = ssh_colony::ui::border::Border::as_hash(ssh_colony::ui::border::Padding::square(1));
    assert_eq!(b.height(), 4);
    assert_eq!(b.width(), 4);
}
