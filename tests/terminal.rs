use broccli::{BoxConfig, Color, Error, Interface, LineStyle};

#[test]
fn cursor_sequences() {
    let mut t = Interface::new();
    t.move_cursor(2, 3).unwrap();
    t.move_cursor_up(4).unwrap();
    t.move_cursor_down(1).unwrap();
    t.move_cursor_forward(5).unwrap();
    t.move_cursor_backward(6).unwrap();
    t.save_cursor().unwrap();
    t.restore_cursor().unwrap();
    assert_eq!(t.take_output(), "\x1b[4;3H\x1b[4A\x1b[1B\x1b[5C\x1b[6D\x1b[s\x1b[u");
    assert_eq!(t.take_output(), "");
}

#[test]
fn screen_sequences() {
    let mut t = Interface::new();
    t.scroll_up(2).unwrap();
    t.scroll_down(3).unwrap();
    t.clear().unwrap();
    t.clear_line().unwrap();
    t.clear_from_cursor_to_end().unwrap();
    t.clear_from_cursor_to_begin().unwrap();
    t.write_escape("\x1b[?25l").unwrap();
    assert_eq!(
        t.take_output(),
        "\x1b[2S\x1b[3T\x1b[2J\x1b[H\x1b[2K\x1b[0J\x1b[1J\x1b[?25l"
    );
}

#[test]
fn negative_positions_are_signed() {
    let mut t = Interface::new();
    t.move_cursor(-3, -1).unwrap();
    assert_eq!(t.take_output(), "\x1b[0;-2H");
}

#[test]
fn small_box() {
    let mut t = Interface::new();
    let config = BoxConfig {
        x: 1,
        y: 0,
        width: 3,
        height: 3,
        border_style: LineStyle::Single,
        color: Color::Red,
        background: Color::Black,
    };
    t.draw_box(config).unwrap();
    let p = |s: &str| format!("\x1b[40m\x1b[31m{}\x1b[0m\x1b[0m", s);
    let expected = format!(
        "\x1b[1;2H{}{}{}\x1b[2;2H{}\x1b[40m \x1b[0m\x1b[2;4H{}\x1b[3;2H{}{}{}",
        p("┌"), p("─"), p("┐"), p("│"), p("│"), p("└"), p("─"), p("┘")
    );
    assert_eq!(t.take_output(), expected);
}

#[test]
fn error_messages() {
    assert_eq!(Error::CursorMove.message(), "Cursor move failed");
    assert_eq!(Error::WriteError.message(), "WRite failed!");
    let e = Error::Flush(std::io::Error::new(std::io::ErrorKind::Other, "disk"));
    assert_eq!(e.message(), "Flush failed: disk");
}

#[test]
fn custom_border() {
    let style = LineStyle::Custom {
        top_left: 'a',
        horizontal: 'b',
        top_right: 'c',
        vertical: 'd',
        bottom_right: 'e',
        bottom_left: 'f',
    };
    assert_eq!(style.chars(), ('a', 'b', 'c', 'd', 'e', 'f'));
}
