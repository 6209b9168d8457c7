use broccli::colorizing::{color_support, contains_text};
use broccli::{Color, ColoredText, TextStyle};

#[test]
fn foreground_codes() {
    assert_eq!(Color::Red.to_ansi_code(), "\x1b[31m");
    assert_eq!(Color::BrightBlack.to_ansi_code(), "\x1b[90m");
    assert_eq!(Color::Orange.to_ansi_code(), "\x1b[38;5;208m");
    assert_eq!(Color::Transparent.to_ansi_code(), "\x1b[39m");
    assert_eq!(Color::Rgb(1, 22, 255).to_ansi_code(), "\x1b[38;2;1;22;255m");
    assert_eq!(Color::Rgba(7, 8, 9, 10).to_ansi_code(), "\x1b[38;2;7;8;9m");
    assert_eq!(Color::Indexed(42).to_ansi_code(), "\x1b[38;5;42m");
    assert_eq!(Color::Gray(5).to_ansi_code(), "\x1b[38;5;237m");
    assert_eq!(Color::Gray(30).to_ansi_code(), "\x1b[38;5;255m");
    assert_eq!(Color::Hex("#ff0080").to_ansi_code(), "\x1b[38;2;255;0;128m");
    assert_eq!(Color::Hex("#zzzzzz").to_ansi_code(), "\x1b[39m");
}

#[test]
fn background_codes() {
    assert_eq!(Color::Red.to_background_ansi_code(), "\x1b[41m");
    assert_eq!(Color::BrightWhite.to_background_ansi_code(), "\x1b[107m");
    assert_eq!(Color::Charcoal.to_background_ansi_code(), "\x1b[48;5;232m");
    assert_eq!(Color::Rgb(0, 10, 200).to_background_ansi_code(), "\x1b[48;2;0;10;200m");
    assert_eq!(Color::Hex("a0b0c0").to_background_ansi_code(), "\x1b[48;2;160;176;192m");
    assert_eq!(Color::Hex("#a0b0c0").to_background_ansi_code(), "\x1b[49m");
}

#[test]
fn style_sequences() {
    assert_eq!(Color::reset(), "\x1b[0m");
    assert_eq!(Color::bold(), "\x1b[1m");
    assert_eq!(Color::italic(), "\x1b[3m");
    assert_eq!(Color::underline(), "\x1b[4m");
    assert_eq!(Color::strikethrough(), "\x1b[9m");
    assert_eq!(Color::reset_style(), "\x1b[22m");
}

#[test]
fn text_styles() {
    assert_eq!("x".colorize(Color::Green), "\x1b[32mx\x1b[0m");
    assert_eq!("x".term_colorize(Color::Green, true), "\x1b[32mx\x1b[0m");
    assert_eq!("x".term_colorize(Color::Green, false), "x");
    assert_eq!("x".background(Color::Blue), "\x1b[44mx\x1b[0m");
    assert_eq!("x".bold(), "\x1b[1mx\x1b[0m");
    assert_eq!("x".italic(), "\x1b[3mx\x1b[0m");
    assert_eq!("x".underline(), "\x1b[4mx\x1b[0m");
    assert_eq!("x".strikethrough(), "\x1b[9mx\x1b[0m");
    let t = ColoredText { content: "hi".to_string(), color: Color::Cyan };
    assert_eq!(t.render(), "\x1b[36mhi\x1b[0m");
}

#[test]
fn colors_from_text() {
    assert_eq!(Color::from_text("  Bright Red ").unwrap(), Color::BrightRed);
    assert_eq!(Color::from_text("slate gray").unwrap(), Color::SlateGray);
    assert_eq!(Color::from_text("#FF0000").unwrap(), Color::Hex("#ff0000"));
    assert_eq!(Color::from_text("#12").unwrap_err(), "Unknown color: '#12'");
    assert_eq!(Color::from_text(" #ééé").unwrap(), Color::Hex("#ééé"));
    assert_eq!(Color::from_text("#éé").unwrap_err(), "Unknown color: '#éé'");
    assert_eq!("mint".parse::<Color>().unwrap(), Color::Mint);
    assert_eq!(Color::from_name("Red").unwrap_err(), "Unknown color: 'Red'");
    assert_eq!(Color::default(), Color::White);
}

#[test]
fn colors_from_hex() {
    assert_eq!(Color::from_hex("#ff8000").unwrap(), Color::Rgba(255, 128, 0, 255));
    assert_eq!(Color::from_hex("##0a0B0c80").unwrap(), Color::Rgba(10, 11, 12, 128));
    assert_eq!(Color::from_hex("+f0000").unwrap(), Color::Rgba(15, 0, 0, 255));
    assert_eq!(Color::from_hex("#gg0000").unwrap_err(), "Invalid hex");
    assert_eq!(
        Color::from_hex("#fff").unwrap_err(),
        "Invalid hex format. Use #RRGGBB or #RRGGBBAA."
    );
}

#[test]
fn terminal_color_support() {
    assert!(color_support(Some("xterm-256color"), false));
    assert!(color_support(Some("screen"), false));
    assert!(color_support(Some("my-vt100"), false));
    assert!(!color_support(Some("dumb"), true));
    assert!(color_support(None, true));
    assert!(!color_support(None, false));
    assert!(contains_text("abc", ""));
    assert!(!contains_text("ab", "abc"));
}
