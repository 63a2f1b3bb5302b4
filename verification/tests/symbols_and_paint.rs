use ansi_term::Color;
use bsh::paint::{dec_of, paint_fixed};
use bsh::symbols::Symbol;

#[test]
fn test_success() {
    assert_eq!(
        Symbol::success("msg".to_string()),
        format!("{} {}", Color::Green.paint("\u{2714}"), "msg")
    );
}

#[test]
fn test_info() {
    assert_eq!(
        Symbol::info("msg".to_string()),
        format!("{} {}", Color::Blue.paint("\u{2139}"), "msg")
    );
}

#[test]
fn test_warning() {
    assert_eq!(
        Symbol::warning("msg".to_string()),
        format!("{} {}", Color::Yellow.paint("\u{26a0}"), "msg")
    );
}

#[test]
fn test_error() {
    assert_eq!(
        Symbol::error("msg".to_string()),
        format!("{} {}", Color::Red.paint("\u{2716}"), "msg")
    );
}

#[test]
fn decimal_rendering_matches_formatting() {
    assert_eq!(dec_of(0), "0");
    assert_eq!(dec_of(7), "7");
    assert_eq!(dec_of(39), "39");
    assert_eq!(dec_of(127), "127");
    assert_eq!(dec_of(65536), format!("{}", 65536));
}

#[test]
fn eight_bit_colors_match_their_escapes() {
    assert_eq!(
        paint_fixed(93, "$v"),
        Color::Fixed(93).paint("$v").to_string()
    );
    assert_eq!(paint_fixed(8, "x"), "\u{1b}[38;5;8mx\u{1b}[0m");
}
