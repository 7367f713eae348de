use important::color::{apply_style, color_bg, color_fg, style_text, Color, Style};

#[test]
fn color_fg_wraps_in_foreground_code() {
    assert_eq!(color_fg("hi", Color::Red), "\x1b[31mhi\x1b[0m");
    assert_eq!(color_fg("hi", Color::Black), "\x1b[30mhi\x1b[0m");
    assert_eq!(color_fg("hi", Color::HighIntensityWhite), "\x1b[97mhi\x1b[0m");
    assert_eq!(color_fg("", Color::Cyan), "\x1b[36m\x1b[0m");
}

#[test]
fn color_fg_leaves_text_for_background_colors() {
    assert_eq!(color_fg("hi", Color::BgRed), "hi");
    assert_eq!(color_fg("héllo", Color::HighIntensityBgPurple), "héllo");
}

#[test]
fn color_bg_wraps_in_background_code() {
    assert_eq!(color_bg("hi", Color::BgBlack), "\x1b[40mhi\x1b[0m");
    assert_eq!(color_bg("hi", Color::HighIntensityBgWhite), "\x1b[107mhi\x1b[0m");
    assert_eq!(color_bg("hi", Color::HighIntensityBgPurple), "\x1b[105mhi\x1b[0m");
}

#[test]
fn color_bg_leaves_text_for_foreground_colors() {
    assert_eq!(color_bg("hi", Color::Green), "hi");
    assert_eq!(color_bg("hi", Color::HighIntensityYellow), "hi");
}

#[test]
fn apply_style_codes() {
    assert_eq!(apply_style("x", Style::Bold), "\x1b[1mx\x1b[0m");
    assert_eq!(apply_style("x", Style::Underline), "\x1b[4mx\x1b[0m");
}

#[test]
fn style_text_joins_codes() {
    assert_eq!(
        style_text("x", Some(Color::Red), Some(Color::BgBlue), Some(Style::Underline)),
        "\x1b[31;44;4mx\x1b[0m"
    );
    assert_eq!(
        style_text("x", Some(Color::HighIntensityBlue), Some(Color::HighIntensityBgCyan), None),
        "\x1b[94;106mx\x1b[0m"
    );
    assert_eq!(style_text("x", None, Some(Color::BgWhite), Some(Style::Bold)), "\x1b[47;1mx\x1b[0m");
}

#[test]
fn style_text_uses_zero_for_colors_of_the_other_kind() {
    assert_eq!(style_text("x", Some(Color::BgRed), None, None), "\x1b[0mx\x1b[0m");
    assert_eq!(style_text("x", Some(Color::Red), Some(Color::Red), None), "\x1b[31;0mx\x1b[0m");
}

#[test]
fn style_text_without_anything_has_empty_codes() {
    assert_eq!(style_text("x", None, None, None), "\x1b[mx\x1b[0m");
}

#[test]
fn style_text_single_parts_agree_with_single_functions() {
    let fgs = [Color::Black, Color::Purple, Color::HighIntensityGreen, Color::White];
    for c in fgs {
        assert_eq!(style_text("text", Some(c), None, None), color_fg("text", c));
    }
    let bgs = [Color::BgYellow, Color::HighIntensityBgBlack, Color::BgCyan];
    for c in bgs {
        assert_eq!(style_text("text", None, Some(c), None), color_bg("text", c));
    }
    for s in [Style::Bold, Style::Underline] {
        assert_eq!(style_text("text", None, None, Some(s)), apply_style("text", s));
    }
}

#[test]
fn styled_text_frames_the_input() {
    let out = style_text("abc", Some(Color::Yellow), None, Some(Style::Bold));
    assert!(out.starts_with("\x1b["));
    assert!(out.ends_with("abc\x1b[0m"));
    assert_eq!(out.len(), "33;1".len() + 3 + 7);
}
