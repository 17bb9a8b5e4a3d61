use wf_echo::theme::{hex_color, Color, Palette, Theme};

#[test]
fn hex_colors() {
    assert_eq!(hex_color("#ff2a6d"), Color::Rgb(255, 42, 109));
    assert_eq!(hex_color("00FF80"), Color::Rgb(0, 255, 128));
    assert_eq!(hex_color("##0a0b0c"), Color::Rgb(10, 11, 12));
    assert_eq!(hex_color("#abc"), Color::White);
    assert_eq!(hex_color("zz0000"), Color::Rgb(255, 0, 0));
    assert_eq!(hex_color("+f0102"), Color::Rgb(15, 1, 2));
    assert_eq!(hex_color("-f0102"), Color::Rgb(255, 1, 2));
    assert_eq!(hex_color("123456é"), Color::Rgb(0x12, 0x34, 0x56));
}

#[test]
fn theme_from_palette() {
    let s = |x: &str| x.to_string();
    let p = Palette {
        bg: s("000000"),
        white: s("ffffff"),
        acid_green: s("39ff14"),
        hot_pink: s("ff2a6d"),
        purple: s("9d4edd"),
        cyan: s("00f0ff"),
        orange: s("ff9e00"),
        red: s("ff073a"),
        panel: s("12121a"),
        line: s("2a2a3a"),
        muted: s("short"),
    };
    let t = Theme::from_palette(&p);
    assert_eq!(t.bg, Color::Rgb(0, 0, 0));
    assert_eq!(t.hot_pink, Color::Rgb(255, 42, 109));
    assert_eq!(t.muted, Color::White);
}

#[test]
fn cybercore_palette_gives_rgb_colors() {
    let t = Theme::from_cybercore();
    for c in [
        t.bg, t.white, t.acid_green, t.hot_pink, t.purple, t.cyan, t.orange, t.red, t.panel, t.line,
        t.muted,
    ] {
        assert!(matches!(c, Color::Rgb(..)));
    }
}
