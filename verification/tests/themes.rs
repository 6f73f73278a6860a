use rusty_do::ui::theme::{color_text_valid, parse_color, theme_for_index, Color, Theme, ThemeConfig};

fn config() -> ThemeConfig {
    ThemeConfig {
        name: "mine".to_string(),
        border_focused: None,
        border_unfocused: None,
        title_main: None,
        title_secondary: None,
        highlight: None,
        completion_done: None,
        completion_pending: None,
        help_text: None,
        warning: None,
    }
}

#[test]
fn default_theme_is_tailwind_palette() {
    let t = Theme::default();
    assert_eq!(t.border_focused, Color::Rgb(0xf4, 0x3f, 0x5e));
    assert_eq!(t.border_unfocused, Color::Rgb(255, 255, 255));
    assert_eq!(t.title_main, Color::Rgb(0x38, 0xbd, 0xf8));
    assert_eq!(t.title_secondary, Color::Rgb(0xfb, 0xbf, 0x24));
    assert_eq!(t.completion_done, Color::Rgb(0x4a, 0xde, 0x80));
    assert_eq!(t.help_text, Color::Rgb(0x6b, 0x72, 0x80));
    assert_eq!(t.warning, Color::Rgb(0xf5, 0x9e, 0x0b));
}

#[test]
fn nord_theme_colours() {
    let t = Theme::nord();
    assert_eq!(t.border_focused, Color::Rgb(136, 192, 208));
    assert_eq!(t.warning, Color::Rgb(208, 135, 112));
    assert_eq!(theme_for_index(1), t);
    assert_eq!(theme_for_index(0), Theme::default());
    assert_eq!(theme_for_index(7), Theme::default());
}

#[test]
fn parse_hex_colours() {
    assert_eq!(parse_color("#ff8000"), Some(Color::Rgb(255, 128, 0)));
    assert_eq!(parse_color("#FfA0b1"), Some(Color::Rgb(255, 160, 177)));
    assert_eq!(parse_color("##0a0b0c"), Some(Color::Rgb(10, 11, 12)));
    assert_eq!(parse_color("#+f+f+f"), Some(Color::Rgb(15, 15, 15)));
    assert_eq!(parse_color("#12345"), None);
    assert_eq!(parse_color("#12345g"), None);
    assert_eq!(parse_color("123456"), None);
}

#[test]
fn parse_colour_names_in_any_case() {
    assert_eq!(parse_color("red"), Some(Color::Red));
    assert_eq!(parse_color("MAGENTA"), Some(Color::Magenta));
    assert_eq!(parse_color("Gray"), Some(Color::Gray));
    assert_eq!(parse_color("grey"), None);
    assert_eq!(parse_color(""), None);
}

#[test]
fn colour_text_that_would_split_a_character_is_refused() {
    assert!(color_text_valid("#ff8000"));
    assert!(color_text_valid("white"));
    assert!(!color_text_valid("#aé123"));
    assert!(color_text_valid("#é1234"));
}

#[test]
fn config_overrides_only_readable_entries() {
    let mut c = config();
    c.highlight = Some("#010203".to_string());
    c.warning = Some("not a colour".to_string());
    c.help_text = Some("BLUE".to_string());
    assert!(c.entries_valid());
    let t = Theme::from_config(c);
    let d = Theme::default();
    assert_eq!(t.highlight, Color::Rgb(1, 2, 3));
    assert_eq!(t.warning, d.warning);
    assert_eq!(t.help_text, Color::Blue);
    assert_eq!(t.border_focused, d.border_focused);
}

#[test]
fn config_with_split_character_is_refused() {
    let mut c = config();
    c.title_main = Some("#aé123".to_string());
    assert!(!c.entries_valid());
}
