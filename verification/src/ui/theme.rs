use vstd::prelude::*;
use vstd::utf8::{encode_utf8, is_char_boundary};

use crate::text::{str_lowercase, str_to_lowercase};

verus! {

/// A terminal colour, as the planner names them.
#[derive(Clone, Copy, PartialEq, Eq, Structural, Debug)]
pub enum Color {
    Rgb(u8, u8, u8),
    Black,
    Red,
    Green,
    Yellow,
    Blue,
    Magenta,
    Cyan,
    Gray,
    White,
}

/// The colours of the interface.
#[derive(Clone, Copy, PartialEq, Eq, Structural, Debug)]
pub struct Theme {
    pub border_focused: Color,
    pub border_unfocused: Color,
    pub title_main: Color,
    pub title_secondary: Color,
    pub highlight: Color,
    pub completion_done: Color,
    pub completion_pending: Color,
    pub help_text: Color,
    pub warning: Color,
}

/// A theme file: each colour is optional and written as `#rrggbb` or as a colour name.
pub struct ThemeConfig {
    pub name: String,
    pub border_focused: Option<String>,
    pub border_unfocused: Option<String>,
    pub title_main: Option<String>,
    pub title_secondary: Option<String>,
    pub highlight: Option<String>,
    pub completion_done: Option<String>,
    pub completion_pending: Option<String>,
    pub help_text: Option<String>,
    pub warning: Option<String>,
}

/// The Tailwind palette theme (rose, sky, amber, green, gray on white).
pub open spec fn default_theme() -> Theme {
    Theme {
        border_focused: Color::Rgb(0xf4, 0x3f, 0x5e),
        border_unfocused: Color::Rgb(0xff, 0xff, 0xff),
        title_main: Color::Rgb(0x38, 0xbd, 0xf8),
        title_secondary: Color::Rgb(0xfb, 0xbf, 0x24),
        highlight: Color::Rgb(0xf4, 0x3f, 0x5e),
        completion_done: Color::Rgb(0x4a, 0xde, 0x80),
        completion_pending: Color::Rgb(0xff, 0xff, 0xff),
        help_text: Color::Rgb(0x6b, 0x72, 0x80),
        warning: Color::Rgb(0xf5, 0x9e, 0x0b),
    }
}

/// The Nord theme.
pub open spec fn nord_theme() -> Theme {
    Theme {
        border_focused: Color::Rgb(136, 192, 208),
        border_unfocused: Color::Rgb(76, 86, 106),
        title_main: Color::Rgb(143, 188, 187),
        title_secondary: Color::Rgb(235, 203, 139),
        highlight: Color::Rgb(136, 192, 208),
        completion_done: Color::Rgb(163, 190, 140),
        completion_pending: Color::Rgb(216, 222, 233),
        help_text: Color::Rgb(129, 161, 193),
        warning: Color::Rgb(208, 135, 112),
    }
}

impl Default for Theme {
    /// The Tailwind palette theme: rose `#f43f5e`, white, sky `#38bdf8`, amber `#fbbf24`,
    /// green `#4ade80`, gray `#6b7280` and amber `#f59e0b`.
    fn default() -> (t: Self)
        ensures
            t == default_theme(),
    {
        Theme {
            border_focused: Color::Rgb(0xf4, 0x3f, 0x5e),
            border_unfocused: Color::Rgb(0xff, 0xff, 0xff),
            title_main: Color::Rgb(0x38, 0xbd, 0xf8),
            title_secondary: Color::Rgb(0xfb, 0xbf, 0x24),
            highlight: Color::Rgb(0xf4, 0x3f, 0x5e),
            completion_done: Color::Rgb(0x4a, 0xde, 0x80),
            completion_pending: Color::Rgb(0xff, 0xff, 0xff),
            help_text: Color::Rgb(0x6b, 0x72, 0x80),
            warning: Color::Rgb(0xf5, 0x9e, 0x0b),
        }
    }
}

/// The built-in theme with number `idx`: 1 is Nord, every other number the default theme.
pub open spec fn theme_at(idx: usize) -> Theme {
    if idx == 1 {
        nord_theme()
    } else {
        default_theme()
    }
}

/// The built-in theme with number `idx` (1 is Nord, every other number the default theme).
pub fn theme_for_index(idx: usize) -> (t: Theme)
    ensures
        t == theme_at(idx),
{
    match idx {
        0 => Theme::default(),
        1 => Theme::nord(),
        _ => Theme::default(),
    }
}

/// Value of a hexadecimal digit byte (either case).
pub open spec fn hex_val(b: u8) -> Option<u8> {
    if 48 <= b <= 57 {
        Some((b - 48) as u8)
    } else if 97 <= b <= 102 {
        Some((b - 87) as u8)
    } else if 65 <= b <= 70 {
        Some((b - 55) as u8)
    } else {
        None
    }
}

/// `u8::from_str_radix(_, 16)` on two bytes: an optional `+` and hexadecimal digits.
pub open spec fn parse_hex_pair(b0: u8, b1: u8) -> Option<u8> {
    if b0 == 43 {
        hex_val(b1)
    } else {
        match (hex_val(b0), hex_val(b1)) {
            (Some(h), Some(l)) => Some((h * 16 + l) as u8),
            _ => None,
        }
    }
}

/// Number of `#` bytes the text starts with.
pub open spec fn leading_hashes(b: Seq<u8>, from: int) -> int
    decreases b.len() - from,
{
    if from < 0 || from >= b.len() || b[from] != 35 {
        from
    } else {
        leading_hashes(b, from + 1)
    }
}

/// The text is `#` signs followed by exactly six bytes.
pub open spec fn has_hex_shape(s: Seq<char>) -> bool {
    let b = encode_utf8(s);
    b.len() > 0 && b[0] == 35 && b.len() - leading_hashes(b, 0) == 6
}

/// The text is `#`, `#rr`... whose three byte pairs are cut on character boundaries (slicing
/// them otherwise panics).
pub open spec fn color_text_ok(s: Seq<char>) -> bool {
    let b = encode_utf8(s);
    let k = leading_hashes(b, 0);
    has_hex_shape(s) ==> is_char_boundary(b, k + 2) && is_char_boundary(b, k + 4)
}

/// The `#rrggbb` reading of a text, if it has one.
pub open spec fn hex_color(s: Seq<char>) -> Option<Color> {
    let b = encode_utf8(s);
    let k = leading_hashes(b, 0);
    if has_hex_shape(s) {
        match (
            parse_hex_pair(b[k], b[k + 1]),
            parse_hex_pair(b[k + 2], b[k + 3]),
            parse_hex_pair(b[k + 4], b[k + 5]),
        ) {
            (Some(r), Some(g), Some(bl)) => Some(Color::Rgb(r, g, bl)),
            _ => None,
        }
    } else {
        None
    }
}

/// The colour a name stands for, once lower-cased.
pub open spec fn named_color(lower: Seq<char>) -> Option<Color> {
    if lower == "black"@ {
        Some(Color::Black)
    } else if lower == "red"@ {
        Some(Color::Red)
    } else if lower == "green"@ {
        Some(Color::Green)
    } else if lower == "yellow"@ {
        Some(Color::Yellow)
    } else if lower == "blue"@ {
        Some(Color::Blue)
    } else if lower == "magenta"@ {
        Some(Color::Magenta)
    } else if lower == "cyan"@ {
        Some(Color::Cyan)
    } else if lower == "gray"@ {
        Some(Color::Gray)
    } else if lower == "white"@ {
        Some(Color::White)
    } else {
        None
    }
}

/// The colour a theme file entry means: `#rrggbb` first, then a colour name in any case.
pub open spec fn color_of(s: Seq<char>) -> Option<Color> {
    match hex_color(s) {
        Some(c) => Some(c),
        None => named_color(str_lowercase(s)),
    }
}

/// Reads two bytes as `u8::from_str_radix(_, 16)` does.
fn hex_pair(b0: u8, b1: u8) -> (r: Option<u8>)
    ensures
        r == parse_hex_pair(b0, b1),
{
    let h = hex_digit(b0);
    let l = hex_digit(b1);
    if b0 == 43 {
        l
    } else {
        match (h, l) {
            (Some(h), Some(l)) => Some(h * 16 + l),
            _ => None,
        }
    }
}

fn hex_digit(b: u8) -> (r: Option<u8>)
    ensures
        r == hex_val(b),
        r matches Some(v) ==> v < 16,
{
    if 48 <= b && b <= 57 {
        Some(b - 48)
    } else if 97 <= b && b <= 102 {
        Some(b - 87)
    } else if 65 <= b && b <= 70 {
        Some(b - 55)
    } else {
        None
    }
}

/// Reads a colour written as `#rrggbb` or as one of the names black, red, green, yellow,
/// blue, magenta, cyan, gray and white (in any case).
pub fn parse_color(s: &str) -> (r: Option<Color>)
    requires
        color_text_ok(s@),
    ensures
        r == color_of(s@),
{
    let b = s.as_bytes();
    let ghost bs = b@;
    if b.len() > 0 && b[0] == 35 {
        let mut k: usize = 0;
        while k < b.len() && b[k] == 35
            invariant
                bs == b@,
                k <= b@.len(),
                leading_hashes(bs, 0) == leading_hashes(bs, k as int),
            decreases b.len() - k,
        {
            k = k + 1;
        }
        if b.len() - k == 6 {
            let r = hex_pair(b[k], b[k + 1]);
            let g = hex_pair(b[k + 2], b[k + 3]);
            let bl = hex_pair(b[k + 4], b[k + 5]);
            if let (Some(r), Some(g), Some(bl)) = (r, g, bl) {
                return Some(Color::Rgb(r, g, bl));
            }
        }
    }
    let lower = str_to_lowercase(s);
    if lower == "black".to_owned() {
        Some(Color::Black)
    } else if lower == "red".to_owned() {
        Some(Color::Red)
    } else if lower == "green".to_owned() {
        Some(Color::Green)
    } else if lower == "yellow".to_owned() {
        Some(Color::Yellow)
    } else if lower == "blue".to_owned() {
        Some(Color::Blue)
    } else if lower == "magenta".to_owned() {
        Some(Color::Magenta)
    } else if lower == "cyan".to_owned() {
        Some(Color::Cyan)
    } else if lower == "gray".to_owned() {
        Some(Color::Gray)
    } else if lower == "white".to_owned() {
        Some(Color::White)
    } else {
        None
    }
}

/// Tests `color_text_ok`: whether `parse_color` can take the text.
pub fn color_text_valid(s: &str) -> (r: bool)
    ensures
        r == color_text_ok(s@),
{
    let b = s.as_bytes();
    let ghost bs = b@;
    if !(b.len() > 0 && b[0] == 35) {
        return true;
    }
    let mut k: usize = 0;
    while k < b.len() && b[k] == 35
        invariant
            bs == b@,
            k <= b@.len(),
            leading_hashes(bs, 0) == leading_hashes(bs, k as int),
        decreases b.len() - k,
    {
        k = k + 1;
    }
    if b.len() - k != 6 {
        return true;
    }
    s.is_char_boundary(k + 2) && s.is_char_boundary(k + 4)
}

fn entry_valid(entry: &Option<String>) -> (r: bool)
    ensures
        r == entry_ok(*entry),
{
    match entry {
        Some(s) => color_text_valid(s.as_str()),
        None => true,
    }
}

/// The entry's colour, or `d` when the entry is missing or unreadable.
pub open spec fn color_or(entry: Option<String>, d: Color) -> Color {
    match entry {
        Some(s) => match color_of(s@) {
            Some(c) => c,
            None => d,
        },
        None => d,
    }
}

/// Every present entry can be read without a panic.
pub open spec fn entry_ok(entry: Option<String>) -> bool {
    entry matches Some(s) ==> color_text_ok(s@)
}

fn apply_entry(entry: &Option<String>, d: Color) -> (c: Color)
    requires
        entry_ok(*entry),
    ensures
        c == color_or(*entry, d),
{
    match entry {
        Some(s) => match parse_color(s.as_str()) {
            Some(c) => c,
            None => d,
        },
        None => d,
    }
}

impl ThemeConfig {
    /// Tests `entries_ok`: whether `Theme::from_config` can take the file.
    pub fn entries_valid(&self) -> (r: bool)
        ensures
            r == self.entries_ok(),
    {
        entry_valid(&self.border_focused) && entry_valid(&self.border_unfocused) && entry_valid(
            &self.title_main,
        ) && entry_valid(&self.title_secondary) && entry_valid(&self.highlight) && entry_valid(
            &self.completion_done,
        ) && entry_valid(&self.completion_pending) && entry_valid(&self.help_text) && entry_valid(
            &self.warning,
        )
    }

    /// Every present entry can be read without a panic.
    pub open spec fn entries_ok(&self) -> bool {
        &&& entry_ok(self.border_focused)
        &&& entry_ok(self.border_unfocused)
        &&& entry_ok(self.title_main)
        &&& entry_ok(self.title_secondary)
        &&& entry_ok(self.highlight)
        &&& entry_ok(self.completion_done)
        &&& entry_ok(self.completion_pending)
        &&& entry_ok(self.help_text)
        &&& entry_ok(self.warning)
    }
}

impl Theme {
    /// The Nord theme.
    pub fn nord() -> (t: Self)
        ensures
            t == nord_theme(),
    {
        Theme {
            border_focused: Color::Rgb(136, 192, 208),
            border_unfocused: Color::Rgb(76, 86, 106),
            title_main: Color::Rgb(143, 188, 187),
            title_secondary: Color::Rgb(235, 203, 139),
            highlight: Color::Rgb(136, 192, 208),
            completion_done: Color::Rgb(163, 190, 140),
            completion_pending: Color::Rgb(216, 222, 233),
            help_text: Color::Rgb(129, 161, 193),
            warning: Color::Rgb(208, 135, 112),
        }
    }

    /// The default theme with every colour the file sets (and that reads as a colour)
    /// replaced.
    pub fn from_config(config: ThemeConfig) -> (t: Self)
        requires
            config.entries_ok(),
        ensures
            t == (Theme {
                border_focused: color_or(config.border_focused, default_theme().border_focused),
                border_unfocused: color_or(
                    config.border_unfocused,
                    default_theme().border_unfocused,
                ),
                title_main: color_or(config.title_main, default_theme().title_main),
                title_secondary: color_or(
                    config.title_secondary,
                    default_theme().title_secondary,
                ),
                highlight: color_or(config.highlight, default_theme().highlight),
                completion_done: color_or(
                    config.completion_done,
                    default_theme().completion_done,
                ),
                completion_pending: color_or(
                    config.completion_pending,
                    default_theme().completion_pending,
                ),
                help_text: color_or(config.help_text, default_theme().help_text),
                warning: color_or(config.warning, default_theme().warning),
            }),
    {
        let mut theme = Theme::default();
        theme.border_focused = apply_entry(&config.border_focused, theme.border_focused);
        theme.border_unfocused = apply_entry(&config.border_unfocused, theme.border_unfocused);
        theme.title_main = apply_entry(&config.title_main, theme.title_main);
        theme.title_secondary = apply_entry(&config.title_secondary, theme.title_secondary);
        theme.highlight = apply_entry(&config.highlight, theme.highlight);
        theme.completion_done = apply_entry(&config.completion_done, theme.completion_done);
        theme.completion_pending = apply_entry(
            &config.completion_pending,
            theme.completion_pending,
        );
        theme.help_text = apply_entry(&config.help_text, theme.help_text);
        theme.warning = apply_entry(&config.warning, theme.warning);
        theme
    }
}

} // verus!
