//! Themes as data: the colour roles of a theme, the compact palette most
//! themes are written as, and how a colour name or hex code is read.
use vstd::prelude::*;
use crate::app::keys::ascii_folded;
use crate::app::keys::eq_ignore_ascii_case;
use crate::text::{chars_of, lowercase_str, str_to_lowercase, trim_spec, trim_string};

verus! {

/// Every colour role of a theme, each a colour name or `#rrggbb` code.
#[derive(Debug, Clone)]
pub struct ThemeConfig {
    pub name: String,
    pub description: String,
    pub bg: String,
    pub fg: String,
    pub fg_dim: String,
    pub fg_subtle: String,
    pub accent: String,
    pub accent_subtle: String,
    pub selection_bg: String,
    pub selection_fg: String,
    pub border_active: String,
    pub border_inactive: String,
    pub border_accent: String,
    pub sidebar_bg: String,
    pub sidebar_header_fg: String,
    pub sidebar_folder_fg: String,
    pub sidebar_feed_fg: String,
    pub sidebar_unread_badge_bg: String,
    pub sidebar_unread_badge_fg: String,
    pub article_list_bg: String,
    pub article_card_bg: String,
    pub article_card_selected_bg: String,
    pub article_card_selected_border: String,
    pub article_title_unread: String,
    pub article_title_read: String,
    pub article_summary_fg: String,
    pub article_meta_fg: String,
    pub article_unread_dot: String,
    pub article_star: String,
    pub reader_bg: String,
    pub reader_header_feed: String,
    pub reader_header_author: String,
    pub reader_title: String,
    pub reader_meta: String,
    pub reader_divider: String,
    pub reader_body: String,
    pub reader_h1: String,
    pub reader_h2: String,
    pub reader_h3: String,
    pub reader_quote_border: String,
    pub reader_quote_fg: String,
    pub reader_code_bg: String,
    pub reader_code_fg: String,
    pub reader_link: String,
    pub reader_link_url: String,
    pub status_bar_bg: String,
    pub status_bar_fg: String,
    pub modal_bg: String,
    pub modal_border: String,
    pub error_fg: String,
    pub success_fg: String,
    pub warning_fg: String,
}

/// A compact palette from which a full [`ThemeConfig`] is derived: a dozen
/// decisions instead of fifty roles, so derived roles stay consistent.
#[derive(Debug, Clone)]
pub struct Palette {
    pub name: &'static str,
    pub description: &'static str,
    /// Main background.
    pub bg: &'static str,
    /// Recessed background: sidebar, cards, status bar.
    pub bg_alt: &'static str,
    /// Selected-row background.
    pub bg_sel: &'static str,
    pub fg: &'static str,
    pub fg_dim: &'static str,
    pub fg_subtle: &'static str,
    pub accent: &'static str,
    pub red: &'static str,
    pub green: &'static str,
    pub yellow: &'static str,
    pub blue: &'static str,
    pub magenta: &'static str,
    pub cyan: &'static str,
}

/// The theme roles a palette stands for.
pub open spec fn palette_roles(p: Palette, c: ThemeConfig) -> bool {
    &&& c.name@ == p.name@
    &&& c.description@ == p.description@
    &&& c.bg@ == p.bg@
    &&& c.fg@ == p.fg@
    &&& c.fg_dim@ == p.fg_dim@
    &&& c.fg_subtle@ == p.fg_subtle@
    &&& c.accent@ == p.accent@
    &&& c.accent_subtle@ == p.bg_sel@
    &&& c.selection_bg@ == p.bg_sel@
    &&& c.selection_fg@ == p.accent@
    &&& c.border_active@ == p.accent@
    &&& c.border_inactive@ == p.bg_sel@
    &&& c.border_accent@ == p.blue@
    &&& c.sidebar_bg@ == p.bg_alt@
    &&& c.sidebar_header_fg@ == p.fg_subtle@
    &&& c.sidebar_folder_fg@ == p.blue@
    &&& c.sidebar_feed_fg@ == p.fg@
    &&& c.sidebar_unread_badge_bg@ == p.bg_sel@
    &&& c.sidebar_unread_badge_fg@ == p.accent@
    &&& c.article_list_bg@ == p.bg@
    &&& c.article_card_bg@ == p.bg_alt@
    &&& c.article_card_selected_bg@ == p.bg_sel@
    &&& c.article_card_selected_border@ == p.accent@
    &&& c.article_title_unread@ == p.fg@
    &&& c.article_title_read@ == p.fg_subtle@
    &&& c.article_summary_fg@ == p.fg_dim@
    &&& c.article_meta_fg@ == p.cyan@
    &&& c.article_unread_dot@ == p.accent@
    &&& c.article_star@ == p.yellow@
    &&& c.reader_bg@ == p.bg@
    &&& c.reader_header_feed@ == p.blue@
    &&& c.reader_header_author@ == p.fg_dim@
    &&& c.reader_title@ == p.fg@
    &&& c.reader_meta@ == p.fg_subtle@
    &&& c.reader_divider@ == p.bg_sel@
    &&& c.reader_body@ == p.fg@
    &&& c.reader_h1@ == p.accent@
    &&& c.reader_h2@ == p.blue@
    &&& c.reader_h3@ == p.cyan@
    &&& c.reader_quote_border@ == p.magenta@
    &&& c.reader_quote_fg@ == p.fg_dim@
    &&& c.reader_code_bg@ == p.bg_alt@
    &&& c.reader_code_fg@ == p.green@
    &&& c.reader_link@ == p.accent@
    &&& c.reader_link_url@ == p.cyan@
    &&& c.status_bar_bg@ == p.bg_alt@
    &&& c.status_bar_fg@ == p.fg_dim@
    &&& c.modal_bg@ == p.bg@
    &&& c.modal_border@ == p.accent@
    &&& c.error_fg@ == p.red@
    &&& c.success_fg@ == p.green@
    &&& c.warning_fg@ == p.yellow@
}

impl ThemeConfig {
    /// The full theme a palette stands for.
    pub fn from_palette(p: &Palette) -> (c: ThemeConfig)
        ensures
            palette_roles(*p, c),
    {
        ThemeConfig {
            name: p.name.to_owned(),
            description: p.description.to_owned(),
            bg: p.bg.to_owned(),
            fg: p.fg.to_owned(),
            fg_dim: p.fg_dim.to_owned(),
            fg_subtle: p.fg_subtle.to_owned(),
            accent: p.accent.to_owned(),
            accent_subtle: p.bg_sel.to_owned(),
            selection_bg: p.bg_sel.to_owned(),
            selection_fg: p.accent.to_owned(),
            border_active: p.accent.to_owned(),
            border_inactive: p.bg_sel.to_owned(),
            border_accent: p.blue.to_owned(),
            sidebar_bg: p.bg_alt.to_owned(),
            sidebar_header_fg: p.fg_subtle.to_owned(),
            sidebar_folder_fg: p.blue.to_owned(),
            sidebar_feed_fg: p.fg.to_owned(),
            sidebar_unread_badge_bg: p.bg_sel.to_owned(),
            sidebar_unread_badge_fg: p.accent.to_owned(),
            article_list_bg: p.bg.to_owned(),
            article_card_bg: p.bg_alt.to_owned(),
            article_card_selected_bg: p.bg_sel.to_owned(),
            article_card_selected_border: p.accent.to_owned(),
            article_title_unread: p.fg.to_owned(),
            article_title_read: p.fg_subtle.to_owned(),
            article_summary_fg: p.fg_dim.to_owned(),
            article_meta_fg: p.cyan.to_owned(),
            article_unread_dot: p.accent.to_owned(),
            article_star: p.yellow.to_owned(),
            reader_bg: p.bg.to_owned(),
            reader_header_feed: p.blue.to_owned(),
            reader_header_author: p.fg_dim.to_owned(),
            reader_title: p.fg.to_owned(),
            reader_meta: p.fg_subtle.to_owned(),
            reader_divider: p.bg_sel.to_owned(),
            reader_body: p.fg.to_owned(),
            reader_h1: p.accent.to_owned(),
            reader_h2: p.blue.to_owned(),
            reader_h3: p.cyan.to_owned(),
            reader_quote_border: p.magenta.to_owned(),
            reader_quote_fg: p.fg_dim.to_owned(),
            reader_code_bg: p.bg_alt.to_owned(),
            reader_code_fg: p.green.to_owned(),
            reader_link: p.accent.to_owned(),
            reader_link_url: p.cyan.to_owned(),
            status_bar_bg: p.bg_alt.to_owned(),
            status_bar_fg: p.fg_dim.to_owned(),
            modal_bg: p.bg.to_owned(),
            modal_border: p.accent.to_owned(),
            error_fg: p.red.to_owned(),
            success_fg: p.green.to_owned(),
            warning_fg: p.yellow.to_owned(),
        }
    }
}

/// A terminal colour.
#[derive(Debug, Clone, Copy, PartialEq, Eq, Structural)]
pub enum TermColor {
    /// The terminal's own default.
    Reset,
    Black,
    Red,
    Green,
    Yellow,
    Blue,
    Magenta,
    Cyan,
    Gray,
    DarkGray,
    LightRed,
    LightGreen,
    LightYellow,
    LightBlue,
    LightMagenta,
    LightCyan,
    White,
    Rgb(u8, u8, u8),
}

/// The value of a hexadecimal digit.
pub open spec fn hex_value(c: char) -> Option<int> {
    if '0' <= c && c <= '9' {
        Some(c as int - '0' as int)
    } else if 'a' <= c && c <= 'f' {
        Some(c as int - 'a' as int + 10)
    } else if 'A' <= c && c <= 'F' {
        Some(c as int - 'A' as int + 10)
    } else {
        None
    }
}

/// The byte two characters spell in base 16, as `u8::from_str_radix` reads
/// them: two digits, or a `+` sign and one digit.
pub open spec fn byte_of(c1: char, c2: char) -> Option<u8> {
    if c1 == '+' {
        match hex_value(c2) {
            Some(v) => Some(v as u8),
            None => None,
        }
    } else {
        match (hex_value(c1), hex_value(c2)) {
            (Some(a), Some(b)) => Some((16 * a + b) as u8),
            _ => None,
        }
    }
}

/// The colour of a `#rrggbb` code's six characters.
pub open spec fn rgb6(h: Seq<char>) -> Option<TermColor> {
    match (byte_of(h[0], h[1]), byte_of(h[2], h[3]), byte_of(h[4], h[5])) {
        (Some(r), Some(g), Some(b)) => Some(TermColor::Rgb(r, g, b)),
        _ => None,
    }
}

/// The colour of a `#rgb` code's three characters, each doubled.
pub open spec fn rgb3(h: Seq<char>) -> Option<TermColor> {
    match (byte_of(h[0], h[0]), byte_of(h[1], h[1]), byte_of(h[2], h[2])) {
        (Some(r), Some(g), Some(b)) => Some(TermColor::Rgb(r, g, b)),
        _ => None,
    }
}

/// The colour a lowercase name stands for; unknown names are the default.
pub open spec fn named_color(lower: Seq<char>) -> TermColor {
    if lower == "black"@ {
        TermColor::Black
    } else if lower == "red"@ {
        TermColor::Red
    } else if lower == "green"@ {
        TermColor::Green
    } else if lower == "yellow"@ {
        TermColor::Yellow
    } else if lower == "blue"@ {
        TermColor::Blue
    } else if lower == "magenta"@ {
        TermColor::Magenta
    } else if lower == "cyan"@ {
        TermColor::Cyan
    } else if lower == "gray"@ {
        TermColor::Gray
    } else if lower == "grey"@ {
        TermColor::Gray
    } else if lower == "darkgray"@ {
        TermColor::DarkGray
    } else if lower == "darkgrey"@ {
        TermColor::DarkGray
    } else if lower == "dark_gray"@ {
        TermColor::DarkGray
    } else if lower == "lightred"@ {
        TermColor::LightRed
    } else if lower == "light_red"@ {
        TermColor::LightRed
    } else if lower == "lightgreen"@ {
        TermColor::LightGreen
    } else if lower == "light_green"@ {
        TermColor::LightGreen
    } else if lower == "lightyellow"@ {
        TermColor::LightYellow
    } else if lower == "light_yellow"@ {
        TermColor::LightYellow
    } else if lower == "lightblue"@ {
        TermColor::LightBlue
    } else if lower == "light_blue"@ {
        TermColor::LightBlue
    } else if lower == "lightmagenta"@ {
        TermColor::LightMagenta
    } else if lower == "light_magenta"@ {
        TermColor::LightMagenta
    } else if lower == "lightcyan"@ {
        TermColor::LightCyan
    } else if lower == "light_cyan"@ {
        TermColor::LightCyan
    } else if lower == "white"@ {
        TermColor::White
    } else {
        TermColor::Reset
    }
}

/// The colour a theme entry names: blank or "reset" (any case) is the
/// default; `#rrggbb` and `#rgb` codes are read as hexadecimal; otherwise
/// the name, lowercased, is looked up.
pub open spec fn color_of(text: Seq<char>) -> TermColor {
    let s = trim_spec(text);
    if s.len() == 0 || ascii_folded(s) == ascii_folded("reset"@) {
        TermColor::Reset
    } else if s[0] == '#' && s.len() == 7 && rgb6(s.drop_first()) is Some {
        rgb6(s.drop_first())->0
    } else if s[0] == '#' && s.len() == 4 && rgb3(s.drop_first()) is Some {
        rgb3(s.drop_first())->0
    } else {
        named_color(lowercase_str(s))
    }
}

fn hex_value_exec(c: char) -> (r: Option<u32>)
    ensures
        match r {
            Some(v) => hex_value(c) == Some(v as int),
            None => hex_value(c) is None,
        },
{
    if '0' <= c && c <= '9' {
        Some((c as u32) - ('0' as u32))
    } else if 'a' <= c && c <= 'f' {
        Some((c as u32) - ('a' as u32) + 10)
    } else if 'A' <= c && c <= 'F' {
        Some((c as u32) - ('A' as u32) + 10)
    } else {
        None
    }
}

fn byte_of_exec(c1: char, c2: char) -> (r: Option<u8>)
    ensures
        r == byte_of(c1, c2),
{
    if c1 == '+' {
        match hex_value_exec(c2) {
            Some(v) => Some(v as u8),
            None => None,
        }
    } else {
        match (hex_value_exec(c1), hex_value_exec(c2)) {
            (Some(a), Some(b)) => Some((16 * a + b) as u8),
            _ => None,
        }
    }
}

fn is(s: &String, lit: &str) -> (r: bool)
    ensures
        r == (s@ == lit@),
{
    crate::text::str_eq(s.as_str(), lit)
}

fn named_color_exec(lower: &String) -> (r: TermColor)
    ensures
        r == named_color(lower@),
{
    proof {
        reveal_strlit("black");
        reveal_strlit("red");
        reveal_strlit("green");
        reveal_strlit("yellow");
        reveal_strlit("blue");
        reveal_strlit("magenta");
        reveal_strlit("cyan");
        reveal_strlit("gray");
        reveal_strlit("grey");
        reveal_strlit("darkgray");
        reveal_strlit("darkgrey");
        reveal_strlit("dark_gray");
        reveal_strlit("lightred");
        reveal_strlit("light_red");
        reveal_strlit("lightgreen");
        reveal_strlit("light_green");
        reveal_strlit("lightyellow");
        reveal_strlit("light_yellow");
        reveal_strlit("lightblue");
        reveal_strlit("light_blue");
        reveal_strlit("lightmagenta");
        reveal_strlit("light_magenta");
        reveal_strlit("lightcyan");
        reveal_strlit("light_cyan");
        reveal_strlit("white");
    }
    if is(&lower, "black") {
        TermColor::Black
    } else if is(&lower, "red") {
        TermColor::Red
    } else if is(&lower, "green") {
        TermColor::Green
    } else if is(&lower, "yellow") {
        TermColor::Yellow
    } else if is(&lower, "blue") {
        TermColor::Blue
    } else if is(&lower, "magenta") {
        TermColor::Magenta
    } else if is(&lower, "cyan") {
        TermColor::Cyan
    } else if is(&lower, "gray") {
        TermColor::Gray
    } else if is(&lower, "grey") {
        TermColor::Gray
    } else if is(&lower, "darkgray") {
        TermColor::DarkGray
    } else if is(&lower, "darkgrey") {
        TermColor::DarkGray
    } else if is(&lower, "dark_gray") {
        TermColor::DarkGray
    } else if is(&lower, "lightred") {
        TermColor::LightRed
    } else if is(&lower, "light_red") {
        TermColor::LightRed
    } else if is(&lower, "lightgreen") {
        TermColor::LightGreen
    } else if is(&lower, "light_green") {
        TermColor::LightGreen
    } else if is(&lower, "lightyellow") {
        TermColor::LightYellow
    } else if is(&lower, "light_yellow") {
        TermColor::LightYellow
    } else if is(&lower, "lightblue") {
        TermColor::LightBlue
    } else if is(&lower, "light_blue") {
        TermColor::LightBlue
    } else if is(&lower, "lightmagenta") {
        TermColor::LightMagenta
    } else if is(&lower, "light_magenta") {
        TermColor::LightMagenta
    } else if is(&lower, "lightcyan") {
        TermColor::LightCyan
    } else if is(&lower, "light_cyan") {
        TermColor::LightCyan
    } else if is(&lower, "white") {
        TermColor::White
    } else {
        TermColor::Reset
    }
}

/// Reads the colour a theme entry names.
pub fn parse_color(color_str: &str) -> (r: TermColor)
    ensures
        r == color_of(color_str@),
{
    proof {
        reveal_strlit("reset");
    }
    let t = trim_string(color_str);
    let s = chars_of(t.as_str());
    if s.len() == 0 || eq_ignore_ascii_case(t.as_str(), "reset") {
        return TermColor::Reset;
    }
    if s[0] == '#' && s.len() == 7 {
        assert(s@.drop_first()[0] == s@[1] && s@.drop_first()[5] == s@[6]);
        if let (Some(r), Some(g), Some(b)) = (byte_of_exec(s[1], s[2]), byte_of_exec(s[3], s[4]), byte_of_exec(s[5], s[6])) {
            return TermColor::Rgb(r, g, b);
        }
    } else if s[0] == '#' && s.len() == 4 {
        assert(s@.drop_first()[0] == s@[1] && s@.drop_first()[2] == s@[3]);
        if let (Some(r), Some(g), Some(b)) = (byte_of_exec(s[1], s[1]), byte_of_exec(s[2], s[2]), byte_of_exec(s[3], s[3])) {
            return TermColor::Rgb(r, g, b);
        }
    }
    named_color_exec(&str_to_lowercase(t.as_str()))
}

/// The preset a theme name picks among the presets named `names`: the
/// NetNewsWire names are kept as aliases of the RataRSS presets; otherwise
/// the first preset of that name, ignoring ASCII case. `None` means the
/// default dark preset.
pub open spec fn preset_for(names: Seq<String>, name: Seq<char>) -> Option<int> {
    let f = ascii_folded(name);
    if f == ascii_folded("NetNewsWire Dark"@) || f == ascii_folded("RataRSS Dark"@) {
        crate::app::keys::theme_index(names, "RataRSS Dark"@)
    } else if f == ascii_folded("NetNewsWire Light"@) || f == ascii_folded("RataRSS Light"@) {
        crate::app::keys::theme_index(names, "RataRSS Light"@)
    } else {
        crate::app::keys::theme_index(names, name)
    }
}

/// Finds the preset a theme name picks.
pub fn find_preset(names: &Vec<String>, name: &str) -> (r: Option<usize>)
    ensures
        match r {
            Some(i) => preset_for(names@, name@) == Some(i as int) && i < names.len(),
            None => preset_for(names@, name@) is None,
        },
{
    if eq_ignore_ascii_case(name, "NetNewsWire Dark") || eq_ignore_ascii_case(name, "RataRSS Dark") {
        crate::app::keys::find_theme(names, "RataRSS Dark")
    } else if eq_ignore_ascii_case(name, "NetNewsWire Light") || eq_ignore_ascii_case(name, "RataRSS Light") {
        crate::app::keys::find_theme(names, "RataRSS Light")
    } else {
        crate::app::keys::find_theme(names, name)
    }
}

} // verus!
