//! User configuration: key bindings, layout ratios and reading behaviour,
//! and how a key press is matched against a binding such as `"j, down"`.
use vstd::prelude::*;
use crate::text::{
    ascii_lower, ascii_upper,
    char_is_uppercase, chars_eq_str, string_from_chars, unicode_uppercase, chars_of, contains_chars, lowercase_str, remove_all, remove_all_chars,
    seq_contains, str_to_lowercase, trim_chars, trim_spec,
};

verus! {

/// The key bindings, each a comma-separated list of keys such as
/// `"ctrl+c"`, `"G"`, `"pagedown"` or `"shift+x"`.
#[derive(Debug, Clone)]
pub struct KeyBindingsConfig {
    pub quit: String,
    pub help: String,
    pub toggle_config: String,
    pub theme_picker: String,
    pub add_feed: String,
    pub export_opml: String,
    pub delete_item: String,
    pub toggle_zen: String,
    pub search: String,
    pub search_feeds: String,
    pub refresh_current: String,
    pub refresh_all: String,
    pub toggle_read: String,
    pub mark_all_read: String,
    pub toggle_star: String,
    pub open_browser: String,
    pub copy_url: String,
    pub focus_next_pane: String,
    pub focus_prev_pane: String,
    pub focus_sidebar: String,
    pub focus_article_list: String,
    pub focus_reader: String,
    pub nav_down: String,
    pub nav_up: String,
    pub page_down: String,
    pub page_up: String,
    pub space_advance: String,
    pub jump_top: String,
    pub jump_bottom: String,
    pub select_enter: String,
    pub resize_sidebar_dec: String,
    pub resize_sidebar_inc: String,
    pub resize_article_dec: String,
    pub resize_article_inc: String,
    pub resize_reader_inc: String,
    pub resize_reader_dec: String,
    pub reset_layout: String,
}

/// The binding every action starts with.
pub open spec fn default_bindings(kb: KeyBindingsConfig) -> bool {
    &&& kb.quit@ == "q, ctrl+c"@
    &&& kb.help@ == "?, f1"@
    &&& kb.toggle_config@ == "/"@
    &&& kb.theme_picker@ == "t, T"@
    &&& kb.add_feed@ == "a"@
    &&& kb.export_opml@ == "e"@
    &&& kb.delete_item@ == "d"@
    &&& kb.toggle_zen@ == "f, z"@
    &&& kb.search@ == "ctrl+a"@
    &&& kb.search_feeds@ == "ctrl+f"@
    &&& kb.refresh_current@ == "r"@
    &&& kb.refresh_all@ == "R"@
    &&& kb.toggle_read@ == "m"@
    &&& kb.mark_all_read@ == "M"@
    &&& kb.toggle_star@ == "s"@
    &&& kb.open_browser@ == "o"@
    &&& kb.copy_url@ == "y"@
    &&& kb.focus_next_pane@ == "tab, l, right"@
    &&& kb.focus_prev_pane@ == "backtab, h, left"@
    &&& kb.focus_sidebar@ == "1"@
    &&& kb.focus_article_list@ == "2"@
    &&& kb.focus_reader@ == "3"@
    &&& kb.nav_down@ == "j, down"@
    &&& kb.nav_up@ == "k, up"@
    &&& kb.page_down@ == "pagedown"@
    &&& kb.page_up@ == "pageup"@
    &&& kb.space_advance@ == "space"@
    &&& kb.jump_top@ == "g, home"@
    &&& kb.jump_bottom@ == "G, end"@
    &&& kb.select_enter@ == "enter"@
    &&& kb.resize_sidebar_dec@ == "<"@
    &&& kb.resize_sidebar_inc@ == ">"@
    &&& kb.resize_article_dec@ == "["@
    &&& kb.resize_article_inc@ == "]"@
    &&& kb.resize_reader_inc@ == "+"@
    &&& kb.resize_reader_dec@ == "-"@
    &&& kb.reset_layout@ == "=, ctrl+r"@
}

/// The article-search binding written by versions that used ctrl+f for it.
pub open spec fn legacy_search_binding() -> Seq<char> {
    "ctrl+f, ctrl+s"@
}

impl Default for KeyBindingsConfig {
    fn default() -> (r: Self)
        ensures
            default_bindings(r),
    {
        KeyBindingsConfig {
            quit: "q, ctrl+c".to_owned(),
            help: "?, f1".to_owned(),
            toggle_config: "/".to_owned(),
            theme_picker: "t, T".to_owned(),
            add_feed: "a".to_owned(),
            export_opml: "e".to_owned(),
            delete_item: "d".to_owned(),
            toggle_zen: "f, z".to_owned(),
            search: "ctrl+a".to_owned(),
            search_feeds: "ctrl+f".to_owned(),
            refresh_current: "r".to_owned(),
            refresh_all: "R".to_owned(),
            toggle_read: "m".to_owned(),
            mark_all_read: "M".to_owned(),
            toggle_star: "s".to_owned(),
            open_browser: "o".to_owned(),
            copy_url: "y".to_owned(),
            focus_next_pane: "tab, l, right".to_owned(),
            focus_prev_pane: "backtab, h, left".to_owned(),
            focus_sidebar: "1".to_owned(),
            focus_article_list: "2".to_owned(),
            focus_reader: "3".to_owned(),
            nav_down: "j, down".to_owned(),
            nav_up: "k, up".to_owned(),
            page_down: "pagedown".to_owned(),
            page_up: "pageup".to_owned(),
            space_advance: "space".to_owned(),
            jump_top: "g, home".to_owned(),
            jump_bottom: "G, end".to_owned(),
            select_enter: "enter".to_owned(),
            resize_sidebar_dec: "<".to_owned(),
            resize_sidebar_inc: ">".to_owned(),
            resize_article_dec: "[".to_owned(),
            resize_article_inc: "]".to_owned(),
            resize_reader_inc: "+".to_owned(),
            resize_reader_dec: "-".to_owned(),
            reset_layout: "=, ctrl+r".to_owned(),
        }
    }
}

impl KeyBindingsConfig {
    /// Moves a configuration written before ctrl+f meant feed search onto
    /// the new article-search binding: an untouched old default becomes
    /// `ctrl+a`; anything the user customised is kept.
    pub fn migrate(&mut self)
        ensures
            old(self).search@ == legacy_search_binding() ==> final(self).search@ == "ctrl+a"@,
            old(self).search@ != legacy_search_binding() ==> final(self).search == old(self).search,
            final(self).quit == old(self).quit,
            final(self).help == old(self).help,
            final(self).toggle_config == old(self).toggle_config,
            final(self).theme_picker == old(self).theme_picker,
            final(self).add_feed == old(self).add_feed,
            final(self).export_opml == old(self).export_opml,
            final(self).delete_item == old(self).delete_item,
            final(self).toggle_zen == old(self).toggle_zen,
            final(self).search_feeds == old(self).search_feeds,
            final(self).refresh_current == old(self).refresh_current,
            final(self).refresh_all == old(self).refresh_all,
            final(self).toggle_read == old(self).toggle_read,
            final(self).mark_all_read == old(self).mark_all_read,
            final(self).toggle_star == old(self).toggle_star,
            final(self).open_browser == old(self).open_browser,
            final(self).copy_url == old(self).copy_url,
            final(self).focus_next_pane == old(self).focus_next_pane,
            final(self).focus_prev_pane == old(self).focus_prev_pane,
            final(self).focus_sidebar == old(self).focus_sidebar,
            final(self).focus_article_list == old(self).focus_article_list,
            final(self).focus_reader == old(self).focus_reader,
            final(self).nav_down == old(self).nav_down,
            final(self).nav_up == old(self).nav_up,
            final(self).page_down == old(self).page_down,
            final(self).page_up == old(self).page_up,
            final(self).space_advance == old(self).space_advance,
            final(self).jump_top == old(self).jump_top,
            final(self).jump_bottom == old(self).jump_bottom,
            final(self).select_enter == old(self).select_enter,
            final(self).resize_sidebar_dec == old(self).resize_sidebar_dec,
            final(self).resize_sidebar_inc == old(self).resize_sidebar_inc,
            final(self).resize_article_dec == old(self).resize_article_dec,
            final(self).resize_article_inc == old(self).resize_article_inc,
            final(self).resize_reader_inc == old(self).resize_reader_inc,
            final(self).resize_reader_dec == old(self).resize_reader_dec,
            final(self).reset_layout == old(self).reset_layout,
    {
        let cur = chars_of(self.search.as_str());
        if chars_eq_str(&cur, "ctrl+f, ctrl+s") {
            self.search = "ctrl+a".to_owned();
        }
    }

    pub fn matches(&self, event: &KeyPress, binding_str: &str) -> (r: bool)
        ensures
            r == binding_matches(*event, binding_str@),
    {
        key_matches(event, binding_str)
    }
}


/// A key as the terminal reports it.
#[derive(Debug, Clone, Copy, PartialEq, Eq, Structural)]
pub enum KeyCode {
    Tab,
    BackTab,
    Enter,
    Esc,
    Backspace,
    Delete,
    Left,
    Right,
    Up,
    Down,
    PageDown,
    PageUp,
    Home,
    End,
    /// A function key, by number.
    F(u8),
    Char(char),
    /// Any key no binding can name.
    Other,
}

/// A key press with the modifiers held.
#[derive(Debug, Clone, Copy, PartialEq, Eq, Structural)]
pub struct KeyPress {
    pub code: KeyCode,
    pub ctrl: bool,
    pub alt: bool,
    pub shift: bool,
}

/// `char::to_ascii_uppercase`: maps `a`..`z` to `A`..`Z` and leaves every
/// other character unchanged.
fn char_to_ascii_uppercase(c: char) -> (r: char)
    ensures
        r == ascii_upper(c),
{
    if 'a' <= c && c <= 'z' {
        ((c as u8) - 32) as char
    } else {
        c
    }
}

/// `char::to_ascii_lowercase`: maps `A`..`Z` to `a`..`z` and leaves every
/// other character unchanged.
pub(crate) fn char_to_ascii_lowercase(c: char) -> (r: char)
    ensures
        r == ascii_lower(c),
{
    if 'A' <= c && c <= 'Z' {
        ((c as u8) + 32) as char
    } else {
        c
    }
}

/// A binding key with its modifier prefixes removed.
pub open spec fn strip_modifiers(lower: Seq<char>) -> Seq<char> {
    remove_all(remove_all(remove_all(remove_all(lower, "ctrl+"@), "control+"@), "alt+"@), "shift+"@)
}

/// A one-character binding against a typed character: an uppercase binding
/// matches itself, or its lowercase letter typed with shift; with `shift+`
/// the letter matches in either case while shift is held; otherwise the
/// character must be exactly the one typed.
pub open spec fn char_key_matches(ev: KeyPress, spec_char: char, has_shift: bool) -> bool {
    match ev.code {
        KeyCode::Char(c) => if unicode_uppercase(spec_char) {
            c == spec_char || (ascii_upper(c) == spec_char && ev.shift)
        } else if has_shift {
            ascii_lower(c) == ascii_lower(spec_char) && ev.shift
        } else {
            c == spec_char
        },
        _ => false,
    }
}

/// The function key a name such as `f5` stands for.
pub open spec fn function_key(name: Seq<char>) -> Option<u8> {
    if name == "f1"@ { Some(1u8) }
    else if name == "f2"@ { Some(2u8) }
    else if name == "f3"@ { Some(3u8) }
    else if name == "f4"@ { Some(4u8) }
    else if name == "f5"@ { Some(5u8) }
    else if name == "f6"@ { Some(6u8) }
    else if name == "f7"@ { Some(7u8) }
    else if name == "f8"@ { Some(8u8) }
    else if name == "f9"@ { Some(9u8) }
    else if name == "f10"@ { Some(10u8) }
    else if name == "f11"@ { Some(11u8) }
    else if name == "f12"@ { Some(12u8) }
    else { None }
}

/// Does the key named `name` (modifiers already removed) match the press?
/// `spec` is the binding as written, whose last character is the key when
/// the name is a single character.
pub open spec fn key_name_matches(ev: KeyPress, name: Seq<char>, spec: Seq<char>, has_shift: bool) -> bool {
    if name == "tab"@ {
        ev.code == KeyCode::Tab
    } else if name == "backtab"@ || name == "shift+tab"@ {
        ev.code == KeyCode::BackTab || (ev.code == KeyCode::Tab && ev.shift)
    } else if name == "enter"@ || name == "return"@ {
        ev.code == KeyCode::Enter
    } else if name == "esc"@ || name == "escape"@ {
        ev.code == KeyCode::Esc
    } else if name == "space"@ {
        ev.code == KeyCode::Char(' ')
    } else if name == "backspace"@ {
        ev.code == KeyCode::Backspace
    } else if name == "delete"@ {
        ev.code == KeyCode::Delete
    } else if name == "left"@ {
        ev.code == KeyCode::Left
    } else if name == "right"@ {
        ev.code == KeyCode::Right
    } else if name == "up"@ {
        ev.code == KeyCode::Up
    } else if name == "down"@ {
        ev.code == KeyCode::Down
    } else if name == "pagedown"@ || name == "pgdn"@ {
        ev.code == KeyCode::PageDown
    } else if name == "pageup"@ || name == "pgup"@ {
        ev.code == KeyCode::PageUp
    } else if name == "home"@ {
        ev.code == KeyCode::Home
    } else if name == "end"@ {
        ev.code == KeyCode::End
    } else if function_key(name) is Some {
        ev.code == KeyCode::F(function_key(name)->0)
    } else if name.len() == 1 {
        char_key_matches(ev, spec.last(), has_shift)
    } else {
        false
    }
}

/// Does one key of a binding, such as `"ctrl+f"`, match the press? Modifier
/// words are found case-insensitively anywhere in the key; control and alt
/// must be held exactly when named.
pub open spec fn single_key_matches(ev: KeyPress, spec: Seq<char>) -> bool {
    if spec.len() == 0 {
        false
    } else {
        let lower = lowercase_str(spec);
        let has_ctrl = seq_contains(lower, "ctrl+"@) || seq_contains(lower, "control+"@);
        let has_alt = seq_contains(lower, "alt+"@);
        let has_shift = seq_contains(lower, "shift+"@);
        if has_ctrl != ev.ctrl {
            false
        } else if has_alt != ev.alt {
            false
        } else {
            key_name_matches(ev, strip_modifiers(lower), spec, has_shift)
        }
    }
}

/// `s[a..b]` is one of the comma-separated keys of `s`.
pub open spec fn is_piece(s: Seq<char>, a: int, b: int) -> bool {
    &&& 0 <= a <= b <= s.len()
    &&& (a == 0 || s[a - 1] == ',')
    &&& (b == s.len() || s[b] == ',')
    &&& forall|k: int| a <= k < b ==> s[k] != ','
}

/// Some key of the comma-separated binding, trimmed, matches the press.
pub open spec fn binding_matches(ev: KeyPress, binding: Seq<char>) -> bool {
    exists|a: int, b: int|
        is_piece(binding, a, b) && #[trigger] single_key_matches(ev, trim_spec(binding.subrange(a, b)))
}

/// An empty binding matches no key press.
pub proof fn lemma_empty_binding_matches_nothing(ev: KeyPress)
    ensures
        !binding_matches(ev, Seq::empty()),
{
    let e: Seq<char> = Seq::empty();
    assert forall|a: int, b: int| is_piece(e, a, b) implies !#[trigger] single_key_matches(
        ev,
        trim_spec(e.subrange(a, b)),
    ) by {
        assert(e.subrange(a, b) =~= e);
        assert(crate::text::leading_ws(e) == 0);
        assert(crate::text::trim_start_spec(e) =~= e);
        assert(crate::text::trailing_ws(e) == 0);
        assert(trim_spec(e) =~= e);
    }
}

proof fn lemma_one_piece(ev: KeyPress, key: Seq<char>)
    requires
        !key.contains(','),
    ensures
        binding_matches(ev, key) == single_key_matches(ev, trim_spec(key)),
{
    assert(key.subrange(0, key.len() as int) =~= key);
    assert forall|k: int| 0 <= k < key.len() implies key[k] != ',' by {
        if key[k] == ',' {
            assert(key.contains(','));
        }
    }
    assert(is_piece(key, 0, key.len() as int));
    assert forall|a: int, b: int| #[trigger] is_piece(key, a, b) implies a == 0 && b == key.len() by {
        if a != 0 {
            assert(key[a - 1] == ',');
        }
        if b != key.len() {
            assert(key[b] == ',');
        }
    }
}

proof fn lemma_trim_space_first(c: Seq<char>)
    ensures
        trim_spec(seq![' '] + c) == trim_spec(c),
{
    let s = seq![' '] + c;
    assert(s.drop_first() =~= c);
    assert(crate::text::unicode_white_space(s[0]));
    assert(crate::text::leading_ws(s) == 1 + crate::text::leading_ws(c));
    crate::text::lemma_leading_ws_bound(c);
    assert(s.skip(crate::text::leading_ws(s) as int) =~= c.skip(crate::text::leading_ws(c) as int));
}

/// A binding of two keys joined by a comma and a space matches a press
/// exactly when one of the two keys, as a binding of its own, matches it.
pub proof fn lemma_binding_matches_either_key(ev: KeyPress, first: Seq<char>, second: Seq<char>)
    requires
        !first.contains(','),
        !second.contains(','),
    ensures
        binding_matches(ev, first + seq![',', ' '] + second) == (binding_matches(ev, first) || binding_matches(ev, second)),
{
    let spaced = seq![' '] + second;
    assert(!spaced.contains(',')) by {
        if spaced.contains(',') {
            let k = choose|k: int| 0 <= k < spaced.len() && spaced[k] == ',';
            assert(second[k - 1] == ',');
        }
    }
    assert(first + seq![',', ' '] + second =~= first + seq![','] + spaced);
    lemma_binding_two_pieces(ev, first, spaced);
    lemma_trim_space_first(second);
    lemma_one_piece(ev, first);
    lemma_one_piece(ev, second);
}

/// A binding of two keys joined by a comma matches a press exactly when one
/// of the two keys, trimmed, matches it.
proof fn lemma_binding_two_pieces(ev: KeyPress, first: Seq<char>, second: Seq<char>)
    requires
        !first.contains(','),
        !second.contains(','),
    ensures
        binding_matches(ev, first + seq![','] + second) == (single_key_matches(ev, trim_spec(first))
            || single_key_matches(ev, trim_spec(second))),
{
    let s = first + seq![','] + second;
    let n = first.len() as int;
    assert(s[n] == ',');
    assert forall|k: int| 0 <= k < s.len() && k != n implies #[trigger] s[k] != ',' by {
        if k < n {
            assert(s[k] == first[k]);
        } else {
            assert(s[k] == second[k - n - 1]);
        }
    }
    assert(s.subrange(0, n) =~= first);
    assert(s.subrange(n + 1, s.len() as int) =~= second);
    assert(is_piece(s, 0, n));
    assert(is_piece(s, n + 1, s.len() as int));
    assert forall|a: int, b: int| #[trigger] is_piece(s, a, b) implies (a == 0 && b == n) || (a == n + 1 && b
        == s.len()) by {
        if a != 0 {
            assert(s[a - 1] == ',');
            assert(a == n + 1);
        } else {
            if b > n {
                assert(s[n] == ',');
            }
            if b < n {
                assert(s[b] != ',');
            }
        }
    }
    if single_key_matches(ev, trim_spec(first)) {
        assert(is_piece(s, 0, n) && single_key_matches(ev, trim_spec(s.subrange(0, n))));
    }
    if single_key_matches(ev, trim_spec(second)) {
        assert(is_piece(s, n + 1, s.len() as int) && single_key_matches(
            ev,
            trim_spec(s.subrange(n + 1, s.len() as int)),
        ));
    }
}

/// A key of a binding that matches the press of a character `x` without
/// shift ends in `x`.
proof fn lemma_key_ends_in_char(ev: KeyPress, x: char, key: Seq<char>)
    requires
        ev.code == KeyCode::Char(x),
        !ev.shift,
        x != ' ',
        single_key_matches(ev, key),
    ensures
        key.len() > 0,
        key.last() == x,
{
}

/// A binding that matches the press of a character `x` without shift holds
/// `x`.
pub proof fn lemma_binding_holds_char(ev: KeyPress, x: char, binding: Seq<char>)
    requires
        ev.code == KeyCode::Char(x),
        !ev.shift,
        x != ' ',
        binding_matches(ev, binding),
    ensures
        binding.contains(x),
{
    let (a, b) = choose|a: int, b: int|
        is_piece(binding, a, b) && #[trigger] single_key_matches(ev, trim_spec(binding.subrange(a, b)));
    let sub = binding.subrange(a, b);
    let t = trim_spec(sub);
    lemma_key_ends_in_char(ev, x, t);
    let start = crate::text::trim_start_spec(sub);
    crate::text::lemma_leading_ws_bound(sub);
    crate::text::lemma_trailing_ws_bound(start);
    let lw = crate::text::leading_ws(sub) as int;
    assert(start == sub.skip(lw));
    assert(t == start.take(start.len() - crate::text::trailing_ws(start)));
    let i = t.len() - 1;
    assert(t[i] == start[i]);
    assert(start[i] == sub[lw + i]);
    assert(sub[lw + i] == binding[a + lw + i]);
    assert(binding[a + lw + i] == x);
}

/// The characters of a trimmed key of a binding are characters of the
/// binding.
proof fn lemma_trimmed_piece_char(binding: Seq<char>, a: int, b: int, j: int)
    requires
        0 <= a <= b <= binding.len(),
        0 <= j < trim_spec(binding.subrange(a, b)).len(),
    ensures
        exists|i: int| 0 <= i < binding.len() && binding[i] == #[trigger] trim_spec(binding.subrange(a, b))[j],
{
    let sub = binding.subrange(a, b);
    let start = crate::text::trim_start_spec(sub);
    crate::text::lemma_leading_ws_bound(sub);
    crate::text::lemma_trailing_ws_bound(start);
    let lw = crate::text::leading_ws(sub) as int;
    let t = trim_spec(sub);
    assert(t[j] == start[j]);
    assert(start[j] == sub[lw + j]);
    assert(sub[lw + j] == binding[a + lw + j]);
}

/// A binding of ASCII text that matches a press with control held holds a
/// `+`: the `ctrl+` or `control+` of the key that matched.
pub proof fn lemma_ctrl_binding_holds_plus(ev: KeyPress, binding: Seq<char>)
    requires
        ev.ctrl,
        crate::text::all_ascii(binding),
        binding_matches(ev, binding),
    ensures
        binding.contains('+'),
{
    reveal(lowercase_str);
    reveal_strlit("ctrl+");
    reveal_strlit("control+");
    let (a, b) = choose|a: int, b: int|
        is_piece(binding, a, b) && #[trigger] single_key_matches(ev, trim_spec(binding.subrange(a, b)));
    let t = trim_spec(binding.subrange(a, b));
    assert forall|j: int| 0 <= j < t.len() implies (#[trigger] t[j] as u32) < 128 by {
        lemma_trimmed_piece_char(binding, a, b, j);
    }
    assert(crate::text::all_ascii(t));
    let lower = lowercase_str(t);
    assert(lower == t.map_values(|c: char| ascii_lower(c)));
    let n: int = if seq_contains(lower, "ctrl+"@) { 4 } else { 7 };
    let p: Seq<char> = if seq_contains(lower, "ctrl+"@) { "ctrl+"@ } else { "control+"@ };
    assert(seq_contains(lower, p));
    let i = choose|i: int| crate::text::occurs_at(lower, p, i);
    assert(lower.subrange(i, i + p.len())[n] == p[n]);
    assert(lower[i + n] == '+');
    assert(t[i + n] == '+');
    lemma_trimmed_piece_char(binding, a, b, i + n);
}

/// The binding `ctrl+r` matches a press of `r` with control held and
/// nothing else.
pub proof fn lemma_ctrl_r_matches(ev: KeyPress)
    requires
        ev == (KeyPress { code: KeyCode::Char('r'), ctrl: true, alt: false, shift: false }),
    ensures
        binding_matches(ev, "ctrl+r"@),
{
    reveal(lowercase_str);
    reveal_strlit("ctrl+r");
    reveal_strlit("ctrl+");
    reveal_strlit("control+");
    reveal_strlit("alt+");
    reveal_strlit("shift+");
    reveal_strlit("r");
    let key = "ctrl+r"@;
    assert(!key.contains(','));
    lemma_one_piece(ev, key);
    assert(crate::text::leading_ws(key) == 0);
    assert(crate::text::trim_start_spec(key) =~= key);
    assert(crate::text::trailing_ws(key) == 0);
    assert(trim_spec(key) =~= key);
    assert(crate::text::all_ascii(key));
    assert(lowercase_str(key) =~= key);
    assert(key.subrange(0, 5) =~= "ctrl+"@);
    assert(crate::text::occurs_at(key, "ctrl+"@, 0));
    assert(seq_contains(key, "ctrl+"@));
    assert forall|i: int| !crate::text::occurs_at(key, "alt+"@, i) by {
        if crate::text::occurs_at(key, "alt+"@, i) {
            assert(key.subrange(i, i + 4)[0] == 'a');
            assert(key[i] == 'a');
        }
    }
    assert forall|i: int| !crate::text::occurs_at(key, "shift+"@, i) by {
        if crate::text::occurs_at(key, "shift+"@, i) {
            assert(key.subrange(i, i + 6)[0] == 's');
        }
    }
    let r = "r"@;
    let e: Seq<char> = Seq::empty();
    assert(key.skip(5) =~= r);
    assert(r.skip(1) =~= e);
    assert(remove_all(e, "ctrl+"@) == e);
    assert(remove_all(r, "ctrl+"@) =~= r);
    assert(remove_all(key, "ctrl+"@) == r);
    assert(remove_all(e, "control+"@) == e);
    assert(remove_all(r, "control+"@) =~= r);
    assert(remove_all(e, "alt+"@) == e);
    assert(remove_all(r, "alt+"@) =~= r);
    assert(remove_all(e, "shift+"@) == e);
    assert(remove_all(r, "shift+"@) =~= r);
    assert(strip_modifiers(key) == r);
    reveal_strlit("tab");
    reveal_strlit("backtab");
    reveal_strlit("shift+tab");
    reveal_strlit("enter");
    reveal_strlit("return");
    reveal_strlit("esc");
    reveal_strlit("escape");
    reveal_strlit("space");
    reveal_strlit("backspace");
    reveal_strlit("delete");
    reveal_strlit("left");
    reveal_strlit("right");
    reveal_strlit("up");
    reveal_strlit("down");
    reveal_strlit("pagedown");
    reveal_strlit("pgdn");
    reveal_strlit("pageup");
    reveal_strlit("pgup");
    reveal_strlit("home");
    reveal_strlit("end");
    reveal_strlit("f1");
    reveal_strlit("f2");
    reveal_strlit("f3");
    reveal_strlit("f4");
    reveal_strlit("f5");
    reveal_strlit("f6");
    reveal_strlit("f7");
    reveal_strlit("f8");
    reveal_strlit("f9");
    reveal_strlit("f10");
    reveal_strlit("f11");
    reveal_strlit("f12");
    assert(function_key(r) is None);
    assert(char_key_matches(ev, 'r', false));
    assert(key_name_matches(ev, r, key, false));
    assert(single_key_matches(ev, key));
}

/// A `ctrl+` binding of a letter other than `x` does not match the press of
/// `x` without shift.
pub proof fn lemma_ctrl_binding_misses(ev: KeyPress, x: char, c: char)
    requires
        ev.code == KeyCode::Char(x),
        !ev.shift,
        x != ' ',
        x != c,
        'a' <= c && c <= 'z',
    ensures
        !binding_matches(ev, "ctrl+"@ + seq![c]),
{
    reveal_strlit("ctrl+");
    let key = "ctrl+"@ + seq![c];
    assert(!key.contains(',')) by {
        if key.contains(',') {
            let k = choose|k: int| 0 <= k < key.len() && key[k] == ',';
            assert(k < 5 || k == 5);
        }
    }
    lemma_one_piece(ev, key);
    assert(!crate::text::unicode_white_space(key[0]));
    assert(crate::text::leading_ws(key) == 0);
    assert(crate::text::trim_start_spec(key) =~= key);
    assert(!crate::text::unicode_white_space(key.last()));
    assert(crate::text::trailing_ws(key) == 0);
    assert(trim_spec(key) =~= key);
    if single_key_matches(ev, key) {
        lemma_key_ends_in_char(ev, x, key);
    }
}

/// A binding of one ASCII symbol (neither a letter, a blank nor a comma)
/// matches the plain press of that symbol.
pub proof fn lemma_symbol_binding_matches(ev: KeyPress, x: char)
    requires
        ev == (KeyPress { code: KeyCode::Char(x), ctrl: false, alt: false, shift: false }),
        (x as u32) < 128,
        !crate::text::unicode_white_space(x),
        x != ',',
        !('a' <= x && x <= 'z'),
        !('A' <= x && x <= 'Z'),
    ensures
        binding_matches(ev, seq![x]),
{
    let s = seq![x];
    reveal(lowercase_str);
    reveal_strlit("ctrl+");
    reveal_strlit("control+");
    reveal_strlit("alt+");
    reveal_strlit("shift+");
    assert(s.subrange(0, 1) =~= s);
    assert(crate::text::leading_ws(s.drop_first()) == 0);
    assert(crate::text::leading_ws(s) == 0);
    assert(crate::text::trim_start_spec(s) =~= s);
    assert(crate::text::trailing_ws(s.drop_last()) == 0);
    assert(crate::text::trailing_ws(s) == 0);
    assert(trim_spec(s) =~= s);
    assert(crate::text::all_ascii(s));
    assert(lowercase_str(s) =~= s);
    assert(!seq_contains(s, "ctrl+"@));
    assert(!seq_contains(s, "control+"@));
    assert(!seq_contains(s, "alt+"@));
    assert(!seq_contains(s, "shift+"@));
    let e: Seq<char> = Seq::empty();
    assert(s.skip(1) =~= e);
    assert(remove_all(e, "ctrl+"@) == e);
    assert(remove_all(s, "ctrl+"@) =~= s);
    assert(remove_all(e, "control+"@) == e);
    assert(remove_all(s, "control+"@) =~= s);
    assert(remove_all(e, "alt+"@) == e);
    assert(remove_all(s, "alt+"@) =~= s);
    assert(remove_all(e, "shift+"@) == e);
    assert(remove_all(s, "shift+"@) =~= s);
    assert(strip_modifiers(s) == s);
    reveal_strlit("tab");
    reveal_strlit("backtab");
    reveal_strlit("shift+tab");
    reveal_strlit("enter");
    reveal_strlit("return");
    reveal_strlit("esc");
    reveal_strlit("escape");
    reveal_strlit("space");
    reveal_strlit("backspace");
    reveal_strlit("delete");
    reveal_strlit("left");
    reveal_strlit("right");
    reveal_strlit("up");
    reveal_strlit("down");
    reveal_strlit("pagedown");
    reveal_strlit("pgdn");
    reveal_strlit("pageup");
    reveal_strlit("pgup");
    reveal_strlit("home");
    reveal_strlit("end");
    reveal_strlit("f1");
    reveal_strlit("f2");
    reveal_strlit("f3");
    reveal_strlit("f4");
    reveal_strlit("f5");
    reveal_strlit("f6");
    reveal_strlit("f7");
    reveal_strlit("f8");
    reveal_strlit("f9");
    reveal_strlit("f10");
    reveal_strlit("f11");
    reveal_strlit("f12");
    assert(function_key(s) is None);
    assert(char_key_matches(ev, x, false));
    assert(key_name_matches(ev, s, s, false));
    assert(single_key_matches(ev, trim_spec(s.subrange(0, 1))));
    assert(is_piece(s, 0, 1));
}

fn name_is(name: &Vec<char>, lit: &str) -> (r: bool)
    ensures
        r == (name@ == lit@),
{
    chars_eq_str(name, lit)
}

fn single_key_matches_exec(event: &KeyPress, spec: &Vec<char>) -> (r: bool)
    ensures
        r == single_key_matches(*event, spec@),
{
    if spec.len() == 0 {
        return false;
    }
    let spec_str = string_from_chars(spec.as_slice());
    let lower_s = str_to_lowercase(spec_str.as_str());
    let lower = chars_of(lower_s.as_str());
    let ctrl_w = chars_of("ctrl+");
    let control_w = chars_of("control+");
    let alt_w = chars_of("alt+");
    let shift_w = chars_of("shift+");
    proof {
        reveal_strlit("ctrl+");
        reveal_strlit("control+");
        reveal_strlit("alt+");
        reveal_strlit("shift+");
    }
    let has_ctrl = contains_chars(&lower, &ctrl_w) || contains_chars(&lower, &control_w);
    let has_alt = contains_chars(&lower, &alt_w);
    let has_shift = contains_chars(&lower, &shift_w);
    if has_ctrl != event.ctrl {
        return false;
    }
    if has_alt != event.alt {
        return false;
    }
    let n1 = remove_all_chars(&lower, &ctrl_w);
    let n2 = remove_all_chars(&n1, &control_w);
    let n3 = remove_all_chars(&n2, &alt_w);
    let name = remove_all_chars(&n3, &shift_w);
    let code = event.code;
    if name_is(&name, "tab") {
        code == KeyCode::Tab
    } else if name_is(&name, "backtab") || name_is(&name, "shift+tab") {
        code == KeyCode::BackTab || (code == KeyCode::Tab && event.shift)
    } else if name_is(&name, "enter") || name_is(&name, "return") {
        code == KeyCode::Enter
    } else if name_is(&name, "esc") || name_is(&name, "escape") {
        code == KeyCode::Esc
    } else if name_is(&name, "space") {
        code == KeyCode::Char(' ')
    } else if name_is(&name, "backspace") {
        code == KeyCode::Backspace
    } else if name_is(&name, "delete") {
        code == KeyCode::Delete
    } else if name_is(&name, "left") {
        code == KeyCode::Left
    } else if name_is(&name, "right") {
        code == KeyCode::Right
    } else if name_is(&name, "up") {
        code == KeyCode::Up
    } else if name_is(&name, "down") {
        code == KeyCode::Down
    } else if name_is(&name, "pagedown") || name_is(&name, "pgdn") {
        code == KeyCode::PageDown
    } else if name_is(&name, "pageup") || name_is(&name, "pgup") {
        code == KeyCode::PageUp
    } else if name_is(&name, "home") {
        code == KeyCode::Home
    } else if name_is(&name, "end") {
        code == KeyCode::End
    } else if name_is(&name, "f1") {
        code == KeyCode::F(1)
    } else if name_is(&name, "f2") {
        code == KeyCode::F(2)
    } else if name_is(&name, "f3") {
        code == KeyCode::F(3)
    } else if name_is(&name, "f4") {
        code == KeyCode::F(4)
    } else if name_is(&name, "f5") {
        code == KeyCode::F(5)
    } else if name_is(&name, "f6") {
        code == KeyCode::F(6)
    } else if name_is(&name, "f7") {
        code == KeyCode::F(7)
    } else if name_is(&name, "f8") {
        code == KeyCode::F(8)
    } else if name_is(&name, "f9") {
        code == KeyCode::F(9)
    } else if name_is(&name, "f10") {
        code == KeyCode::F(10)
    } else if name_is(&name, "f11") {
        code == KeyCode::F(11)
    } else if name_is(&name, "f12") {
        code == KeyCode::F(12)
    } else if name.len() == 1 {
        let spec_char = spec[spec.len() - 1];
        match code {
            KeyCode::Char(c) => {
                if char_is_uppercase(spec_char) {
                    c == spec_char || (char_to_ascii_uppercase(c) == spec_char && event.shift)
                } else if has_shift {
                    char_to_ascii_lowercase(c) == char_to_ascii_lowercase(spec_char) && event.shift
                } else {
                    c == spec_char
                }
            },
            _ => false,
        }
    } else {
        false
    }
}

/// A piece that ends where a known piece ends starts where it starts.
proof fn lemma_piece_unique(s: Seq<char>, a: int, a2: int, b: int)
    requires
        is_piece(s, a, b),
        is_piece(s, a2, b),
    ensures
        a == a2,
{
    if a < a2 {
        assert(s[a2 - 1] == ',');
    } else if a2 < a {
        assert(s[a - 1] == ',');
    }
}

/// Does any comma-separated key of `binding` match the press?
pub fn key_matches(event: &KeyPress, binding: &str) -> (r: bool)
    ensures
        r == binding_matches(*event, binding@),
{
    let s = chars_of(binding);
    let mut start: usize = 0;
    let mut i: usize = 0;
    while i <= s.len()
        invariant
            s@ == binding@,
            start <= i <= s.len() + 1,
            i <= s.len() ==> start <= i,
            start == 0 || s@[start - 1] == ',',
            i <= s.len() ==> forall|k: int| start <= k < i ==> s@[k] != ',',
            forall|a: int, b: int|
                is_piece(s@, a, b) && b < i && i <= s.len() ==> !single_key_matches(
                    *event,
                    trim_spec(s@.subrange(a, b)),
                ),
            i > s.len() ==> forall|a: int, b: int|
                is_piece(s@, a, b) ==> !single_key_matches(*event, trim_spec(s@.subrange(a, b))),
        decreases s.len() + 1 - i,
    {
        if i == s.len() || s[i] == ',' {
            let mut piece: Vec<char> = Vec::new();
            let mut k = start;
            while k < i
                invariant
                    start <= k <= i <= s.len(),
                    piece@ == s@.subrange(start as int, k as int),
                decreases i - k,
            {
                piece.push(s[k]);
                assert(s@.subrange(start as int, k as int).push(s@[k as int]) =~= s@.subrange(
                    start as int,
                    k + 1,
                ));
                k = k + 1;
            }
            let trimmed = trim_chars(&piece);
            assert(is_piece(s@, start as int, i as int));
            if single_key_matches_exec(event, &trimmed) {
                return true;
            }
            proof {
                assert forall|a: int, b: int|
                    is_piece(s@, a, b) && b < i + 1 implies !single_key_matches(
                    *event,
                    trim_spec(s@.subrange(a, b)),
                ) by {
                    if b == i {
                        lemma_piece_unique(s@, a, start as int, b);
                    }
                }
            }
            if i == s.len() {
                proof {
                    assert forall|a: int, b: int| is_piece(s@, a, b) implies !single_key_matches(
                        *event,
                        trim_spec(s@.subrange(a, b)),
                    ) by {
                        assert(b < i + 1);
                    }
                }
                return false;
            }
            start = i + 1;
        }
        i = i + 1;
    }
    false
}


/// Everything the user can configure.
#[derive(Debug, Clone)]
pub struct AppConfig {
    pub theme: String,
    /// Pane widths in percent of the terminal.
    pub sidebar_ratio: u16,
    pub article_list_ratio: u16,
    pub reader_ratio: u16,
    pub refresh_interval_minutes: u64,
    pub auto_refresh_on_startup: bool,
    pub mark_read_on_open: bool,
    pub open_browser_command: Option<String>,
    pub max_articles_per_feed: usize,
    pub show_icons: bool,
    pub wrap_article_text: bool,
    /// Horizontal padding inside every pane, in cells (0-6).
    pub padding: u16,
    /// Gap between article cards, in half rows (0-6).
    pub article_spacing: u16,
    /// Whether the compact shortcut hints are drawn in the status bar.
    pub show_help_hints: bool,
    pub keybindings: KeyBindingsConfig,
}

/// The padding a configuration gets when it names none.
pub fn default_padding() -> (r: u16)
    ensures
        r == 1,
{
    1
}

/// The configuration a first start writes.
pub open spec fn default_config(c: AppConfig) -> bool {
    &&& c.theme@ == "RataRSS Dark"@
    &&& c.sidebar_ratio == 22
    &&& c.article_list_ratio == 33
    &&& c.reader_ratio == 45
    &&& c.refresh_interval_minutes == 15
    &&& c.auto_refresh_on_startup
    &&& c.mark_read_on_open
    &&& c.open_browser_command is None
    &&& c.max_articles_per_feed == 200
    &&& c.show_icons
    &&& c.wrap_article_text
    &&& c.padding == 1
    &&& c.article_spacing == 0
    &&& !c.show_help_hints
    &&& default_bindings(c.keybindings)
}

impl Default for AppConfig {
    fn default() -> (r: Self)
        ensures
            default_config(r),
    {
        AppConfig {
            theme: "RataRSS Dark".to_owned(),
            sidebar_ratio: 22,
            article_list_ratio: 33,
            reader_ratio: 45,
            refresh_interval_minutes: 15,
            auto_refresh_on_startup: true,
            mark_read_on_open: true,
            open_browser_command: None,
            max_articles_per_feed: 200,
            show_icons: true,
            wrap_article_text: true,
            padding: default_padding(),
            article_spacing: 0,
            show_help_hints: false,
            keybindings: KeyBindingsConfig::default(),
        }
    }
}

} // verus!
