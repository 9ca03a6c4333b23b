//! What a key does: the bound actions in the order they are tried, the pane
//! layout keys, and the theme picker's starting position.
use vstd::prelude::*;
use crate::text::ascii_lower;
use crate::config::{
    binding_matches, char_to_ascii_lowercase, default_bindings, lemma_binding_holds_char, lemma_binding_matches_either_key,
    lemma_ctrl_binding_holds_plus, lemma_ctrl_binding_misses, lemma_ctrl_r_matches, lemma_symbol_binding_matches,
    KeyBindingsConfig, KeyCode, KeyPress,
};
use crate::model::ActivePane;
use super::{App, Layout};

verus! {

/// An action a key binding names.
#[derive(Debug, Clone, Copy, PartialEq, Eq, Structural)]
pub enum Action {
    ToggleConfig,
    Quit,
    Help,
    ThemePicker,
    AddFeed,
    ExportOpml,
    DeleteItem,
    ToggleZen,
    Search,
    SearchFeeds,
    RefreshCurrent,
    RefreshAll,
    ToggleRead,
    MarkAllRead,
    ToggleStar,
    OpenBrowser,
    CopyUrl,
    FocusNextPane,
    FocusPrevPane,
    FocusSidebar,
    FocusArticleList,
    FocusReader,
    ResizeSidebarDec,
    ResizeSidebarInc,
    ResizeArticleDec,
    ResizeArticleInc,
    ResizeReaderInc,
    ResizeReaderDec,
    ResetLayout,
    NavDown,
    NavUp,
    PageDown,
    PageUp,
    SpaceAdvance,
    JumpTop,
    JumpBottom,
    SelectEnter,
}

/// The action a key press triggers: the first, in this order, whose binding
/// matches it.
pub open spec fn bound_action(kb: KeyBindingsConfig, k: KeyPress) -> Option<Action> {
    if binding_matches(k, kb.toggle_config@) {
        Some(Action::ToggleConfig)
    } else if binding_matches(k, kb.quit@) {
        Some(Action::Quit)
    } else if binding_matches(k, kb.help@) {
        Some(Action::Help)
    } else if binding_matches(k, kb.theme_picker@) {
        Some(Action::ThemePicker)
    } else if binding_matches(k, kb.add_feed@) {
        Some(Action::AddFeed)
    } else if binding_matches(k, kb.export_opml@) {
        Some(Action::ExportOpml)
    } else if binding_matches(k, kb.delete_item@) {
        Some(Action::DeleteItem)
    } else if binding_matches(k, kb.toggle_zen@) {
        Some(Action::ToggleZen)
    } else if binding_matches(k, kb.search@) {
        Some(Action::Search)
    } else if binding_matches(k, kb.search_feeds@) {
        Some(Action::SearchFeeds)
    } else if binding_matches(k, kb.refresh_current@) {
        Some(Action::RefreshCurrent)
    } else if binding_matches(k, kb.refresh_all@) {
        Some(Action::RefreshAll)
    } else if binding_matches(k, kb.toggle_read@) {
        Some(Action::ToggleRead)
    } else if binding_matches(k, kb.mark_all_read@) {
        Some(Action::MarkAllRead)
    } else if binding_matches(k, kb.toggle_star@) {
        Some(Action::ToggleStar)
    } else if binding_matches(k, kb.open_browser@) {
        Some(Action::OpenBrowser)
    } else if binding_matches(k, kb.copy_url@) {
        Some(Action::CopyUrl)
    } else if binding_matches(k, kb.focus_next_pane@) {
        Some(Action::FocusNextPane)
    } else if binding_matches(k, kb.focus_prev_pane@) {
        Some(Action::FocusPrevPane)
    } else if binding_matches(k, kb.focus_sidebar@) {
        Some(Action::FocusSidebar)
    } else if binding_matches(k, kb.focus_article_list@) {
        Some(Action::FocusArticleList)
    } else if binding_matches(k, kb.focus_reader@) {
        Some(Action::FocusReader)
    } else if binding_matches(k, kb.resize_sidebar_dec@) {
        Some(Action::ResizeSidebarDec)
    } else if binding_matches(k, kb.resize_sidebar_inc@) {
        Some(Action::ResizeSidebarInc)
    } else if binding_matches(k, kb.resize_article_dec@) {
        Some(Action::ResizeArticleDec)
    } else if binding_matches(k, kb.resize_article_inc@) {
        Some(Action::ResizeArticleInc)
    } else if binding_matches(k, kb.resize_reader_inc@) {
        Some(Action::ResizeReaderInc)
    } else if binding_matches(k, kb.resize_reader_dec@) {
        Some(Action::ResizeReaderDec)
    } else if binding_matches(k, kb.reset_layout@) {
        Some(Action::ResetLayout)
    } else if binding_matches(k, kb.nav_down@) {
        Some(Action::NavDown)
    } else if binding_matches(k, kb.nav_up@) {
        Some(Action::NavUp)
    } else if binding_matches(k, kb.page_down@) {
        Some(Action::PageDown)
    } else if binding_matches(k, kb.page_up@) {
        Some(Action::PageUp)
    } else if binding_matches(k, kb.space_advance@) {
        Some(Action::SpaceAdvance)
    } else if binding_matches(k, kb.jump_top@) {
        Some(Action::JumpTop)
    } else if binding_matches(k, kb.jump_bottom@) {
        Some(Action::JumpBottom)
    } else if binding_matches(k, kb.select_enter@) {
        Some(Action::SelectEnter)
    } else {
        None
    }
}

/// The layout action a plain press of one of the layout keys `<`, `>`, `[`,
/// `]`, `+`, `-` and `=` has under the default bindings.
pub open spec fn layout_key_action(x: char) -> Option<Action> {
    if x == '<' {
        Some(Action::ResizeSidebarDec)
    } else if x == '>' {
        Some(Action::ResizeSidebarInc)
    } else if x == '[' {
        Some(Action::ResizeArticleDec)
    } else if x == ']' {
        Some(Action::ResizeArticleInc)
    } else if x == '+' {
        Some(Action::ResizeReaderInc)
    } else if x == '-' {
        Some(Action::ResizeReaderDec)
    } else if x == '=' {
        Some(Action::ResetLayout)
    } else {
        None
    }
}

proof fn lemma_misses(ev: KeyPress, x: char, b: Seq<char>)
    requires
        ev.code == KeyCode::Char(x),
        !ev.shift,
        x != ' ',
        !b.contains(x),
    ensures
        !binding_matches(ev, b),
{
    if binding_matches(ev, b) {
        lemma_binding_holds_char(ev, x, b);
    }
}

/// Under the default bindings, a plain press of one of the layout keys
/// triggers its layout action: `<` and `>` narrow and widen the sidebar,
/// `[` and `]` the article list, `+` and `-` widen and narrow the reader,
/// and `=` resets the layout.
pub proof fn lemma_default_layout_keys(kb: KeyBindingsConfig, ev: KeyPress, x: char)
    requires
        default_bindings(kb),
        ev == (KeyPress { code: KeyCode::Char(x), ctrl: false, alt: false, shift: false }),
        layout_key_action(x) is Some,
    ensures
        bound_action(kb, ev) == layout_key_action(x),
{
    reveal_strlit("q, ctrl+c");
    reveal_strlit("?, f1");
    reveal_strlit("/");
    reveal_strlit("t, T");
    reveal_strlit("a");
    reveal_strlit("e");
    reveal_strlit("d");
    reveal_strlit("f, z");
    reveal_strlit("ctrl+a");
    reveal_strlit("ctrl+f");
    reveal_strlit("ctrl+c");
    reveal_strlit("ctrl+");
    reveal_strlit("q");
    reveal_strlit("r");
    reveal_strlit("R");
    reveal_strlit("m");
    reveal_strlit("M");
    reveal_strlit("s");
    reveal_strlit("o");
    reveal_strlit("y");
    reveal_strlit("tab, l, right");
    reveal_strlit("backtab, h, left");
    reveal_strlit("1");
    reveal_strlit("2");
    reveal_strlit("3");
    reveal_strlit("<");
    reveal_strlit(">");
    reveal_strlit("[");
    reveal_strlit("]");
    reveal_strlit("+");
    reveal_strlit("-");
    reveal_strlit("=, ctrl+r");
    reveal_strlit("=");
    reveal_strlit("ctrl+r");
    lemma_misses(ev, x, kb.toggle_config@);
    // The quit and search bindings hold `+`, but only inside `ctrl+` keys.
    assert("q, ctrl+c"@ =~= "q"@ + seq![',', ' '] + ("ctrl+"@ + seq!['c']));
    lemma_binding_matches_either_key(ev, "q"@, "ctrl+"@ + seq!['c']);
    lemma_misses(ev, x, "q"@);
    lemma_ctrl_binding_misses(ev, x, 'c');
    lemma_misses(ev, x, kb.help@);
    lemma_misses(ev, x, kb.theme_picker@);
    lemma_misses(ev, x, kb.add_feed@);
    lemma_misses(ev, x, kb.export_opml@);
    lemma_misses(ev, x, kb.delete_item@);
    lemma_misses(ev, x, kb.toggle_zen@);
    assert("ctrl+a"@ =~= "ctrl+"@ + seq!['a']);
    lemma_ctrl_binding_misses(ev, x, 'a');
    assert("ctrl+f"@ =~= "ctrl+"@ + seq!['f']);
    lemma_ctrl_binding_misses(ev, x, 'f');
    lemma_misses(ev, x, kb.refresh_current@);
    lemma_misses(ev, x, kb.refresh_all@);
    lemma_misses(ev, x, kb.toggle_read@);
    lemma_misses(ev, x, kb.mark_all_read@);
    lemma_misses(ev, x, kb.toggle_star@);
    lemma_misses(ev, x, kb.open_browser@);
    lemma_misses(ev, x, kb.copy_url@);
    lemma_misses(ev, x, kb.focus_next_pane@);
    lemma_misses(ev, x, kb.focus_prev_pane@);
    lemma_misses(ev, x, kb.focus_sidebar@);
    lemma_misses(ev, x, kb.focus_article_list@);
    lemma_misses(ev, x, kb.focus_reader@);
    let layout: Seq<Seq<char>> = seq![
        kb.resize_sidebar_dec@,
        kb.resize_sidebar_inc@,
        kb.resize_article_dec@,
        kb.resize_article_inc@,
        kb.resize_reader_inc@,
        kb.resize_reader_dec@,
    ];
    assert(layout[0] == seq!['<']);
    assert(layout[1] == seq!['>']);
    assert(layout[2] == seq!['[']);
    assert(layout[3] == seq![']']);
    assert(layout[4] == seq!['+']);
    assert(layout[5] == seq!['-']);
    assert forall|i: int| 0 <= i < layout.len() && layout[i] != seq![x] implies !binding_matches(ev, #[trigger] layout[i]) by {
        assert(layout[i].len() == 1);
        if layout[i].contains(x) {
            let k = choose|k: int| 0 <= k < layout[i].len() && layout[i][k] == x;
            assert(k == 0);
            assert(layout[i] =~= seq![x]);
        }
        lemma_misses(ev, x, layout[i]);
    }
    lemma_symbol_binding_matches(ev, x);
    if x == '=' {
        assert("=, ctrl+r"@ =~= seq!['='] + seq![',', ' '] + "ctrl+r"@);
        lemma_binding_matches_either_key(ev, seq!['='], "ctrl+r"@);
    }
}

proof fn lemma_ctrl_misses(ev: KeyPress, b: Seq<char>)
    requires
        ev.ctrl,
        crate::text::all_ascii(b),
        !b.contains('+'),
    ensures
        !binding_matches(ev, b),
{
    if binding_matches(ev, b) {
        lemma_ctrl_binding_holds_plus(ev, b);
    }
}

/// Under the default bindings, control and `r` resets the layout.
pub proof fn lemma_default_ctrl_r(kb: KeyBindingsConfig, ev: KeyPress)
    requires
        default_bindings(kb),
        ev == (KeyPress { code: KeyCode::Char('r'), ctrl: true, alt: false, shift: false }),
    ensures
        bound_action(kb, ev) == Some(Action::ResetLayout),
{
    reveal_strlit("q, ctrl+c");
    reveal_strlit("?, f1");
    reveal_strlit("/");
    reveal_strlit("t, T");
    reveal_strlit("a");
    reveal_strlit("e");
    reveal_strlit("d");
    reveal_strlit("f, z");
    reveal_strlit("ctrl+a");
    reveal_strlit("ctrl+f");
    reveal_strlit("ctrl+");
    reveal_strlit("q");
    reveal_strlit("r");
    reveal_strlit("R");
    reveal_strlit("m");
    reveal_strlit("M");
    reveal_strlit("s");
    reveal_strlit("o");
    reveal_strlit("y");
    reveal_strlit("tab, l, right");
    reveal_strlit("backtab, h, left");
    reveal_strlit("1");
    reveal_strlit("2");
    reveal_strlit("3");
    reveal_strlit("<");
    reveal_strlit(">");
    reveal_strlit("[");
    reveal_strlit("]");
    reveal_strlit("+");
    reveal_strlit("-");
    reveal_strlit("=, ctrl+r");
    reveal_strlit("=");
    reveal_strlit("ctrl+r");
    lemma_ctrl_misses(ev, kb.toggle_config@);
    assert("q, ctrl+c"@ =~= "q"@ + seq![',', ' '] + ("ctrl+"@ + seq!['c']));
    lemma_binding_matches_either_key(ev, "q"@, "ctrl+"@ + seq!['c']);
    lemma_ctrl_misses(ev, "q"@);
    lemma_ctrl_binding_misses(ev, 'r', 'c');
    lemma_ctrl_misses(ev, kb.help@);
    lemma_ctrl_misses(ev, kb.theme_picker@);
    lemma_ctrl_misses(ev, kb.add_feed@);
    lemma_ctrl_misses(ev, kb.export_opml@);
    lemma_ctrl_misses(ev, kb.delete_item@);
    lemma_ctrl_misses(ev, kb.toggle_zen@);
    assert("ctrl+a"@ =~= "ctrl+"@ + seq!['a']);
    lemma_ctrl_binding_misses(ev, 'r', 'a');
    assert("ctrl+f"@ =~= "ctrl+"@ + seq!['f']);
    lemma_ctrl_binding_misses(ev, 'r', 'f');
    lemma_ctrl_misses(ev, kb.refresh_current@);
    lemma_ctrl_misses(ev, kb.refresh_all@);
    lemma_ctrl_misses(ev, kb.toggle_read@);
    lemma_ctrl_misses(ev, kb.mark_all_read@);
    lemma_ctrl_misses(ev, kb.toggle_star@);
    lemma_ctrl_misses(ev, kb.open_browser@);
    lemma_ctrl_misses(ev, kb.copy_url@);
    lemma_ctrl_misses(ev, kb.focus_next_pane@);
    lemma_ctrl_misses(ev, kb.focus_prev_pane@);
    lemma_ctrl_misses(ev, kb.focus_sidebar@);
    lemma_ctrl_misses(ev, kb.focus_article_list@);
    lemma_ctrl_misses(ev, kb.focus_reader@);
    lemma_ctrl_misses(ev, kb.resize_sidebar_dec@);
    lemma_ctrl_misses(ev, kb.resize_sidebar_inc@);
    lemma_ctrl_misses(ev, kb.resize_article_dec@);
    lemma_ctrl_misses(ev, kb.resize_article_inc@);
    lemma_misses(ev, 'r', kb.resize_reader_inc@);
    lemma_ctrl_misses(ev, kb.resize_reader_dec@);
    assert("=, ctrl+r"@ =~= "="@ + seq![',', ' '] + "ctrl+r"@);
    lemma_binding_matches_either_key(ev, "="@, "ctrl+r"@);
    lemma_ctrl_r_matches(ev);
}

/// Finds the action a key press triggers.
pub fn find_action(kb: &KeyBindingsConfig, k: &KeyPress) -> (r: Option<Action>)
    ensures
        r == bound_action(*kb, *k),
{
    if kb.matches(k, kb.toggle_config.as_str()) {
        Some(Action::ToggleConfig)
    } else if kb.matches(k, kb.quit.as_str()) {
        Some(Action::Quit)
    } else if kb.matches(k, kb.help.as_str()) {
        Some(Action::Help)
    } else if kb.matches(k, kb.theme_picker.as_str()) {
        Some(Action::ThemePicker)
    } else if kb.matches(k, kb.add_feed.as_str()) {
        Some(Action::AddFeed)
    } else if kb.matches(k, kb.export_opml.as_str()) {
        Some(Action::ExportOpml)
    } else if kb.matches(k, kb.delete_item.as_str()) {
        Some(Action::DeleteItem)
    } else if kb.matches(k, kb.toggle_zen.as_str()) {
        Some(Action::ToggleZen)
    } else if kb.matches(k, kb.search.as_str()) {
        Some(Action::Search)
    } else if kb.matches(k, kb.search_feeds.as_str()) {
        Some(Action::SearchFeeds)
    } else if kb.matches(k, kb.refresh_current.as_str()) {
        Some(Action::RefreshCurrent)
    } else if kb.matches(k, kb.refresh_all.as_str()) {
        Some(Action::RefreshAll)
    } else if kb.matches(k, kb.toggle_read.as_str()) {
        Some(Action::ToggleRead)
    } else if kb.matches(k, kb.mark_all_read.as_str()) {
        Some(Action::MarkAllRead)
    } else if kb.matches(k, kb.toggle_star.as_str()) {
        Some(Action::ToggleStar)
    } else if kb.matches(k, kb.open_browser.as_str()) {
        Some(Action::OpenBrowser)
    } else if kb.matches(k, kb.copy_url.as_str()) {
        Some(Action::CopyUrl)
    } else if kb.matches(k, kb.focus_next_pane.as_str()) {
        Some(Action::FocusNextPane)
    } else if kb.matches(k, kb.focus_prev_pane.as_str()) {
        Some(Action::FocusPrevPane)
    } else if kb.matches(k, kb.focus_sidebar.as_str()) {
        Some(Action::FocusSidebar)
    } else if kb.matches(k, kb.focus_article_list.as_str()) {
        Some(Action::FocusArticleList)
    } else if kb.matches(k, kb.focus_reader.as_str()) {
        Some(Action::FocusReader)
    } else if kb.matches(k, kb.resize_sidebar_dec.as_str()) {
        Some(Action::ResizeSidebarDec)
    } else if kb.matches(k, kb.resize_sidebar_inc.as_str()) {
        Some(Action::ResizeSidebarInc)
    } else if kb.matches(k, kb.resize_article_dec.as_str()) {
        Some(Action::ResizeArticleDec)
    } else if kb.matches(k, kb.resize_article_inc.as_str()) {
        Some(Action::ResizeArticleInc)
    } else if kb.matches(k, kb.resize_reader_inc.as_str()) {
        Some(Action::ResizeReaderInc)
    } else if kb.matches(k, kb.resize_reader_dec.as_str()) {
        Some(Action::ResizeReaderDec)
    } else if kb.matches(k, kb.reset_layout.as_str()) {
        Some(Action::ResetLayout)
    } else if kb.matches(k, kb.nav_down.as_str()) {
        Some(Action::NavDown)
    } else if kb.matches(k, kb.nav_up.as_str()) {
        Some(Action::NavUp)
    } else if kb.matches(k, kb.page_down.as_str()) {
        Some(Action::PageDown)
    } else if kb.matches(k, kb.page_up.as_str()) {
        Some(Action::PageUp)
    } else if kb.matches(k, kb.space_advance.as_str()) {
        Some(Action::SpaceAdvance)
    } else if kb.matches(k, kb.jump_top.as_str()) {
        Some(Action::JumpTop)
    } else if kb.matches(k, kb.jump_bottom.as_str()) {
        Some(Action::JumpBottom)
    } else if kb.matches(k, kb.select_enter.as_str()) {
        Some(Action::SelectEnter)
    } else {
        None
    }
}

/// `w + 2`, stopping at the largest width.
pub open spec fn grow2(w: u16) -> u16 {
    if w + 2 <= u16::MAX {
        (w + 2) as u16
    } else {
        u16::MAX
    }
}

/// `w - 2`, stopping at zero.
pub open spec fn shrink2(w: u16) -> u16 {
    if w >= 2 {
        (w - 2) as u16
    } else {
        0
    }
}

/// The pane widths after a resize key: each moves two percent between the
/// named pane and the reader (or, for the reader's own keys, the article
/// list), within the pane's limits.
pub open spec fn resized(l: Layout, act: Action) -> Layout {
    match act {
        Action::ResizeSidebarDec => if l.sidebar_width_percent > 12 {
            Layout {
                sidebar_width_percent: (l.sidebar_width_percent - 2) as u16,
                reader_width_percent: grow2(l.reader_width_percent),
                ..l
            }
        } else {
            l
        },
        Action::ResizeSidebarInc => if l.sidebar_width_percent < 40 {
            Layout {
                sidebar_width_percent: (l.sidebar_width_percent + 2) as u16,
                reader_width_percent: shrink2(l.reader_width_percent),
                ..l
            }
        } else {
            l
        },
        Action::ResizeArticleDec => if l.article_width_percent > 18 {
            Layout {
                article_width_percent: (l.article_width_percent - 2) as u16,
                reader_width_percent: grow2(l.reader_width_percent),
                ..l
            }
        } else {
            l
        },
        Action::ResizeArticleInc => if l.article_width_percent < 55 {
            Layout {
                article_width_percent: (l.article_width_percent + 2) as u16,
                reader_width_percent: shrink2(l.reader_width_percent),
                ..l
            }
        } else {
            l
        },
        Action::ResizeReaderInc => if l.reader_width_percent < 75 {
            Layout {
                reader_width_percent: (l.reader_width_percent + 2) as u16,
                article_width_percent: shrink2(l.article_width_percent),
                ..l
            }
        } else {
            l
        },
        Action::ResizeReaderDec => if l.reader_width_percent > 20 {
            Layout {
                reader_width_percent: (l.reader_width_percent - 2) as u16,
                article_width_percent: grow2(l.article_width_percent),
                ..l
            }
        } else {
            l
        },
        _ => l,
    }
}

/// The sum of the three pane widths.
pub open spec fn total_width(l: Layout) -> int {
    l.sidebar_width_percent + l.article_width_percent + l.reader_width_percent
}

/// Resizing moves width between panes and never changes the total, unless
/// the pane giving way was already narrower than two percent (or the one
/// growing was at the largest width).
pub proof fn lemma_resize_keeps_total(l: Layout, act: Action)
    requires
        l.reader_width_percent >= 2,
        l.article_width_percent >= 2,
        l.reader_width_percent <= u16::MAX - 2,
        l.article_width_percent <= u16::MAX - 2,
    ensures
        total_width(resized(l, act)) == total_width(l),
        resized(l, act).active_pane == l.active_pane,
        resized(l, act).is_zen_mode == l.is_zen_mode,
{
}

/// Resizing never takes the sidebar below 10 or above 42 percent when it
/// started within them, nor the article list outside 16 to 57, nor the
/// reader's own keys take it outside 18 to 77.
pub proof fn lemma_resize_limits(l: Layout, act: Action)
    ensures
        10 <= l.sidebar_width_percent <= 42 ==> 10 <= resized(l, act).sidebar_width_percent <= 42,
        (act is ResizeArticleDec || act is ResizeArticleInc) && 16 <= l.article_width_percent <= 57
            ==> 16 <= resized(l, act).article_width_percent <= 57,
        (act is ResizeReaderInc || act is ResizeReaderDec) && 18 <= l.reader_width_percent <= 77
            ==> 18 <= resized(l, act).reader_width_percent <= 77,
{
}

impl App {
    /// Applies a resize key to the pane widths.
    pub fn resize_panes(&mut self, act: Action)
        ensures
            *final(self) == (App { layout: resized(old(self).layout, act), ..*old(self) }),
    {
        let l = &mut self.layout;
        match act {
            Action::ResizeSidebarDec => {
                if l.sidebar_width_percent > 12 {
                    l.sidebar_width_percent = l.sidebar_width_percent - 2;
                    l.reader_width_percent = l.reader_width_percent.saturating_add(2);
                }
            },
            Action::ResizeSidebarInc => {
                if l.sidebar_width_percent < 40 {
                    l.sidebar_width_percent = l.sidebar_width_percent + 2;
                    l.reader_width_percent = l.reader_width_percent.saturating_sub(2);
                }
            },
            Action::ResizeArticleDec => {
                if l.article_width_percent > 18 {
                    l.article_width_percent = l.article_width_percent - 2;
                    l.reader_width_percent = l.reader_width_percent.saturating_add(2);
                }
            },
            Action::ResizeArticleInc => {
                if l.article_width_percent < 55 {
                    l.article_width_percent = l.article_width_percent + 2;
                    l.reader_width_percent = l.reader_width_percent.saturating_sub(2);
                }
            },
            Action::ResizeReaderInc => {
                if l.reader_width_percent < 75 {
                    l.reader_width_percent = l.reader_width_percent + 2;
                    l.article_width_percent = l.article_width_percent.saturating_sub(2);
                }
            },
            Action::ResizeReaderDec => {
                if l.reader_width_percent > 20 {
                    l.reader_width_percent = l.reader_width_percent - 2;
                    l.article_width_percent = l.article_width_percent.saturating_add(2);
                }
            },
            _ => {},
        }
    }
}

/// The text folded to ASCII lowercase, as `eq_ignore_ascii_case` compares.
pub open spec fn ascii_folded(s: Seq<char>) -> Seq<char> {
    s.map_values(|c: char| ascii_lower(c))
}

/// The first theme whose name equals `name` ignoring ASCII case.
pub open spec fn theme_index(names: Seq<String>, name: Seq<char>) -> Option<int>
    decreases names.len(),
{
    if names.len() == 0 {
        None
    } else {
        match theme_index(names.drop_last(), name) {
            Some(i) => Some(i),
            None => if ascii_folded(names.last()@) == ascii_folded(name) {
                Some(names.len() - 1)
            } else {
                None
            },
        }
    }
}

/// Where the theme picker opens: on the theme in use, or on the first.
pub open spec fn picker_start(names: Seq<String>, name: Seq<char>) -> usize {
    match theme_index(names, name) {
        Some(i) => i as usize,
        None => 0,
    }
}

/// `str::eq_ignore_ascii_case`.
pub fn eq_ignore_ascii_case(a: &str, b: &str) -> (r: bool)
    ensures
        r == (ascii_folded(a@) == ascii_folded(b@)),
{
    let ca = crate::text::chars_of(a);
    let cb = crate::text::chars_of(b);
    if ca.len() != cb.len() {
        proof {
            assert(ascii_folded(a@).len() != ascii_folded(b@).len());
        }
        return false;
    }
    let mut i: usize = 0;
    while i < ca.len()
        invariant
            ca@ == a@,
            cb@ == b@,
            ca.len() == cb.len(),
            i <= ca.len(),
            forall|k: int| 0 <= k < i ==> ascii_lower(ca@[k]) == ascii_lower(cb@[k]),
        decreases ca.len() - i,
    {
        if char_to_ascii_lowercase(ca[i]) != char_to_ascii_lowercase(cb[i]) {
            proof {
                assert(ascii_folded(a@)[i as int] != ascii_folded(b@)[i as int]);
            }
            return false;
        }
        i = i + 1;
    }
    assert(ascii_folded(a@) =~= ascii_folded(b@));
    true
}

/// The position of the theme named `name`, ignoring ASCII case.
pub fn find_theme(names: &Vec<String>, name: &str) -> (r: Option<usize>)
    ensures
        match r {
            Some(i) => theme_index(names@, name@) == Some(i as int) && i < names.len(),
            None => theme_index(names@, name@) is None,
        },
{
    let mut i: usize = 0;
    while i < names.len()
        invariant
            i <= names.len(),
            theme_index(names@.take(i as int), name@) is None,
        decreases names.len() - i,
    {
        proof {
            assert(names@.take(i as int + 1).drop_last() =~= names@.take(i as int));
        }
        if eq_ignore_ascii_case(names[i].as_str(), name) {
            proof {
                lemma_theme_index_prefix(names@, name@, i as int + 1);
            }
            return Some(i);
        }
        i = i + 1;
    }
    assert(names@.take(names.len() as int) =~= names@);
    None
}

proof fn lemma_theme_index_prefix(names: Seq<String>, name: Seq<char>, n: int)
    requires
        0 < n <= names.len(),
        theme_index(names.take(n), name) is Some,
    ensures
        theme_index(names, name) == theme_index(names.take(n), name),
    decreases names.len(),
{
    if n < names.len() {
        assert(names.drop_last().take(n) =~= names.take(n));
        lemma_theme_index_prefix(names.drop_last(), name, n);
    } else {
        assert(names.take(n) =~= names);
    }
}

proof fn lemma_theme_index_range(names: Seq<String>, name: Seq<char>)
    ensures
        theme_index(names, name) matches Some(i) ==> 0 <= i < names.len(),
    decreases names.len(),
{
    if names.len() > 0 {
        lemma_theme_index_range(names.drop_last(), name);
    }
}

/// The theme picker opens on one of the themes it offers.
pub proof fn lemma_picker_start_range(names: Seq<String>, name: Seq<char>)
    ensures
        names.len() > 0 ==> picker_start(names, name) < names.len(),
{
    lemma_theme_index_range(names, name);
}

/// Where the theme picker opens.
pub fn theme_picker_start(names: &Vec<String>, name: &str) -> (r: usize)
    ensures
        r == picker_start(names@, name@),
{
    match find_theme(names, name) {
        Some(i) => i,
        None => 0,
    }
}

} // verus!
