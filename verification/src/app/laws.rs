//! What every key press keeps true of the interface state.
use vstd::prelude::*;
use crate::config::{default_bindings, KeyCode, KeyPress};
use super::dispatch::{action_group, key_handled};
use super::input::{finder_closed, is_code};
use super::keys::{bound_action, layout_key_action, lemma_default_ctrl_r, lemma_default_layout_keys, lemma_resize_keeps_total, resized, total_width, Action};
use super::nav::selection_applied;
use super::mouse::{mouse_handled, MouseKind};
use super::{sidebar_ok, App, Effect};
use crate::model::ActivePane;

verus! {

/// The sidebar's rows and what decides them are the same in `b` as in `a`.
pub open spec fn same_sidebar(a: App, b: App) -> bool {
    &&& b.library == a.library
    &&& b.search.is_searching_feeds == a.search.is_searching_feeds
    &&& b.search.feed_search_query == a.search.feed_search_query
}

proof fn lemma_selection_keeps(a: App, m: App, e: Seq<Effect>)
    requires
        selection_applied(a, m, e),
    ensures
        same_sidebar(a, m),
{
}

/// Whatever key is pressed, the sidebar still lists what the library and
/// the feed finder say it should: the finder's matches while it has a
/// query, otherwise the smart views, the loose feeds and the folders.
pub proof fn lemma_keys_keep_sidebar(a: App, k: KeyPress, b: App, e: Seq<Effect>)
    requires
        key_handled(a, k, b, e),
        sidebar_ok(a.library, a.search),
    ensures
        sidebar_ok(b.library, b.search),
{
    if a.popups.show_help_modal || a.popups.show_config_modal || a.popups.show_theme_modal || a.popups.show_add_modal
        || a.popups.show_export_modal || a.popups.show_delete_modal || a.search.is_searching {
        assert(same_sidebar(a, b));
    } else if a.search.is_searching_feeds {
        if is_code(k, KeyCode::Enter) {
            let (m, m2) = choose|m: App, m2: App|
                #[trigger] selection_applied(a, m, e) && #[trigger] finder_closed(m, m2) && b == App {
                    layout: super::Layout { active_pane: ActivePane::ArticleList, ..m2.layout },
                    ..m2
                };
            lemma_selection_keeps(a, m, e);
        }
    } else {
        match bound_action(a.config.keybindings, k) {
            Some(act) => {
                if action_group(act) == 3 && act == Action::SelectEnter && a.layout.active_pane == ActivePane::Sidebar
                    && !(super::nav::item_at(a.library.sidebar_items@, a.view.sidebar_selected_idx as int) matches Some(
                    crate::model::SidebarItem::FolderHeader { .. },
                )) {
                    let m = choose|m: App|
                        #[trigger] selection_applied(a, m, e) && b == App {
                            layout: super::Layout { active_pane: ActivePane::ArticleList, ..m.layout },
                            ..m
                        };
                    lemma_selection_keeps(a, m, e);
                } else if act != Action::SearchFeeds {
                    assert(same_sidebar(a, b));
                }
            },
            None => {},
        }
    }
}

/// Whatever the mouse does, the sidebar still lists what the library and
/// the feed finder say it should.
pub proof fn lemma_mouse_keeps_sidebar(a: App, kind: MouseKind, col: u16, row: u16, width: u16, height: u16, b: App, e: Seq<Effect>)
    requires
        mouse_handled(a, kind, col, row, width, height, b, e),
        sidebar_ok(a.library, a.search),
    ensures
        sidebar_ok(b.library, b.search),
{
}

/// With the default bindings and no popup or search open, the layout keys
/// resize the panes: `<` `>` move width between the sidebar and the article
/// list, `[` `]` between the article list and the reader, `+` `-` between
/// the reader and the article list, each never changing the total while the
/// pane giving way has two percent to give; `=` puts the configured widths
/// back.
pub proof fn lemma_default_layout_keys_resize(a: App, x: char, b: App, e: Seq<Effect>)
    requires
        key_handled(a, KeyPress { code: KeyCode::Char(x), ctrl: false, alt: false, shift: false }, b, e),
        default_bindings(a.config.keybindings),
        !a.popups.show_help_modal,
        !a.popups.show_config_modal,
        !a.popups.show_theme_modal,
        !a.popups.show_add_modal,
        !a.popups.show_export_modal,
        !a.popups.show_delete_modal,
        !a.search.is_searching,
        !a.search.is_searching_feeds,
        layout_key_action(x) is Some,
    ensures
        x != '=' ==> b == (App { layout: resized(a.layout, layout_key_action(x)->0), ..a }) && e.len() == 0,
        x != '=' && 2 <= a.layout.reader_width_percent <= u16::MAX - 2 && 2 <= a.layout.article_width_percent <= u16::MAX - 2
            ==> total_width(b.layout) == total_width(a.layout),
        x == '=' ==> b.layout.sidebar_width_percent == a.config.sidebar_ratio
            && b.layout.article_width_percent == a.config.article_list_ratio
            && b.layout.reader_width_percent == a.config.reader_ratio,
{
    let k = KeyPress { code: KeyCode::Char(x), ctrl: false, alt: false, shift: false };
    lemma_default_layout_keys(a.config.keybindings, k, x);
    if x != '=' && 2 <= a.layout.reader_width_percent <= u16::MAX - 2 && 2 <= a.layout.article_width_percent <= u16::MAX - 2 {
        lemma_resize_keeps_total(a.layout, layout_key_action(x)->0);
    }
}

/// With the default bindings and no popup or search open, control and `r`
/// puts the configured pane widths back, as `=` does.
pub proof fn lemma_default_ctrl_r_resets(a: App, b: App, e: Seq<Effect>)
    requires
        key_handled(a, KeyPress { code: KeyCode::Char('r'), ctrl: true, alt: false, shift: false }, b, e),
        default_bindings(a.config.keybindings),
        !a.popups.show_help_modal,
        !a.popups.show_config_modal,
        !a.popups.show_theme_modal,
        !a.popups.show_add_modal,
        !a.popups.show_export_modal,
        !a.popups.show_delete_modal,
        !a.search.is_searching,
        !a.search.is_searching_feeds,
    ensures
        b.layout.sidebar_width_percent == a.config.sidebar_ratio,
        b.layout.article_width_percent == a.config.article_list_ratio,
        b.layout.reader_width_percent == a.config.reader_ratio,
{
    lemma_default_ctrl_r(a.config.keybindings, KeyPress { code: KeyCode::Char('r'), ctrl: true, alt: false, shift: false });
}

} // verus!
