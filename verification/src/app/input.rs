//! What a key does while a popup or a search has the keyboard.
use vstd::prelude::*;
use crate::config::{AppConfig, KeyBindingsConfig, KeyCode, KeyPress, default_bindings};
use crate::model::{ActivePane, SidebarItem};
use crate::text::{concat_str, decimal, decimal_string, lowercase_str, pop_char, push_char, trim_spec, trim_string};
use crate::ui::modals::ConfigSubView;
use super::keys::{picker_start, theme_picker_start};
use super::nav::{delete_effects, one_effect, sat_add, selection_applied, two_effects};
use super::{
    sidebar_ok, sidebar_rebuilt, toast_text, AddForm, App, ArticleView, ConfigMenu, Effect, ExportForm,
    Layout, Popups, Search, SyncState, Themes,
};

verus! {

/// The press is this key, whatever modifiers are held.
pub open spec fn is_code(k: KeyPress, code: KeyCode) -> bool {
    k.code == code
}

/// The press is this character, whatever modifiers are held.
pub open spec fn is_char(k: KeyPress, c: char) -> bool {
    k.code == KeyCode::Char(c)
}

/// The text without its last character.
pub open spec fn popped(s: Seq<char>) -> Seq<char> {
    if s.len() > 0 {
        s.drop_last()
    } else {
        s
    }
}

/// The help popup: Esc, `?` or `q` closes it; every key is swallowed.
pub open spec fn help_key(a: App, k: KeyPress, b: App, e: Seq<Effect>) -> bool {
    &&& e.len() == 0
    &&& b == if is_code(k, KeyCode::Esc) || is_char(k, '?') || is_char(k, 'q') {
        App { popups: Popups { show_help_modal: false, ..a.popups }, ..a }
    } else {
        a
    }
}

/// "Enabled" or "Disabled".
pub open spec fn status_text(on: bool) -> Seq<char> {
    if on {
        "Enabled"@
    } else {
        "Disabled"@
    }
}

/// A setting was changed to `cfg`, saved, and announced by a toast.
pub open spec fn setting_saved(a: App, b: App, e: Seq<Effect>, cfg: AppConfig, message: Seq<char>) -> bool {
    &&& b == App { config: cfg, ..a }
    &&& e.len() == 2
    &&& e[0] == Effect::SaveConfig
    &&& toast_text(e[1], message)
}

/// The refresh interval stepped by five minutes, within 1 to 180.
pub open spec fn stepped_interval(x: u64, forward: bool) -> u64 {
    if forward {
        if x + 5 < 180 { (x + 5) as u64 } else { 180 }
    } else {
        let d: int = if x >= 5 { x - 5 } else { 0 };
        if d > 1 { d as u64 } else { 1 }
    }
}

/// The next refresh interval in the cycle 5, 15, 30, 60 minutes.
pub open spec fn cycled_interval(x: u64) -> u64 {
    if 1 <= x <= 5 {
        15
    } else if 6 <= x <= 15 {
        30
    } else if 16 <= x <= 30 {
        60
    } else {
        5
    }
}

/// The theme after the one in use, or before it, wrapping around.
pub open spec fn cycled_theme(names: Seq<String>, name: Seq<char>, forward: bool) -> int {
    let cur = picker_start(names, name) as int;
    if forward {
        (cur + 1) % (names.len() as int)
    } else if cur == 0 {
        names.len() - 1
    } else {
        cur - 1
    }
}

/// Switching to theme `i`: it becomes the theme in use and the configured
/// one, is saved, and a toast names it.
pub open spec fn theme_applied(a: App, b: App, e: Seq<Effect>, i: int) -> bool {
    let name = a.themes.theme_names@[i];
    &&& b == App {
        config: AppConfig { theme: name, ..a.config },
        themes: Themes { theme_name: name, ..a.themes },
        ..a
    }
    &&& e.len() == 3
    &&& e[0] == Effect::ApplyTheme(i as usize)
    &&& e[1] == Effect::SaveConfig
    &&& toast_text(e[2], "Applied theme: "@ + name@)
}

/// The sidebar ratio stepped by two percent (the reader giving or taking
/// the difference), within 15 to 37, and the ratios saved.
pub open spec fn ratios_stepped(a: App, forward: bool, b: App, e: Seq<Effect>) -> bool {
    let c = a.config;
    let l = a.layout;
    let l2 = if forward {
        if l.sidebar_width_percent < 35 {
            Layout {
                sidebar_width_percent: (l.sidebar_width_percent + 2) as u16,
                reader_width_percent: super::keys::shrink2(l.reader_width_percent),
                ..l
            }
        } else {
            l
        }
    } else if l.sidebar_width_percent > 15 {
        Layout {
            sidebar_width_percent: (l.sidebar_width_percent - 2) as u16,
            reader_width_percent: super::keys::grow2(l.reader_width_percent),
            ..l
        }
    } else {
        l
    };
    &&& b == App {
        layout: l2,
        config: AppConfig {
            sidebar_ratio: l2.sidebar_width_percent,
            article_list_ratio: l2.article_width_percent,
            reader_ratio: l2.reader_width_percent,
            ..c
        },
        ..a
    }
    &&& e == seq![Effect::SaveConfig]
}

/// Stepping a setting of the settings menu left (`forward` false) or right.
pub open spec fn config_item_stepped(a: App, forward: bool, b: App, e: Seq<Effect>) -> bool {
    let c = a.config;
    match a.config_menu.config_menu_selected_idx {
        0 => if a.themes.theme_names@.len() == 0 {
            b == a && e.len() == 0
        } else {
            theme_applied(a, b, e, cycled_theme(a.themes.theme_names@, a.themes.theme_name@, forward))
        },
        1 => setting_saved(
            a,
            b,
            e,
            AppConfig { auto_refresh_on_startup: !c.auto_refresh_on_startup, ..c },
            "Auto-refresh on startup: "@ + status_text(!c.auto_refresh_on_startup),
        ),
        2 => {
            let n = stepped_interval(c.refresh_interval_minutes, forward);
            setting_saved(
                a,
                b,
                e,
                AppConfig { refresh_interval_minutes: n, ..c },
                "Refresh interval: "@ + decimal(n as nat) + " min"@,
            )
        },
        3 => setting_saved(
            a,
            b,
            e,
            AppConfig { mark_read_on_open: !c.mark_read_on_open, ..c },
            "Mark read on open: "@ + status_text(!c.mark_read_on_open),
        ),
        4 => setting_saved(
            a,
            b,
            e,
            AppConfig { wrap_article_text: !c.wrap_article_text, ..c },
            "Wrap article text: "@ + status_text(!c.wrap_article_text),
        ),
        5 => setting_saved(
            a,
            b,
            e,
            AppConfig { show_icons: !c.show_icons, ..c },
            "Show icons & badges: "@ + status_text(!c.show_icons),
        ),
        6 => ratios_stepped(a, forward, b, e),
        7 => b == App {
            config_menu: ConfigMenu {
                config_menu_subview: ConfigSubView::Keybindings,
                config_keybind_selected_idx: 0,
                ..a.config_menu
            },
            ..a
        } && e.len() == 0,
        _ => b == a && e.len() == 0,
    }
}

/// Activating the selected item of the settings menu.
pub open spec fn config_item_activated(a: App, b: App, e: Seq<Effect>) -> bool {
    let c = a.config;
    match a.config_menu.config_menu_selected_idx {
        0 => b == App {
            popups: Popups { show_config_modal: false, show_theme_modal: true, ..a.popups },
            themes: Themes {
                theme_picker_selected_idx: picker_start(a.themes.theme_names@, a.themes.theme_name@),
                ..a.themes
            },
            ..a
        } && e.len() == 0,
        2 => {
            let n = cycled_interval(c.refresh_interval_minutes);
            setting_saved(
                a,
                b,
                e,
                AppConfig { refresh_interval_minutes: n, ..c },
                "Refresh interval: "@ + decimal(n as nat) + " min"@,
            )
        },
        6 => {
            &&& b == App {
                layout: Layout {
                    sidebar_width_percent: 22,
                    article_width_percent: 33,
                    reader_width_percent: 45,
                    ..a.layout
                },
                config: AppConfig { sidebar_ratio: 22, article_list_ratio: 33, reader_ratio: 45, ..c },
                ..a
            }
            &&& e.len() == 2
            &&& e[0] == Effect::SaveConfig
            &&& toast_text(e[1], "Reset pane layout ratios to 22/33/45"@)
        },
        _ => config_item_stepped(a, true, b, e),
    }
}

/// The settings popup.
pub open spec fn config_key(a: App, k: KeyPress, b: App, e: Seq<Effect>) -> bool {
    let m = a.config_menu;
    match m.config_menu_subview {
        ConfigSubView::Keybindings => if is_code(k, KeyCode::Esc) || is_code(k, KeyCode::Backspace) {
            b == App { config_menu: ConfigMenu { config_menu_subview: ConfigSubView::Main, ..m }, ..a } && e.len() == 0
        } else if is_code(k, KeyCode::Up) || is_char(k, 'k') {
            b == App {
                config_menu: ConfigMenu {
                    config_keybind_selected_idx: super::nav::sat_sub(m.config_keybind_selected_idx as int, 1),
                    ..m
                },
                ..a
            } && e.len() == 0
        } else if is_code(k, KeyCode::Down) || is_char(k, 'j') {
            b == App {
                config_menu: ConfigMenu {
                    config_keybind_selected_idx: if m.config_keybind_selected_idx + 1 < 25 {
                        (m.config_keybind_selected_idx + 1) as usize
                    } else {
                        m.config_keybind_selected_idx
                    },
                    ..m
                },
                ..a
            } && e.len() == 0
        } else if is_char(k, 'r') {
            &&& b == App { config: AppConfig { keybindings: b.config.keybindings, ..a.config }, ..a }
            &&& default_bindings(b.config.keybindings)
            &&& e.len() == 2
            &&& e[0] == Effect::SaveConfig
            &&& toast_text(e[1], "Reset keybindings to defaults"@)
        } else if is_char(k, 'q') {
            b == App { popups: Popups { show_config_modal: false, ..a.popups }, ..a } && e.len() == 0
        } else {
            b == a && e.len() == 0
        },
        ConfigSubView::Main => if is_code(k, KeyCode::Esc) || is_char(k, 'q') || is_char(k, '/') {
            b == App { popups: Popups { show_config_modal: false, ..a.popups }, ..a } && e.len() == 0
        } else if is_code(k, KeyCode::Up) || is_char(k, 'k') {
            b == App {
                config_menu: ConfigMenu {
                    config_menu_selected_idx: super::nav::sat_sub(m.config_menu_selected_idx as int, 1),
                    ..m
                },
                ..a
            } && e.len() == 0
        } else if is_code(k, KeyCode::Down) || is_char(k, 'j') {
            b == App {
                config_menu: ConfigMenu {
                    config_menu_selected_idx: if m.config_menu_selected_idx + 1 < 8 {
                        (m.config_menu_selected_idx + 1) as usize
                    } else {
                        m.config_menu_selected_idx
                    },
                    ..m
                },
                ..a
            } && e.len() == 0
        } else if is_code(k, KeyCode::Left) || is_char(k, 'h') {
            config_item_stepped(a, false, b, e)
        } else if is_code(k, KeyCode::Right) || is_char(k, 'l') {
            config_item_stepped(a, true, b, e)
        } else if is_code(k, KeyCode::Enter) || is_char(k, ' ') {
            config_item_activated(a, b, e)
        } else {
            b == a && e.len() == 0
        },
    }
}

/// The theme picker: up and down move within the list, Enter applies the
/// selected theme and closes, Esc or `q` closes.
pub open spec fn theme_key(a: App, k: KeyPress, b: App, e: Seq<Effect>) -> bool {
    let t = a.themes;
    let closed = App { popups: Popups { show_theme_modal: false, ..a.popups }, ..a };
    if is_code(k, KeyCode::Esc) || is_char(k, 'q') {
        b == closed && e.len() == 0
    } else if is_code(k, KeyCode::Up) || is_char(k, 'k') {
        b == App {
            themes: Themes { theme_picker_selected_idx: super::nav::sat_sub(t.theme_picker_selected_idx as int, 1), ..t },
            ..a
        } && e.len() == 0
    } else if is_code(k, KeyCode::Down) || is_char(k, 'j') {
        b == App {
            themes: Themes {
                theme_picker_selected_idx: if t.theme_picker_selected_idx + 1 < t.theme_names@.len() {
                    (t.theme_picker_selected_idx + 1) as usize
                } else {
                    t.theme_picker_selected_idx
                },
                ..t
            },
            ..a
        } && e.len() == 0
    } else if is_code(k, KeyCode::Enter) {
        if t.theme_picker_selected_idx < t.theme_names@.len() {
            theme_applied(closed, b, e, t.theme_picker_selected_idx as int)
        } else {
            b == closed && e.len() == 0
        }
    } else {
        b == a && e.len() == 0
    }
}

/// Submitting the add-feed popup: an empty entry is refused; an OPML path is
/// handed over for import; a feed address is fetched in the background into
/// the folder named, if any.
pub open spec fn add_submitted(a: App, b: App, e: Seq<Effect>) -> bool {
    let f = a.add_form;
    let input = trim_spec(f.modal_url_input@);
    if input.len() == 0 {
        &&& b == App { add_form: AddForm { modal_error: b.add_form.modal_error, ..f }, ..a }
        &&& b.add_form.modal_error matches Some(m) && m@ == "Input cannot be empty"@
        &&& e.len() == 0
    } else if f.modal_is_opml_mode {
        b == a && e.len() == 1 && (e[0] matches Effect::ImportOpml(p) && p@ == input)
    } else {
        let folder = trim_spec(f.modal_folder_input@);
        &&& b == App {
            add_form: AddForm { modal_is_loading: true, modal_error: None, ..f },
            sync: SyncState { pending_fetches: sat_add(a.sync.pending_fetches as int, 1), is_syncing: true, ..a.sync },
            ..a
        }
        &&& e.len() == 1
        &&& e[0] matches Effect::AddFeed { url, folder: fo } && url@ == input && (if folder.len() == 0 {
            fo is None
        } else {
            fo matches Some(x) && x@ == folder
        })
    }
}

/// The add-feed popup.
pub open spec fn add_key(a: App, k: KeyPress, b: App, e: Seq<Effect>) -> bool {
    let f = a.add_form;
    if is_code(k, KeyCode::Esc) {
        b == App {
            popups: Popups { show_add_modal: false, ..a.popups },
            add_form: AddForm { modal_error: None, ..f },
            ..a
        } && e.len() == 0
    } else if is_code(k, KeyCode::Tab) {
        b == (if !f.modal_is_opml_mode {
            App { add_form: AddForm { modal_focused_field: ((f.modal_focused_field + 1) % 2) as usize, ..f }, ..a }
        } else {
            a
        }) && e.len() == 0
    } else if is_char(k, 't') && k.ctrl {
        b == App { add_form: AddForm { modal_is_opml_mode: !f.modal_is_opml_mode, modal_error: None, ..f }, ..a }
            && e.len() == 0
    } else if is_code(k, KeyCode::Backspace) {
        &&& e.len() == 0
        &&& if f.modal_focused_field == 0 {
            b == App { add_form: AddForm { modal_url_input: b.add_form.modal_url_input, ..f }, ..a }
                && b.add_form.modal_url_input@ == popped(f.modal_url_input@)
        } else {
            b == App { add_form: AddForm { modal_folder_input: b.add_form.modal_folder_input, ..f }, ..a }
                && b.add_form.modal_folder_input@ == popped(f.modal_folder_input@)
        }
    } else if k.code is Char {
        let c = k.code->Char_0;
        &&& e.len() == 0
        &&& if f.modal_focused_field == 0 {
            b == App { add_form: AddForm { modal_url_input: b.add_form.modal_url_input, ..f }, ..a }
                && b.add_form.modal_url_input@ == f.modal_url_input@.push(c)
        } else {
            b == App { add_form: AddForm { modal_folder_input: b.add_form.modal_folder_input, ..f }, ..a }
                && b.add_form.modal_folder_input@ == f.modal_folder_input@.push(c)
        }
    } else if is_code(k, KeyCode::Enter) {
        add_submitted(a, b, e)
    } else {
        b == a && e.len() == 0
    }
}

/// Submitting the export popup: a non-blank path is handed over.
pub open spec fn export_submitted(a: App, b: App, e: Seq<Effect>) -> bool {
    let path = trim_spec(a.export_form.modal_export_path@);
    b == a && if path.len() == 0 {
        e.len() == 0
    } else {
        e.len() == 1 && (e[0] matches Effect::ExportOpml(p) && p@ == path)
    }
}

/// The export popup.
pub open spec fn export_key(a: App, k: KeyPress, b: App, e: Seq<Effect>) -> bool {
    let f = a.export_form;
    if is_code(k, KeyCode::Esc) {
        b == App { popups: Popups { show_export_modal: false, ..a.popups }, ..a } && e.len() == 0
    } else if is_code(k, KeyCode::Backspace) {
        b == App { export_form: ExportForm { modal_export_path: b.export_form.modal_export_path, ..f }, ..a }
            && b.export_form.modal_export_path@ == popped(f.modal_export_path@) && e.len() == 0
    } else if k.code is Char {
        b == App { export_form: ExportForm { modal_export_path: b.export_form.modal_export_path, ..f }, ..a }
            && b.export_form.modal_export_path@ == f.modal_export_path@.push(k.code->Char_0) && e.len() == 0
    } else if is_code(k, KeyCode::Enter) {
        export_submitted(a, b, e)
    } else {
        b == a && e.len() == 0
    }
}

/// The delete confirmation: Esc or `n` cancels, Enter or `y` deletes.
pub open spec fn delete_key(a: App, k: KeyPress, b: App, e: Seq<Effect>) -> bool {
    let closed = App { popups: Popups { show_delete_modal: false, ..a.popups }, ..a };
    if is_code(k, KeyCode::Esc) || is_char(k, 'n') {
        b == closed && e.len() == 0
    } else if is_code(k, KeyCode::Enter) || is_char(k, 'y') {
        b == closed && delete_effects(a, e)
    } else {
        b == a && e.len() == 0
    }
}

/// Typing into the article search: Esc clears and leaves it, Enter leaves
/// it keeping the query, and editing the query selects the first match.
pub open spec fn search_key(a: App, k: KeyPress, b: App, e: Seq<Effect>) -> bool {
    let s = a.search;
    &&& e.len() == 0
    &&& if is_code(k, KeyCode::Esc) {
        &&& b == App {
            search: Search { is_searching: false, search_query: b.search.search_query, ..s },
            view: ArticleView { article_selected_idx: 0, ..a.view },
            ..a
        }
        &&& b.search.search_query@.len() == 0
    } else if is_code(k, KeyCode::Enter) {
        b == App { search: Search { is_searching: false, ..s }, ..a }
    } else if is_code(k, KeyCode::Backspace) {
        &&& b == App {
            search: Search { search_query: b.search.search_query, ..s },
            view: ArticleView { article_selected_idx: 0, ..a.view },
            ..a
        }
        &&& b.search.search_query@ == popped(s.search_query@)
    } else if k.code is Char {
        &&& b == App {
            search: Search { search_query: b.search.search_query, ..s },
            view: ArticleView { article_selected_idx: 0, ..a.view },
            ..a
        }
        &&& b.search.search_query@ == s.search_query@.push(k.code->Char_0)
    } else {
        b == a
    }
}

/// The finder's query changed to `query`: the sidebar lists what it finds
/// (everything again once it is empty) with the first row selected.
pub open spec fn finder_requeried(a: App, b: App, query: Seq<char>) -> bool {
    &&& b.search == Search { feed_search_query: b.search.feed_search_query, ..a.search }
    &&& b.search.feed_search_query@ == query
    &&& sidebar_ok(b.library, b.search)
    &&& b == App {
        search: b.search,
        library: super::Library { sidebar_items: b.library.sidebar_items, ..a.library },
        view: ArticleView { sidebar_selected_idx: if query.len() > 0 { 0 } else { 1 }, ..a.view },
        ..a
    }
}

/// The finder closed: its query is cleared and the sidebar lists everything
/// again.
pub open spec fn finder_closed(a: App, b: App) -> bool {
    &&& b.search == Search { is_searching_feeds: false, feed_search_query: b.search.feed_search_query, ..a.search }
    &&& b.search.feed_search_query@.len() == 0
    &&& sidebar_rebuilt(App { search: b.search, ..a }, b)
}

/// Enter in the feed finder: the selected row is opened, the finder closed
/// and the article list focused.
pub open spec fn finder_entered(a: App, b: App, e: Seq<Effect>) -> bool {
    exists|m: App, m2: App|
        #[trigger] selection_applied(a, m, e) && #[trigger] finder_closed(m, m2) && b == App {
            layout: Layout { active_pane: ActivePane::ArticleList, ..m2.layout },
            ..m2
        }
}

/// Typing into the feed finder: characters narrow the sidebar to the feeds
/// whose title fuzzy-matches, up and down move among them, Enter opens the
/// selected one and closes the finder, Esc closes it.
pub open spec fn finder_key(a: App, k: KeyPress, b: App, e: Seq<Effect>) -> bool {
    let s = a.search;
    if is_code(k, KeyCode::Esc) {
        finder_closed(a, b) && e.len() == 0
    } else if is_code(k, KeyCode::Enter) {
        finder_entered(a, b, e)
    } else if is_code(k, KeyCode::Backspace) {
        finder_requeried(a, b, popped(s.feed_search_query@)) && e.len() == 0
    } else if is_code(k, KeyCode::Up) {
        b == App { view: ArticleView { sidebar_selected_idx: super::nav::sat_sub(a.view.sidebar_selected_idx as int, 1), ..a.view }, ..a }
            && e.len() == 0
    } else if is_code(k, KeyCode::Down) {
        b == App {
            view: ArticleView {
                sidebar_selected_idx: if a.view.sidebar_selected_idx + 1 < a.library.sidebar_items@.len() {
                    (a.view.sidebar_selected_idx + 1) as usize
                } else {
                    a.view.sidebar_selected_idx
                },
                ..a.view
            },
            ..a
        } && e.len() == 0
    } else if k.code is Char {
        finder_requeried(a, b, s.feed_search_query@.push(k.code->Char_0)) && e.len() == 0
    } else {
        b == a && e.len() == 0
    }
}

fn three_effects(e: Effect, f: Effect, g: Effect) -> (r: Vec<Effect>)
    ensures
        r@ == seq![e, f, g],
{
    let r = vec![e, f, g];
    assert(r@ =~= seq![e, f, g]);
    r
}

fn status_string(on: bool) -> (r: &'static str)
    ensures
        r@ == status_text(on),
{
    proof {
        reveal_strlit("Enabled");
        reveal_strlit("Disabled");
    }
    if on {
        "Enabled"
    } else {
        "Disabled"
    }
}

fn save_and_toast(msg: String) -> (r: Vec<Effect>)
    ensures
        r@.len() == 2,
        r@[0] == Effect::SaveConfig,
        toast_text(r@[1], msg@),
{
    two_effects(Effect::SaveConfig, Effect::Toast(msg))
}

fn interval_message(n: u64) -> (r: String)
    ensures
        r@ == "Refresh interval: "@ + decimal(n as nat) + " min"@,
{
    let mut s = "Refresh interval: ".to_owned();
    crate::text::push_decimal(&mut s, n);
    let r = concat_str(s.as_str(), " min");
    proof {
        reveal_strlit("Refresh interval: ");
        reveal_strlit(" min");
    }
    r
}

impl App {
    /// Switches to theme `i`.
    pub(crate) fn apply_theme(&mut self, i: usize) -> (e: Vec<Effect>)
        requires
            i < old(self).themes.theme_names@.len(),
        ensures
            theme_applied(*old(self), *final(self), e@, i as int),
    {
        let name = self.themes.theme_names[i].clone();
        let msg = concat_str("Applied theme: ", name.as_str());
        proof {
            reveal_strlit("Applied theme: ");
        }
        self.config.theme = name.clone();
        self.themes.theme_name = name;
        three_effects(Effect::ApplyTheme(i), Effect::SaveConfig, Effect::Toast(msg))
    }

    fn toggle_setting(&mut self, which: usize) -> (e: Vec<Effect>)
        requires
            which == 1 || which == 3 || which == 4 || which == 5,
        ensures
            ({
                let c = old(self).config;
                let a = *old(self);
                let b = *final(self);
                &&& which == 1 ==> setting_saved(
                    a,
                    b,
                    e@,
                    AppConfig { auto_refresh_on_startup: !c.auto_refresh_on_startup, ..c },
                    "Auto-refresh on startup: "@ + status_text(!c.auto_refresh_on_startup),
                )
                &&& which == 3 ==> setting_saved(
                    a,
                    b,
                    e@,
                    AppConfig { mark_read_on_open: !c.mark_read_on_open, ..c },
                    "Mark read on open: "@ + status_text(!c.mark_read_on_open),
                )
                &&& which == 4 ==> setting_saved(
                    a,
                    b,
                    e@,
                    AppConfig { wrap_article_text: !c.wrap_article_text, ..c },
                    "Wrap article text: "@ + status_text(!c.wrap_article_text),
                )
                &&& which == 5 ==> setting_saved(
                    a,
                    b,
                    e@,
                    AppConfig { show_icons: !c.show_icons, ..c },
                    "Show icons & badges: "@ + status_text(!c.show_icons),
                )
            }),
    {
        proof {
            reveal_strlit("Auto-refresh on startup: ");
            reveal_strlit("Mark read on open: ");
            reveal_strlit("Wrap article text: ");
            reveal_strlit("Show icons & badges: ");
        }
        if which == 1 {
            self.config.auto_refresh_on_startup = !self.config.auto_refresh_on_startup;
            save_and_toast(concat_str("Auto-refresh on startup: ", status_string(self.config.auto_refresh_on_startup)))
        } else if which == 3 {
            self.config.mark_read_on_open = !self.config.mark_read_on_open;
            save_and_toast(concat_str("Mark read on open: ", status_string(self.config.mark_read_on_open)))
        } else if which == 4 {
            self.config.wrap_article_text = !self.config.wrap_article_text;
            save_and_toast(concat_str("Wrap article text: ", status_string(self.config.wrap_article_text)))
        } else {
            self.config.show_icons = !self.config.show_icons;
            save_and_toast(concat_str("Show icons & badges: ", status_string(self.config.show_icons)))
        }
    }

    fn set_interval(&mut self, n: u64) -> (e: Vec<Effect>)
        ensures
            setting_saved(
                *old(self),
                *final(self),
                e@,
                AppConfig { refresh_interval_minutes: n, ..old(self).config },
                "Refresh interval: "@ + decimal(n as nat) + " min"@,
            ),
    {
        self.config.refresh_interval_minutes = n;
        save_and_toast(interval_message(n))
    }

    /// Switches to the next or previous theme.
    pub fn cycle_theme(&mut self, forward: bool) -> (e: Vec<Effect>)
        ensures
            if old(self).themes.theme_names@.len() == 0 {
                *final(self) == *old(self) && e@.len() == 0
            } else {
                theme_applied(
                    *old(self),
                    *final(self),
                    e@,
                    cycled_theme(old(self).themes.theme_names@, old(self).themes.theme_name@, forward),
                )
            },
    {
        let n = self.themes.theme_names.len();
        if n == 0 {
            return Vec::new();
        }
        let cur = theme_picker_start(&self.themes.theme_names, self.themes.theme_name.as_str());
        proof {
            super::keys::lemma_picker_start_range(self.themes.theme_names@, self.themes.theme_name@);
        }
        let next = if forward {
            (cur + 1) % n
        } else if cur == 0 {
            n - 1
        } else {
            cur - 1
        };
        self.apply_theme(next)
    }

    fn step_ratios(&mut self, forward: bool) -> (e: Vec<Effect>)
        ensures
            ratios_stepped(*old(self), forward, *final(self), e@),
    {
        if forward {
            if self.layout.sidebar_width_percent < 35 {
                self.layout.sidebar_width_percent = self.layout.sidebar_width_percent + 2;
                self.layout.reader_width_percent = self.layout.reader_width_percent.saturating_sub(2);
            }
        } else if self.layout.sidebar_width_percent > 15 {
            self.layout.sidebar_width_percent = self.layout.sidebar_width_percent - 2;
            self.layout.reader_width_percent = self.layout.reader_width_percent.saturating_add(2);
        }
        self.config.sidebar_ratio = self.layout.sidebar_width_percent;
        self.config.article_list_ratio = self.layout.article_width_percent;
        self.config.reader_ratio = self.layout.reader_width_percent;
        one_effect(Effect::SaveConfig)
    }

    /// Steps the selected setting of the settings menu.
    pub fn modify_config_item(&mut self, forward: bool) -> (e: Vec<Effect>)
        ensures
            config_item_stepped(*old(self), forward, *final(self), e@),
    {
        let idx = self.config_menu.config_menu_selected_idx;
        if idx == 0 {
            self.cycle_theme(forward)
        } else if idx == 1 || idx == 3 || idx == 4 || idx == 5 {
            self.toggle_setting(idx)
        } else if idx == 2 {
            let x = self.config.refresh_interval_minutes;
            let n: u64 = if forward {
                if x < 175 { x + 5 } else { 180 }
            } else {
                let d = x.saturating_sub(5);
                if d > 1 { d } else { 1 }
            };
            self.set_interval(n)
        } else if idx == 6 {
            self.step_ratios(forward)
        } else if idx == 7 {
            self.config_menu.config_menu_subview = ConfigSubView::Keybindings;
            self.config_menu.config_keybind_selected_idx = 0;
            Vec::new()
        } else {
            Vec::new()
        }
    }

    /// Activates the selected item of the settings menu.
    pub fn activate_config_item(&mut self) -> (e: Vec<Effect>)
        ensures
            config_item_activated(*old(self), *final(self), e@),
    {
        let idx = self.config_menu.config_menu_selected_idx;
        if idx == 0 {
            self.popups.show_config_modal = false;
            self.popups.show_theme_modal = true;
            self.themes.theme_picker_selected_idx = theme_picker_start(
                &self.themes.theme_names,
                self.themes.theme_name.as_str(),
            );
            Vec::new()
        } else if idx == 2 {
            let x = self.config.refresh_interval_minutes;
            let n: u64 = if 1 <= x && x <= 5 {
                15
            } else if 6 <= x && x <= 15 {
                30
            } else if 16 <= x && x <= 30 {
                60
            } else {
                5
            };
            self.set_interval(n)
        } else if idx == 6 {
            self.layout.sidebar_width_percent = 22;
            self.layout.article_width_percent = 33;
            self.layout.reader_width_percent = 45;
            self.config.sidebar_ratio = 22;
            self.config.article_list_ratio = 33;
            self.config.reader_ratio = 45;
            save_and_toast("Reset pane layout ratios to 22/33/45".to_owned())
        } else {
            self.modify_config_item(true)
        }
    }

    /// A key while the settings popup is open.
    pub fn handle_config_modal_key(&mut self, k: KeyPress) -> (e: Vec<Effect>)
        ensures
            config_key(*old(self), k, *final(self), e@),
    {
        let c = k.code;
        match self.config_menu.config_menu_subview {
            ConfigSubView::Keybindings => {
                if c == KeyCode::Esc || c == KeyCode::Backspace {
                    self.config_menu.config_menu_subview = ConfigSubView::Main;
                    Vec::new()
                } else if c == KeyCode::Up || c == KeyCode::Char('k') {
                    self.config_menu.config_keybind_selected_idx = self.config_menu.config_keybind_selected_idx.saturating_sub(1);
                    Vec::new()
                } else if c == KeyCode::Down || c == KeyCode::Char('j') {
                    if self.config_menu.config_keybind_selected_idx < 24 {
                        self.config_menu.config_keybind_selected_idx = self.config_menu.config_keybind_selected_idx + 1;
                    }
                    Vec::new()
                } else if c == KeyCode::Char('r') {
                    self.config.keybindings = KeyBindingsConfig::default();
                    save_and_toast("Reset keybindings to defaults".to_owned())
                } else if c == KeyCode::Char('q') {
                    self.popups.show_config_modal = false;
                    Vec::new()
                } else {
                    Vec::new()
                }
            },
            ConfigSubView::Main => {
                if c == KeyCode::Esc || c == KeyCode::Char('q') || c == KeyCode::Char('/') {
                    self.popups.show_config_modal = false;
                    Vec::new()
                } else if c == KeyCode::Up || c == KeyCode::Char('k') {
                    self.config_menu.config_menu_selected_idx = self.config_menu.config_menu_selected_idx.saturating_sub(1);
                    Vec::new()
                } else if c == KeyCode::Down || c == KeyCode::Char('j') {
                    if self.config_menu.config_menu_selected_idx < 7 {
                        self.config_menu.config_menu_selected_idx = self.config_menu.config_menu_selected_idx + 1;
                    }
                    Vec::new()
                } else if c == KeyCode::Left || c == KeyCode::Char('h') {
                    self.modify_config_item(false)
                } else if c == KeyCode::Right || c == KeyCode::Char('l') {
                    self.modify_config_item(true)
                } else if c == KeyCode::Enter || c == KeyCode::Char(' ') {
                    self.activate_config_item()
                } else {
                    Vec::new()
                }
            },
        }
    }
}

} // verus!
