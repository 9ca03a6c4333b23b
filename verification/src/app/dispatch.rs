//! The key handler: a popup or a search takes the key first; otherwise the
//! first action whose binding matches is performed.
use vstd::prelude::*;
use crate::config::{KeyCode, KeyPress};
use crate::model::ActivePane;
use crate::text::{pop_char, push_char, trim_string};
use crate::ui::modals::ConfigSubView;
use super::input::{
    add_key, add_submitted, config_key, delete_key, export_key, export_submitted, finder_closed, finder_key,
    finder_entered, finder_requeried, help_key, popped, search_key, theme_key, theme_applied,
};
use super::keys::{bound_action, find_action, picker_start, resized, theme_picker_start, Action};
use super::nav::{
    copy_effects, entered, jumped_bottom, jumped_top, mark_all_effects, navigated_down, navigated_up, open_effects,
    one_effect, paged_down, paged_up, reader_scrolled_down, refreshed_all, refreshed_current, selection_applied,
    toggle_read_effects, toggle_star_effects,
};
use super::{
    sidebar_ok, sidebar_rebuilt, toast_text, AddForm, App, ArticleView, ConfigMenu, Effect, ExportForm, Layout,
    Library, Popups, Search, Themes,
};

verus! {

/// What an action that opens a popup, quits, or starts a search does.
pub open spec fn popup_action_done(a: App, act: Action, b: App, e: Seq<Effect>) -> bool {
    match act {
        Action::ToggleConfig => b == App {
            popups: Popups { show_config_modal: !a.popups.show_config_modal, ..a.popups },
            config_menu: ConfigMenu { config_menu_subview: ConfigSubView::Main, ..a.config_menu },
            ..a
        } && e.len() == 0,
        Action::Quit => b == App { should_quit: true, ..a } && e.len() == 0,
        Action::Help => b == App { popups: Popups { show_help_modal: true, ..a.popups }, ..a } && e.len() == 0,
        Action::ThemePicker => b == App {
            popups: Popups { show_theme_modal: true, ..a.popups },
            themes: Themes {
                theme_picker_selected_idx: picker_start(a.themes.theme_names@, a.themes.theme_name@),
                ..a.themes
            },
            ..a
        } && e.len() == 0,
        Action::AddFeed => {
            &&& b == App {
                popups: Popups { show_add_modal: true, ..a.popups },
                add_form: AddForm {
                    modal_url_input: b.add_form.modal_url_input,
                    modal_folder_input: b.add_form.modal_folder_input,
                    modal_is_opml_mode: false,
                    modal_focused_field: 0,
                    modal_error: None,
                    modal_is_loading: false,
                },
                ..a
            }
            &&& b.add_form.modal_url_input@.len() == 0
            &&& b.add_form.modal_folder_input@.len() == 0
            &&& e.len() == 0
        },
        Action::ExportOpml => b == App {
            popups: Popups { show_export_modal: true, ..a.popups },
            export_form: ExportForm { modal_export_status: None, ..a.export_form },
            ..a
        } && e.len() == 0,
        Action::DeleteItem => b == (if a.layout.active_pane == ActivePane::Sidebar {
            App { popups: Popups { show_delete_modal: true, ..a.popups }, ..a }
        } else {
            a
        }) && e.len() == 0,
        Action::ToggleZen => b == App { layout: Layout { is_zen_mode: !a.layout.is_zen_mode, ..a.layout }, ..a }
            && e.len() == 0,
        Action::Search => {
            &&& b == App {
                layout: Layout { active_pane: ActivePane::ArticleList, ..a.layout },
                search: Search { is_searching: true, search_query: b.search.search_query, ..a.search },
                ..a
            }
            &&& b.search.search_query@.len() == 0
            &&& e.len() == 0
        },
        Action::SearchFeeds => {
            let opened = App {
                layout: Layout { active_pane: ActivePane::Sidebar, ..a.layout },
                search: Search { is_searching_feeds: true, feed_search_query: b.search.feed_search_query, ..a.search },
                ..a
            };
            &&& b.search.feed_search_query@.len() == 0
            &&& sidebar_rebuilt(opened, b)
            &&& e.len() == 0
        },
        _ => b == a && e.len() == 0,
    }
}

/// What an action on the selected article or the feeds does.
pub open spec fn article_action_done(a: App, act: Action, b: App, e: Seq<Effect>) -> bool {
    match act {
        Action::RefreshCurrent => refreshed_current(a, b, e),
        Action::RefreshAll => refreshed_all(a, b, e),
        Action::ToggleRead => b == a && toggle_read_effects(a, e),
        Action::MarkAllRead => b == a && mark_all_effects(a, e),
        Action::ToggleStar => b == a && toggle_star_effects(a, e),
        Action::OpenBrowser => b == a && e == open_effects(a),
        Action::CopyUrl => b == a && e == copy_effects(a),
        _ => b == a && e.len() == 0,
    }
}

/// What an action on the pane focus or the pane widths does.
pub open spec fn pane_action_done(a: App, act: Action, b: App, e: Seq<Effect>) -> bool {
    match act {
        Action::FocusNextPane => b == App {
            layout: Layout { active_pane: a.layout.active_pane.next_spec(), ..a.layout },
            ..a
        } && e.len() == 0,
        Action::FocusPrevPane => b == App {
            layout: Layout { active_pane: a.layout.active_pane.prev_spec(), ..a.layout },
            ..a
        } && e.len() == 0,
        Action::FocusSidebar => b == App { layout: Layout { active_pane: ActivePane::Sidebar, ..a.layout }, ..a }
            && e.len() == 0,
        Action::FocusArticleList => b == App {
            layout: Layout { active_pane: ActivePane::ArticleList, ..a.layout },
            ..a
        } && e.len() == 0,
        Action::FocusReader => b == App { layout: Layout { active_pane: ActivePane::Reader, ..a.layout }, ..a }
            && e.len() == 0,
        Action::ResizeSidebarDec | Action::ResizeSidebarInc | Action::ResizeArticleDec | Action::ResizeArticleInc
        | Action::ResizeReaderInc | Action::ResizeReaderDec => b == App { layout: resized(a.layout, act), ..a }
            && e.len() == 0,
        Action::ResetLayout => {
            &&& b == App {
                layout: Layout {
                    sidebar_width_percent: a.config.sidebar_ratio,
                    article_width_percent: a.config.article_list_ratio,
                    reader_width_percent: a.config.reader_ratio,
                    ..a.layout
                },
                ..a
            }
            &&& e.len() == 1
            &&& toast_text(e[0], "Reset pane layout ratios"@)
        },
        _ => b == a && e.len() == 0,
    }
}

/// What a navigation action does.
pub open spec fn nav_action_done(a: App, act: Action, b: App, e: Seq<Effect>) -> bool {
    match act {
        Action::NavDown => navigated_down(a, b, e),
        Action::NavUp => navigated_up(a, b, e),
        Action::PageDown => paged_down(a, b, e),
        Action::PageUp => paged_up(a, b, e),
        Action::SpaceAdvance => reader_scrolled_down(a, b, 12) && e.len() == 0,
        Action::JumpTop => jumped_top(a, b, e),
        Action::JumpBottom => jumped_bottom(a, b, e),
        Action::SelectEnter => entered(a, b, e),
        _ => b == a && e.len() == 0,
    }
}

/// The group an action belongs to.
pub open spec fn action_group(act: Action) -> int {
    match act {
        Action::ToggleConfig | Action::Quit | Action::Help | Action::ThemePicker | Action::AddFeed
        | Action::ExportOpml | Action::DeleteItem | Action::ToggleZen | Action::Search | Action::SearchFeeds => 0,
        Action::RefreshCurrent | Action::RefreshAll | Action::ToggleRead | Action::MarkAllRead | Action::ToggleStar
        | Action::OpenBrowser | Action::CopyUrl => 1,
        Action::FocusNextPane | Action::FocusPrevPane | Action::FocusSidebar | Action::FocusArticleList
        | Action::FocusReader | Action::ResizeSidebarDec | Action::ResizeSidebarInc | Action::ResizeArticleDec
        | Action::ResizeArticleInc | Action::ResizeReaderInc | Action::ResizeReaderDec | Action::ResetLayout => 2,
        _ => 3,
    }
}

/// What a bound action does.
pub open spec fn action_done(a: App, act: Action, b: App, e: Seq<Effect>) -> bool {
    if action_group(act) == 0 {
        popup_action_done(a, act, b, e)
    } else if action_group(act) == 1 {
        article_action_done(a, act, b, e)
    } else if action_group(act) == 2 {
        pane_action_done(a, act, b, e)
    } else {
        nav_action_done(a, act, b, e)
    }
}

/// What a key press does: the open popup takes it (help, settings, theme
/// picker, add feed, export, delete confirmation, in that order of
/// precedence), then the article search, then the feed finder; otherwise
/// the first bound action is performed, and an unbound key does nothing.
pub open spec fn key_handled(a: App, k: KeyPress, b: App, e: Seq<Effect>) -> bool {
    if a.popups.show_help_modal {
        help_key(a, k, b, e)
    } else if a.popups.show_config_modal {
        config_key(a, k, b, e)
    } else if a.popups.show_theme_modal {
        theme_key(a, k, b, e)
    } else if a.popups.show_add_modal {
        add_key(a, k, b, e)
    } else if a.popups.show_export_modal {
        export_key(a, k, b, e)
    } else if a.popups.show_delete_modal {
        delete_key(a, k, b, e)
    } else if a.search.is_searching {
        search_key(a, k, b, e)
    } else if a.search.is_searching_feeds {
        finder_key(a, k, b, e)
    } else {
        match bound_action(a.config.keybindings, k) {
            Some(act) => action_done(a, act, b, e),
            None => b == a && e.len() == 0,
        }
    }
}

impl App {
    fn help_modal_key(&mut self, k: KeyPress) -> (e: Vec<Effect>)
        ensures
            help_key(*old(self), k, *final(self), e@),
    {
        let c = k.code;
        if c == KeyCode::Esc || c == KeyCode::Char('?') || c == KeyCode::Char('q') {
            self.popups.show_help_modal = false;
        }
        Vec::new()
    }

    fn theme_modal_key(&mut self, k: KeyPress) -> (e: Vec<Effect>)
        ensures
            theme_key(*old(self), k, *final(self), e@),
    {
        let c = k.code;
        if c == KeyCode::Esc || c == KeyCode::Char('q') {
            self.popups.show_theme_modal = false;
            Vec::new()
        } else if c == KeyCode::Up || c == KeyCode::Char('k') {
            self.themes.theme_picker_selected_idx = self.themes.theme_picker_selected_idx.saturating_sub(1);
            Vec::new()
        } else if c == KeyCode::Down || c == KeyCode::Char('j') {
            if self.themes.theme_picker_selected_idx < self.themes.theme_names.len()
                && self.themes.theme_picker_selected_idx + 1 < self.themes.theme_names.len() {
                self.themes.theme_picker_selected_idx = self.themes.theme_picker_selected_idx + 1;
            }
            Vec::new()
        } else if c == KeyCode::Enter {
            self.popups.show_theme_modal = false;
            let i = self.themes.theme_picker_selected_idx;
            if i < self.themes.theme_names.len() {
                self.apply_theme(i)
            } else {
                Vec::new()
            }
        } else {
            Vec::new()
        }
    }

    /// Submits the add-feed popup.
    pub fn submit_add_modal(&mut self) -> (e: Vec<Effect>)
        ensures
            add_submitted(*old(self), *final(self), e@),
    {
        let input = trim_string(self.add_form.modal_url_input.as_str());
        if input.as_str().is_empty() {
            self.add_form.modal_error = Some("Input cannot be empty".to_owned());
            proof {
                reveal_strlit("Input cannot be empty");
            }
            return Vec::new();
        }
        if self.add_form.modal_is_opml_mode {
            return one_effect(Effect::ImportOpml(input));
        }
        let folder_text = trim_string(self.add_form.modal_folder_input.as_str());
        let folder = if folder_text.as_str().is_empty() {
            None
        } else {
            Some(folder_text)
        };
        self.add_form.modal_is_loading = true;
        self.add_form.modal_error = None;
        self.sync.pending_fetches = self.sync.pending_fetches.saturating_add(1);
        self.sync.is_syncing = true;
        one_effect(Effect::AddFeed { url: input, folder })
    }

    fn add_modal_key(&mut self, k: KeyPress) -> (e: Vec<Effect>)
        ensures
            add_key(*old(self), k, *final(self), e@),
    {
        let c = k.code;
        if c == KeyCode::Esc {
            self.popups.show_add_modal = false;
            self.add_form.modal_error = None;
            Vec::new()
        } else if c == KeyCode::Tab {
            if !self.add_form.modal_is_opml_mode {
                self.add_form.modal_focused_field = if self.add_form.modal_focused_field % 2 == 0 { 1 } else { 0 };
            }
            Vec::new()
        } else if c == KeyCode::Char('t') && k.ctrl {
            self.add_form.modal_is_opml_mode = !self.add_form.modal_is_opml_mode;
            self.add_form.modal_error = None;
            Vec::new()
        } else if c == KeyCode::Backspace {
            if self.add_form.modal_focused_field == 0 {
                pop_char(&mut self.add_form.modal_url_input);
            } else {
                pop_char(&mut self.add_form.modal_folder_input);
            }
            Vec::new()
        } else if let KeyCode::Char(ch) = c {
            if self.add_form.modal_focused_field == 0 {
                push_char(&mut self.add_form.modal_url_input, ch);
            } else {
                push_char(&mut self.add_form.modal_folder_input, ch);
            }
            Vec::new()
        } else if c == KeyCode::Enter {
            self.submit_add_modal()
        } else {
            Vec::new()
        }
    }

    /// Submits the export popup.
    pub fn submit_export_modal(&self) -> (e: Vec<Effect>)
        ensures
            export_submitted(*self, *self, e@),
    {
        let path = trim_string(self.export_form.modal_export_path.as_str());
        if path.as_str().is_empty() {
            Vec::new()
        } else {
            one_effect(Effect::ExportOpml(path))
        }
    }

    fn export_modal_key(&mut self, k: KeyPress) -> (e: Vec<Effect>)
        ensures
            export_key(*old(self), k, *final(self), e@),
    {
        let c = k.code;
        if c == KeyCode::Esc {
            self.popups.show_export_modal = false;
            Vec::new()
        } else if c == KeyCode::Backspace {
            pop_char(&mut self.export_form.modal_export_path);
            Vec::new()
        } else if let KeyCode::Char(ch) = c {
            push_char(&mut self.export_form.modal_export_path, ch);
            Vec::new()
        } else if c == KeyCode::Enter {
            self.submit_export_modal()
        } else {
            Vec::new()
        }
    }

    fn delete_modal_key(&mut self, k: KeyPress) -> (e: Vec<Effect>)
        ensures
            delete_key(*old(self), k, *final(self), e@),
    {
        let c = k.code;
        if c == KeyCode::Esc || c == KeyCode::Char('n') {
            self.popups.show_delete_modal = false;
            Vec::new()
        } else if c == KeyCode::Enter || c == KeyCode::Char('y') {
            let e = self.confirm_delete_selected();
            self.popups.show_delete_modal = false;
            e
        } else {
            Vec::new()
        }
    }

    fn search_input_key(&mut self, k: KeyPress) -> (e: Vec<Effect>)
        ensures
            search_key(*old(self), k, *final(self), e@),
    {
        let c = k.code;
        if c == KeyCode::Esc {
            self.search.is_searching = false;
            self.search.search_query = String::new();
            self.view.article_selected_idx = 0;
        } else if c == KeyCode::Enter {
            self.search.is_searching = false;
        } else if c == KeyCode::Backspace {
            pop_char(&mut self.search.search_query);
            self.view.article_selected_idx = 0;
        } else if let KeyCode::Char(ch) = c {
            push_char(&mut self.search.search_query, ch);
            self.view.article_selected_idx = 0;
        }
        Vec::new()
    }

    /// Closes the feed finder and lists every feed again.
    fn close_finder(&mut self)
        ensures
            finder_closed(*old(self), *final(self)),
    {
        self.search.is_searching_feeds = false;
        self.search.feed_search_query = String::new();
        self.rebuild_sidebar_items();
    }

    /// Lists what the finder's current query finds, selecting the first row.
    fn requery_finder(&mut self)
        ensures
            finder_requeried(*old(self), *final(self), old(self).search.feed_search_query@),
    {
        let items = super::sidebar_rows(&self.library, &self.search);
        self.library.sidebar_items = items;
        self.view.sidebar_selected_idx = if self.search.feed_search_query.as_str().is_empty() { 1 } else { 0 };
    }

    fn finder_input_key(&mut self, k: KeyPress) -> (e: Vec<Effect>)
        ensures
            finder_key(*old(self), k, *final(self), e@),
    {
        let c = k.code;
        if c == KeyCode::Esc {
            self.close_finder();
            Vec::new()
        } else if c == KeyCode::Enter {
            self.finder_enter()
        } else if c == KeyCode::Backspace {
            self.finder_backspace();
            Vec::new()
        } else if c == KeyCode::Up {
            self.view.sidebar_selected_idx = self.view.sidebar_selected_idx.saturating_sub(1);
            Vec::new()
        } else if c == KeyCode::Down {
            if self.view.sidebar_selected_idx < self.library.sidebar_items.len()
                && self.view.sidebar_selected_idx + 1 < self.library.sidebar_items.len() {
                self.view.sidebar_selected_idx = self.view.sidebar_selected_idx + 1;
            }
            Vec::new()
        } else if let KeyCode::Char(ch) = c {
            self.finder_type(ch);
            Vec::new()
        } else {
            Vec::new()
        }
    }

    fn finder_enter(&mut self) -> (e: Vec<Effect>)
        ensures
            finder_entered(*old(self), *final(self), e@),
    {
        let ghost a = *self;
        let e = self.apply_sidebar_selection();
        let ghost m = *self;
        self.close_finder();
        let ghost m2 = *self;
        self.layout.active_pane = ActivePane::ArticleList;
        assert(selection_applied(a, m, e@) && finder_closed(m, m2));
        e
    }

    fn finder_backspace(&mut self)
        ensures
            finder_requeried(*old(self), *final(self), popped(old(self).search.feed_search_query@)),
    {
        pop_char(&mut self.search.feed_search_query);
        self.requery_finder();
    }

    fn finder_type(&mut self, ch: char)
        ensures
            finder_requeried(*old(self), *final(self), old(self).search.feed_search_query@.push(ch)),
    {
        push_char(&mut self.search.feed_search_query, ch);
        self.requery_finder();
    }
}

impl App {
    fn perform_popup_action(&mut self, act: Action) -> (e: Vec<Effect>)
        requires
            action_group(act) == 0,
        ensures
            popup_action_done(*old(self), act, *final(self), e@),
    {
        match act {
            Action::ToggleConfig => {
                self.popups.show_config_modal = !self.popups.show_config_modal;
                self.config_menu.config_menu_subview = ConfigSubView::Main;
                Vec::new()
            },
            Action::Quit => {
                self.should_quit = true;
                Vec::new()
            },
            Action::Help => {
                self.popups.show_help_modal = true;
                Vec::new()
            },
            Action::ThemePicker => {
                self.popups.show_theme_modal = true;
                self.themes.theme_picker_selected_idx = theme_picker_start(
                    &self.themes.theme_names,
                    self.themes.theme_name.as_str(),
                );
                Vec::new()
            },
            Action::AddFeed => {
                self.popups.show_add_modal = true;
                self.add_form.modal_url_input = String::new();
                self.add_form.modal_folder_input = String::new();
                self.add_form.modal_is_opml_mode = false;
                self.add_form.modal_focused_field = 0;
                self.add_form.modal_error = None;
                self.add_form.modal_is_loading = false;
                Vec::new()
            },
            Action::ExportOpml => {
                self.popups.show_export_modal = true;
                self.export_form.modal_export_status = None;
                Vec::new()
            },
            Action::DeleteItem => {
                if self.layout.active_pane == ActivePane::Sidebar {
                    self.popups.show_delete_modal = true;
                }
                Vec::new()
            },
            Action::ToggleZen => {
                self.layout.is_zen_mode = !self.layout.is_zen_mode;
                Vec::new()
            },
            Action::Search => {
                self.layout.active_pane = ActivePane::ArticleList;
                self.search.is_searching = true;
                self.search.search_query = String::new();
                Vec::new()
            },
            Action::SearchFeeds => {
                self.layout.active_pane = ActivePane::Sidebar;
                self.search.is_searching_feeds = true;
                self.search.feed_search_query = String::new();
                self.rebuild_sidebar_items();
                Vec::new()
            },
            _ => Vec::new(),
        }
    }

    fn perform_article_action(&mut self, act: Action) -> (e: Vec<Effect>)
        requires
            action_group(act) == 1,
        ensures
            article_action_done(*old(self), act, *final(self), e@),
    {
        match act {
            Action::RefreshCurrent => self.refresh_current_feed(),
            Action::RefreshAll => self.refresh_all_feeds(),
            Action::ToggleRead => self.toggle_current_article_read(),
            Action::MarkAllRead => self.mark_all_in_view_read(),
            Action::ToggleStar => self.toggle_current_article_star(),
            Action::OpenBrowser => self.open_current_article_in_browser(),
            Action::CopyUrl => self.copy_current_article_url(),
            _ => Vec::new(),
        }
    }

    fn perform_pane_action(&mut self, act: Action) -> (e: Vec<Effect>)
        requires
            action_group(act) == 2,
        ensures
            pane_action_done(*old(self), act, *final(self), e@),
    {
        match act {
            Action::FocusNextPane => {
                self.layout.active_pane = self.layout.active_pane.next();
                Vec::new()
            },
            Action::FocusPrevPane => {
                self.layout.active_pane = self.layout.active_pane.prev();
                Vec::new()
            },
            Action::FocusSidebar => {
                self.layout.active_pane = ActivePane::Sidebar;
                Vec::new()
            },
            Action::FocusArticleList => {
                self.layout.active_pane = ActivePane::ArticleList;
                Vec::new()
            },
            Action::FocusReader => {
                self.layout.active_pane = ActivePane::Reader;
                Vec::new()
            },
            Action::ResizeSidebarDec | Action::ResizeSidebarInc | Action::ResizeArticleDec | Action::ResizeArticleInc
            | Action::ResizeReaderInc | Action::ResizeReaderDec => {
                self.resize_panes(act);
                Vec::new()
            },
            Action::ResetLayout => {
                self.layout.sidebar_width_percent = self.config.sidebar_ratio;
                self.layout.article_width_percent = self.config.article_list_ratio;
                self.layout.reader_width_percent = self.config.reader_ratio;
                proof {
                    reveal_strlit("Reset pane layout ratios");
                }
                one_effect(Effect::Toast("Reset pane layout ratios".to_owned()))
            },
            _ => Vec::new(),
        }
    }

    fn perform_nav_action(&mut self, act: Action) -> (e: Vec<Effect>)
        requires
            action_group(act) == 3,
        ensures
            nav_action_done(*old(self), act, *final(self), e@),
    {
        match act {
            Action::NavDown => self.navigate_down(),
            Action::NavUp => self.navigate_up(),
            Action::PageDown => self.page_down(),
            Action::PageUp => self.page_up(),
            Action::SpaceAdvance => {
                self.space_advance();
                Vec::new()
            },
            Action::JumpTop => self.jump_to_top(),
            Action::JumpBottom => self.jump_to_bottom(),
            Action::SelectEnter => self.handle_enter_key(),
            _ => Vec::new(),
        }
    }

    /// Performs a bound action.
    pub fn perform_action(&mut self, act: Action) -> (e: Vec<Effect>)
        ensures
            action_done(*old(self), act, *final(self), e@),
    {
        match act {
            Action::ToggleConfig | Action::Quit | Action::Help | Action::ThemePicker | Action::AddFeed
            | Action::ExportOpml | Action::DeleteItem | Action::ToggleZen | Action::Search | Action::SearchFeeds => {
                self.perform_popup_action(act)
            },
            Action::RefreshCurrent | Action::RefreshAll | Action::ToggleRead | Action::MarkAllRead
            | Action::ToggleStar | Action::OpenBrowser | Action::CopyUrl => self.perform_article_action(act),
            Action::FocusNextPane | Action::FocusPrevPane | Action::FocusSidebar | Action::FocusArticleList
            | Action::FocusReader | Action::ResizeSidebarDec | Action::ResizeSidebarInc | Action::ResizeArticleDec
            | Action::ResizeArticleInc | Action::ResizeReaderInc | Action::ResizeReaderDec | Action::ResetLayout => {
                self.perform_pane_action(act)
            },
            _ => self.perform_nav_action(act),
        }
    }

    /// Handles a key press and returns the work it leaves to the caller.
    pub fn handle_key_event(&mut self, key: KeyPress) -> (e: Vec<Effect>)
        ensures
            key_handled(*old(self), key, *final(self), e@),
    {
        if self.popups.show_help_modal {
            self.help_modal_key(key)
        } else if self.popups.show_config_modal {
            self.handle_config_modal_key(key)
        } else if self.popups.show_theme_modal {
            self.theme_modal_key(key)
        } else if self.popups.show_add_modal {
            self.add_modal_key(key)
        } else if self.popups.show_export_modal {
            self.export_modal_key(key)
        } else if self.popups.show_delete_modal {
            self.delete_modal_key(key)
        } else if self.search.is_searching {
            self.search_input_key(key)
        } else if self.search.is_searching_feeds {
            self.finder_input_key(key)
        } else {
            match find_action(&self.config.keybindings, &key) {
                Some(act) => self.perform_action(act),
                None => Vec::new(),
            }
        }
    }
}

} // verus!
