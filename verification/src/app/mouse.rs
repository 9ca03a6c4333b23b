//! What a mouse click or scroll does: popups take it first, then the header
//! and status bars, then the pane under the pointer.
use vstd::prelude::*;
use crate::model::{ActivePane, SidebarItem};
use crate::ui::modals::{bottom_sheet_spec, centered_spec, ConfigSubView, ModalHelper, Rect};
use crate::ui::config_menu::{list_scroll, list_scroll_of};
use super::input::{add_submitted, config_item_activated, export_submitted, theme_applied};
use super::keys::picker_start;
use super::nav::{
    copy_effects, delete_effects, item_at, mark_read_effects, navigated_down, navigated_up, open_effects, refreshed_all,
    sat_add, sat_sub, selection_applied, toggle_read_effects, toggle_star_effects, two_effects,
};
use super::{shown_len, App, ArticleView, ConfigMenu, Effect, Layout, Popups, Search, Themes};

verus! {

/// What the mouse did.
#[derive(Debug, Clone, Copy, PartialEq, Eq, Structural)]
pub enum MouseKind {
    ScrollDown,
    ScrollUp,
    /// The left button went down.
    LeftDown,
    /// Anything else: other buttons, drags, moves.
    Other,
}

/// The selection moved one row down within `n` rows, or one row up.
pub open spec fn stepped(idx: usize, down: bool, n: int) -> usize {
    if down {
        if idx + 1 < n {
            (idx + 1) as usize
        } else {
            idx
        }
    } else {
        sat_sub(idx as int, 1)
    }
}

/// The width in cells of a pane given `percent` of the terminal.
pub open spec fn pane_cells(width: u16, percent: u16) -> int {
    width * percent / 100
}

/// The pane under column `col`.
pub open spec fn pane_at(l: Layout, width: u16, col: u16) -> ActivePane {
    let sw = pane_cells(width, l.sidebar_width_percent);
    let aw = pane_cells(width, l.article_width_percent);
    if col < sw {
        ActivePane::Sidebar
    } else if col < sw + aw {
        ActivePane::ArticleList
    } else {
        ActivePane::Reader
    }
}

/// Scrolling over a pane: the lists move their selection by one, the reader
/// scrolls three lines.
pub open spec fn pane_scrolled(a: App, down: bool, b: App, e: Seq<Effect>) -> bool {
    match a.layout.active_pane {
        ActivePane::Reader => e.len() == 0 && b == App {
            view: ArticleView {
                reader_scroll_offset: if down {
                    sat_add(a.view.reader_scroll_offset as int, 3)
                } else {
                    sat_sub(a.view.reader_scroll_offset as int, 3)
                },
                ..a.view
            },
            ..a
        },
        _ => if down {
            navigated_down(a, b, e)
        } else {
            navigated_up(a, b, e)
        },
    }
}

/// A scroll of the wheel at column `col`: the theme picker or settings
/// popup moves its selection; in zen mode the focused pane scrolls;
/// otherwise the pane under the pointer takes focus and scrolls.
pub open spec fn mouse_scrolled(a: App, col: u16, width: u16, down: bool, b: App, e: Seq<Effect>) -> bool {
    if a.popups.show_theme_modal {
        e.len() == 0 && b == App {
            themes: Themes {
                theme_picker_selected_idx: stepped(
                    a.themes.theme_picker_selected_idx,
                    down,
                    a.themes.theme_names@.len() as int,
                ),
                ..a.themes
            },
            ..a
        }
    } else if a.popups.show_config_modal {
        e.len() == 0 && b == if a.config_menu.config_menu_subview == ConfigSubView::Keybindings {
            App {
                config_menu: ConfigMenu {
                    config_keybind_selected_idx: stepped(a.config_menu.config_keybind_selected_idx, down, 25),
                    ..a.config_menu
                },
                ..a
            }
        } else {
            App {
                config_menu: ConfigMenu {
                    config_menu_selected_idx: stepped(a.config_menu.config_menu_selected_idx, down, 8),
                    ..a.config_menu
                },
                ..a
            }
        }
    } else if a.layout.is_zen_mode {
        pane_scrolled(a, down, b, e)
    } else {
        pane_scrolled(
            App { layout: Layout { active_pane: pane_at(a.layout, width, col), ..a.layout }, ..a },
            down,
            b,
            e,
        )
    }
}

/// A click while the theme picker is open: a click on a listed theme
/// selects and applies it and closes the picker; a click outside closes it.
pub open spec fn theme_clicked(a: App, col: u16, row: u16, width: u16, height: u16, b: App, e: Seq<Effect>) -> bool {
    let p = centered_spec(72, 65, Rect { x: 0, y: 0, width, height });
    let closed = App { popups: Popups { show_theme_modal: false, ..a.popups }, ..a };
    if p.contains_spec(col as int, row as int) {
        let inner_y = p.y + 1;
        let visible = sat_sub(p.height as int, 2) as int;
        if inner_y <= row < inner_y + visible {
            let target = list_scroll(a.themes.theme_picker_selected_idx as int, visible, a.themes.theme_names@.len() as int)
                + (row - inner_y);
            if target < a.themes.theme_names@.len() {
                theme_applied(
                    App { themes: Themes { theme_picker_selected_idx: target as usize, ..closed.themes }, ..closed },
                    b,
                    e,
                    target,
                )
            } else {
                b == a && e.len() == 0
            }
        } else {
            b == a && e.len() == 0
        }
    } else {
        b == closed && e.len() == 0
    }
}

/// A click while the settings popup is open.
pub open spec fn config_clicked(a: App, col: u16, row: u16, width: u16, height: u16, b: App, e: Seq<Effect>) -> bool {
    let closed = App { popups: Popups { show_config_modal: false, ..a.popups }, ..a };
    if a.config_menu.config_menu_subview == ConfigSubView::Keybindings {
        let p = centered_spec(80, 70, Rect { x: 0, y: 0, width, height });
        if p.contains_spec(col as int, row as int) {
            let inner_y = p.y + 2;
            let visible = sat_sub(p.height as int, 3) as int;
            let picked = if inner_y <= row < inner_y + visible && row - inner_y < 25 {
                (row - inner_y) as usize
            } else {
                a.config_menu.config_keybind_selected_idx
            };
            let sub = if row >= p.y + sat_sub(p.height as int, 2) {
                ConfigSubView::Main
            } else {
                ConfigSubView::Keybindings
            };
            e.len() == 0 && b == App {
                config_menu: ConfigMenu { config_keybind_selected_idx: picked, config_menu_subview: sub, ..a.config_menu },
                ..a
            }
        } else {
            b == closed && e.len() == 0
        }
    } else {
        let p = bottom_sheet_spec(88, 15, Rect { x: 0, y: 0, width, height });
        if p.contains_spec(col as int, row as int) {
            let inner_y = p.y + 1;
            if inner_y <= row < inner_y + 8 {
                let m = App {
                    config_menu: ConfigMenu { config_menu_selected_idx: (row - inner_y) as usize, ..a.config_menu },
                    ..a
                };
                if col > p.x + 30 {
                    config_item_activated(m, b, e)
                } else {
                    b == m && e.len() == 0
                }
            } else {
                b == a && e.len() == 0
            }
        } else {
            b == closed && e.len() == 0
        }
    }
}

/// A click while the delete confirmation is open: the bottom rows hold the
/// buttons, delete on the left and cancel on the right; a click outside
/// cancels.
pub open spec fn delete_clicked(a: App, col: u16, row: u16, width: u16, height: u16, b: App, e: Seq<Effect>) -> bool {
    let p = centered_spec(50, 25, Rect { x: 0, y: 0, width, height });
    let closed = App { popups: Popups { show_delete_modal: false, ..a.popups }, ..a };
    if p.contains_spec(col as int, row as int) {
        if row >= p.y + sat_sub(p.height as int, 2) {
            b == closed && if col < p.x + 24 {
                delete_effects(a, e)
            } else {
                e.len() == 0
            }
        } else {
            b == a && e.len() == 0
        }
    } else {
        b == closed && e.len() == 0
    }
}

/// A click while the add-feed popup is open: on a field focuses it, on the
/// bottom rows submits, outside closes.
pub open spec fn add_clicked(a: App, col: u16, row: u16, width: u16, height: u16, b: App, e: Seq<Effect>) -> bool {
    let p = centered_spec(60, 45, Rect { x: 0, y: 0, width, height });
    if p.contains_spec(col as int, row as int) {
        if p.y + 3 <= row <= p.y + 5 {
            b == App { add_form: super::AddForm { modal_focused_field: 0, ..a.add_form }, ..a } && e.len() == 0
        } else if p.y + 6 <= row <= p.y + 8 {
            b == App { add_form: super::AddForm { modal_focused_field: 1, ..a.add_form }, ..a } && e.len() == 0
        } else if row >= p.y + sat_sub(p.height as int, 2) {
            add_submitted(a, b, e)
        } else {
            b == a && e.len() == 0
        }
    } else {
        b == App { popups: Popups { show_add_modal: false, ..a.popups }, ..a } && e.len() == 0
    }
}

/// A click while the export popup is open: the bottom rows submit, outside
/// closes.
pub open spec fn export_clicked(a: App, col: u16, row: u16, width: u16, height: u16, b: App, e: Seq<Effect>) -> bool {
    let p = centered_spec(55, 30, Rect { x: 0, y: 0, width, height });
    if p.contains_spec(col as int, row as int) {
        if row >= p.y + sat_sub(p.height as int, 2) {
            export_submitted(a, b, e)
        } else {
            b == a && e.len() == 0
        }
    } else {
        b == App { popups: Popups { show_export_modal: false, ..a.popups }, ..a } && e.len() == 0
    }
}

/// The width of the shortcut list at the right of the header bar.
pub open spec fn shortcuts_width() -> int {
    75
}

/// A click on the shortcut list of the header bar, `offset` cells into it.
pub open spec fn shortcut_clicked(a: App, offset: int, b: App, e: Seq<Effect>) -> bool {
    if offset < 10 {
        b == App { popups: Popups { show_help_modal: true, ..a.popups }, ..a } && e.len() == 0
    } else if offset < 22 {
        b == App {
            popups: Popups { show_config_modal: true, ..a.popups },
            config_menu: ConfigMenu { config_menu_subview: ConfigSubView::Main, ..a.config_menu },
            ..a
        } && e.len() == 0
    } else if offset < 34 {
        b == App {
            popups: Popups { show_theme_modal: true, ..a.popups },
            themes: Themes {
                theme_picker_selected_idx: picker_start(a.themes.theme_names@, a.themes.theme_name@),
                ..a.themes
            },
            ..a
        } && e.len() == 0
    } else if offset < 43 {
        &&& b == App {
            popups: Popups { show_add_modal: true, ..a.popups },
            add_form: super::AddForm {
                modal_url_input: b.add_form.modal_url_input,
                modal_folder_input: b.add_form.modal_folder_input,
                ..a.add_form
            },
            ..a
        }
        &&& b.add_form.modal_url_input@.len() == 0 && b.add_form.modal_folder_input@.len() == 0
        &&& e.len() == 0
    } else if offset < 56 {
        refreshed_all(a, b, e)
    } else if offset < 65 {
        b == App { layout: Layout { is_zen_mode: !a.layout.is_zen_mode, ..a.layout }, ..a } && e.len() == 0
    } else {
        b == App { should_quit: true, ..a } && e.len() == 0
    }
}

/// A click on the header bar: on the shortcut list (drawn when the bar is
/// wide enough) it opens help, settings, the theme picker or the add-feed
/// popup, refreshes, toggles zen mode or quits; elsewhere it focuses the
/// sidebar.
pub open spec fn header_clicked(a: App, col: u16, width: u16, b: App, e: Seq<Effect>) -> bool {
    let right_x = width - shortcuts_width();
    if width > shortcuts_width() + 28 && col >= right_x {
        shortcut_clicked(a, col - right_x, b, e)
    } else {
        b == App { layout: Layout { active_pane: ActivePane::Sidebar, ..a.layout }, ..a } && e.len() == 0
    }
}

/// A click on the sidebar at screen row `row`: a folder row is expanded or
/// collapsed, another row is selected and opened.
pub open spec fn sidebar_clicked(a: App, row: u16, b: App, e: Seq<Effect>) -> bool {
    let clicked = sat_add(row - 2, a.view.sidebar_scroll_offset as int);
    if row >= 2 && clicked < a.library.sidebar_items@.len() {
        let m = App { view: ArticleView { sidebar_selected_idx: clicked, ..a.view }, ..a };
        match a.library.sidebar_items@[clicked as int] {
            SidebarItem::FolderHeader { name, .. } => b == m && e == seq![
                Effect::ToggleFolderExpanded(name),
                Effect::ReloadData,
            ],
            _ => selection_applied(m, b, e),
        }
    } else {
        b == a && e.len() == 0
    }
}

/// A click on the article list at screen row `row`: the rows above the
/// cards open the search when it shows; a click on the selected card opens
/// it in the reader and marks it read; a click on another card selects it.
pub open spec fn list_clicked(a: App, row: u16, b: App, e: Seq<Effect>) -> bool {
    let search_active = a.search.is_searching || a.search.search_query@.len() > 0;
    let start: int = if search_active { 4 } else { 2 };
    if 2 <= row < start {
        b == App { search: Search { is_searching: true, ..a.search }, ..a } && e.len() == 0
    } else if row >= start {
        let target = sat_add(a.view.article_scroll_offset as int, (row - start) / 3) as int;
        if target < shown_len(a) {
            if target == a.view.article_selected_idx {
                let m = App { layout: Layout { active_pane: ActivePane::Reader, ..a.layout }, ..a };
                b == m && e == mark_read_effects(m)
            } else {
                super::nav::article_moved_to(a, b, e, target)
            }
        } else {
            b == a && e.len() == 0
        }
    } else {
        b == a && e.len() == 0
    }
}

/// A click on the reader, whose pane starts at column `pane_x`: the buttons
/// on its second row open, mark read, star or copy the article; elsewhere
/// the upper part scrolls up and the lower part down, four lines.
pub open spec fn reader_clicked(a: App, col: u16, row: u16, pane_x: int, b: App, e: Seq<Effect>) -> bool {
    let rel_x = sat_sub(col as int, pane_x) as int;
    if row == 1 && rel_x > 20 {
        let btn = rel_x - 20;
        b == a && if btn < 17 {
            e == open_effects(a)
        } else if btn < 34 {
            toggle_read_effects(a, e)
        } else if btn < 44 {
            toggle_star_effects(a, e)
        } else {
            e == copy_effects(a)
        }
    } else {
        e.len() == 0 && b == App {
            view: ArticleView {
                reader_scroll_offset: if row < 12 {
                    sat_sub(a.view.reader_scroll_offset as int, 4)
                } else {
                    sat_add(a.view.reader_scroll_offset as int, 4)
                },
                ..a.view
            },
            ..a
        }
    }
}

/// A click on a pane: the pane acts on it.
pub open spec fn pane_clicked(a: App, col: u16, row: u16, pane_x: int, b: App, e: Seq<Effect>) -> bool {
    match a.layout.active_pane {
        ActivePane::Sidebar => sidebar_clicked(a, row, b, e),
        ActivePane::ArticleList => list_clicked(a, row, b, e),
        ActivePane::Reader => reader_clicked(a, col, row, pane_x, b, e),
    }
}

/// A left click: an open popup takes it (theme picker, settings, help,
/// delete confirmation, add feed, export, in that order); then the header
/// bar; then the status bar, which toggles the settings; then the pane
/// under the pointer, which takes focus (in zen mode, the focused pane).
pub open spec fn mouse_clicked(a: App, col: u16, row: u16, width: u16, height: u16, b: App, e: Seq<Effect>) -> bool {
    if a.popups.show_theme_modal {
        theme_clicked(a, col, row, width, height, b, e)
    } else if a.popups.show_config_modal {
        config_clicked(a, col, row, width, height, b, e)
    } else if a.popups.show_help_modal {
        b == App { popups: Popups { show_help_modal: false, ..a.popups }, ..a } && e.len() == 0
    } else if a.popups.show_delete_modal {
        delete_clicked(a, col, row, width, height, b, e)
    } else if a.popups.show_add_modal {
        add_clicked(a, col, row, width, height, b, e)
    } else if a.popups.show_export_modal {
        export_clicked(a, col, row, width, height, b, e)
    } else if row == 0 {
        header_clicked(a, col, width, b, e)
    } else if row == sat_sub(height as int, 1) {
        b == App {
            popups: Popups { show_config_modal: !a.popups.show_config_modal, ..a.popups },
            config_menu: ConfigMenu { config_menu_subview: ConfigSubView::Main, ..a.config_menu },
            ..a
        } && e.len() == 0
    } else if a.layout.is_zen_mode {
        pane_clicked(a, col, row, 0, b, e)
    } else {
        let sw = pane_cells(width, a.layout.sidebar_width_percent);
        let aw = pane_cells(width, a.layout.article_width_percent);
        pane_clicked(
            App { layout: Layout { active_pane: pane_at(a.layout, width, col), ..a.layout }, ..a },
            col,
            row,
            sw + aw,
            b,
            e,
        )
    }
}

/// What a mouse event at (`col`, `row`) on a `width` by `height` terminal
/// does.
pub open spec fn mouse_handled(
    a: App,
    kind: MouseKind,
    col: u16,
    row: u16,
    width: u16,
    height: u16,
    b: App,
    e: Seq<Effect>,
) -> bool {
    match kind {
        MouseKind::ScrollDown => mouse_scrolled(a, col, width, true, b, e),
        MouseKind::ScrollUp => mouse_scrolled(a, col, width, false, b, e),
        MouseKind::LeftDown => mouse_clicked(a, col, row, width, height, b, e),
        MouseKind::Other => b == a && e.len() == 0,
    }
}

/// The popups fit the terminal's arithmetic: the widest and tallest popup
/// sizes are computed in 16 bits.
pub open spec fn popup_sizes_fit(width: u16, height: u16) -> bool {
    width * 88 <= u16::MAX && height * 70 <= u16::MAX
}

/// A popup is open whose area a click is measured against.
pub open spec fn sized_popup_open(p: Popups) -> bool {
    p.show_theme_modal || p.show_config_modal || p.show_delete_modal || p.show_add_modal || p.show_export_modal
}

fn pane_width(width: u16, percent: u16) -> (r: u32)
    ensures
        r == pane_cells(width, percent),
        r <= 42_949_673,
{
    assert(width * percent <= 65535 * 65535) by (nonlinear_arith);
    (width as u32) * (percent as u32) / 100
}

fn step_index(idx: usize, down: bool, n: usize) -> (r: usize)
    ensures
        r == stepped(idx, down, n as int),
{
    if down {
        if idx < n && idx + 1 < n {
            idx + 1
        } else {
            idx
        }
    } else {
        idx.saturating_sub(1)
    }
}

impl App {
    fn scroll_pane(&mut self, down: bool) -> (e: Vec<Effect>)
        ensures
            pane_scrolled(*old(self), down, *final(self), e@),
    {
        match self.layout.active_pane {
            ActivePane::Reader => {
                self.view.reader_scroll_offset = if down {
                    self.view.reader_scroll_offset.saturating_add(3)
                } else {
                    self.view.reader_scroll_offset.saturating_sub(3)
                };
                Vec::new()
            },
            _ => if down {
                self.navigate_down()
            } else {
                self.navigate_up()
            },
        }
    }

    fn pane_under(&self, width: u16, col: u16) -> (r: ActivePane)
        ensures
            r == pane_at(self.layout, width, col),
    {
        let sw = pane_width(width, self.layout.sidebar_width_percent);
        let aw = pane_width(width, self.layout.article_width_percent);
        if (col as u32) < sw {
            ActivePane::Sidebar
        } else if (col as u32) < sw + aw {
            ActivePane::ArticleList
        } else {
            ActivePane::Reader
        }
    }

    fn handle_mouse_scroll(&mut self, col: u16, width: u16, down: bool) -> (e: Vec<Effect>)
        ensures
            mouse_scrolled(*old(self), col, width, down, *final(self), e@),
    {
        if self.popups.show_theme_modal {
            self.themes.theme_picker_selected_idx = step_index(
                self.themes.theme_picker_selected_idx,
                down,
                self.themes.theme_names.len(),
            );
            return Vec::new();
        }
        if self.popups.show_config_modal {
            if self.config_menu.config_menu_subview == ConfigSubView::Keybindings {
                self.config_menu.config_keybind_selected_idx = step_index(
                    self.config_menu.config_keybind_selected_idx,
                    down,
                    25,
                );
            } else {
                self.config_menu.config_menu_selected_idx = step_index(
                    self.config_menu.config_menu_selected_idx,
                    down,
                    8,
                );
            }
            return Vec::new();
        }
        if !self.layout.is_zen_mode {
            self.layout.active_pane = self.pane_under(width, col);
        }
        self.scroll_pane(down)
    }
}

/// The theme listed at row `clicked` of the picker, if any.
pub fn picker_target(sel: usize, vh: usize, n: usize, clicked: usize) -> (r: Option<usize>)
    ensures
        match r {
            Some(t) => t == list_scroll(sel as int, vh as int, n as int) + clicked && t < n,
            None => list_scroll(sel as int, vh as int, n as int) + clicked >= n,
        },
{
    let scroll = list_scroll_of(sel, vh, n);
    if scroll < n && clicked < n - scroll {
        Some(scroll + clicked)
    } else {
        None
    }
}

fn screen(width: u16, height: u16) -> (r: Rect)
    ensures
        r == (Rect { x: 0, y: 0, width, height }),
{
    Rect::new(0, 0, width, height)
}

impl App {
    fn theme_modal_click(&mut self, col: u16, row: u16, width: u16, height: u16) -> (e: Vec<Effect>)
        requires
            popup_sizes_fit(width, height),
        ensures
            theme_clicked(*old(self), col, row, width, height, *final(self), e@),
    {
        let p = ModalHelper::centered_rect(72, 65, screen(width, height));
        if !p.contains(col, row) {
            self.popups.show_theme_modal = false;
            return Vec::new();
        }
        let inner_y = p.y + 1;
        let visible = p.height.saturating_sub(2);
        if row >= inner_y && row - inner_y < visible {
            let target = picker_target(
                self.themes.theme_picker_selected_idx,
                visible as usize,
                self.themes.theme_names.len(),
                (row - inner_y) as usize,
            );
            match target {
                Some(t) => {
                    self.popups.show_theme_modal = false;
                    self.themes.theme_picker_selected_idx = t;
                    self.apply_theme(t)
                },
                None => Vec::new(),
            }
        } else {
            Vec::new()
        }
    }

    #[verifier::spinoff_prover]
    #[verifier::rlimit(40)]
    fn config_modal_click(&mut self, col: u16, row: u16, width: u16, height: u16) -> (e: Vec<Effect>)
        requires
            popup_sizes_fit(width, height),
        ensures
            config_clicked(*old(self), col, row, width, height, *final(self), e@),
    {
        if self.config_menu.config_menu_subview == ConfigSubView::Keybindings {
            let p = ModalHelper::centered_rect(80, 70, screen(width, height));
            if !p.contains(col, row) {
                self.popups.show_config_modal = false;
                return Vec::new();
            }
            let inner_y = p.y + 2;
            let visible = p.height.saturating_sub(3);
            if row >= inner_y && row - inner_y < visible && row - inner_y < 25 {
                self.config_menu.config_keybind_selected_idx = (row - inner_y) as usize;
            }
            if row >= p.y + p.height.saturating_sub(2) {
                self.config_menu.config_menu_subview = ConfigSubView::Main;
            }
            Vec::new()
        } else {
            let p = ModalHelper::bottom_sheet_rect(88, 15, screen(width, height));
            if !p.contains(col, row) {
                self.popups.show_config_modal = false;
                return Vec::new();
            }
            let inner_y = p.y + 1;
            if row >= inner_y && row - inner_y < 8 {
                self.config_menu.config_menu_selected_idx = (row - inner_y) as usize;
                if col as u32 > p.x as u32 + 30 {
                    return self.activate_config_item();
                }
            }
            Vec::new()
        }
    }

    fn delete_modal_click(&mut self, col: u16, row: u16, width: u16, height: u16) -> (e: Vec<Effect>)
        requires
            popup_sizes_fit(width, height),
        ensures
            delete_clicked(*old(self), col, row, width, height, *final(self), e@),
    {
        let p = ModalHelper::centered_rect(50, 25, screen(width, height));
        if !p.contains(col, row) {
            self.popups.show_delete_modal = false;
            return Vec::new();
        }
        if row >= p.y + p.height.saturating_sub(2) {
            let e = if (col as u32) < p.x as u32 + 24 {
                self.confirm_delete_selected()
            } else {
                Vec::new()
            };
            self.popups.show_delete_modal = false;
            e
        } else {
            Vec::new()
        }
    }

    fn add_modal_click(&mut self, col: u16, row: u16, width: u16, height: u16) -> (e: Vec<Effect>)
        requires
            popup_sizes_fit(width, height),
        ensures
            add_clicked(*old(self), col, row, width, height, *final(self), e@),
    {
        let p = ModalHelper::centered_rect(60, 45, screen(width, height));
        if !p.contains(col, row) {
            self.popups.show_add_modal = false;
            return Vec::new();
        }
        let r = row as u32;
        let y = p.y as u32;
        if r >= y + 3 && r <= y + 5 {
            self.add_form.modal_focused_field = 0;
            Vec::new()
        } else if r >= y + 6 && r <= y + 8 {
            self.add_form.modal_focused_field = 1;
            Vec::new()
        } else if row >= p.y + p.height.saturating_sub(2) {
            self.submit_add_modal()
        } else {
            Vec::new()
        }
    }

    fn export_modal_click(&mut self, col: u16, row: u16, width: u16, height: u16) -> (e: Vec<Effect>)
        requires
            popup_sizes_fit(width, height),
        ensures
            export_clicked(*old(self), col, row, width, height, *final(self), e@),
    {
        let p = ModalHelper::centered_rect(55, 30, screen(width, height));
        if !p.contains(col, row) {
            self.popups.show_export_modal = false;
            return Vec::new();
        }
        if row >= p.y + p.height.saturating_sub(2) {
            self.submit_export_modal()
        } else {
            Vec::new()
        }
    }

    fn shortcut_click(&mut self, offset: u16) -> (e: Vec<Effect>)
        ensures
            shortcut_clicked(*old(self), offset as int, *final(self), e@),
    {
        if offset < 10 {
            self.popups.show_help_modal = true;
        } else if offset < 22 {
            self.popups.show_config_modal = true;
            self.config_menu.config_menu_subview = ConfigSubView::Main;
        } else if offset < 34 {
            self.popups.show_theme_modal = true;
            self.themes.theme_picker_selected_idx = super::keys::theme_picker_start(
                &self.themes.theme_names,
                self.themes.theme_name.as_str(),
            );
        } else if offset < 43 {
            self.popups.show_add_modal = true;
            self.add_form.modal_url_input = String::new();
            self.add_form.modal_folder_input = String::new();
        } else if offset < 56 {
            return self.refresh_all_feeds();
        } else if offset < 65 {
            self.layout.is_zen_mode = !self.layout.is_zen_mode;
        } else {
            self.should_quit = true;
        }
        Vec::new()
    }

    fn header_click(&mut self, col: u16, width: u16) -> (e: Vec<Effect>)
        ensures
            header_clicked(*old(self), col, width, *final(self), e@),
    {
        if width > 75 + 28 {
            let right_x = width - 75;
            if col >= right_x {
                return self.shortcut_click(col - right_x);
            }
        }
        self.layout.active_pane = ActivePane::Sidebar;
        Vec::new()
    }

    fn sidebar_click(&mut self, row: u16) -> (e: Vec<Effect>)
        ensures
            sidebar_clicked(*old(self), row, *final(self), e@),
    {
        if row < 2 {
            return Vec::new();
        }
        let clicked = ((row - 2) as usize).saturating_add(self.view.sidebar_scroll_offset);
        if clicked >= self.library.sidebar_items.len() {
            return Vec::new();
        }
        self.view.sidebar_selected_idx = clicked;
        if let SidebarItem::FolderHeader { name, .. } = &self.library.sidebar_items[clicked] {
            return two_effects(Effect::ToggleFolderExpanded(name.clone()), Effect::ReloadData);
        }
        self.apply_sidebar_selection()
    }

    fn list_click(&mut self, row: u16) -> (e: Vec<Effect>)
        ensures
            list_clicked(*old(self), row, *final(self), e@),
    {
        let search_active = self.search.is_searching || !self.search.search_query.as_str().is_empty();
        let start: u16 = if search_active { 4 } else { 2 };
        if row >= 2 && row < start {
            self.search.is_searching = true;
            return Vec::new();
        }
        if row < start {
            return Vec::new();
        }
        let target = self.view.article_scroll_offset.saturating_add(((row - start) / 3) as usize);
        if target >= self.shown_count() {
            return Vec::new();
        }
        if target == self.view.article_selected_idx {
            self.layout.active_pane = ActivePane::Reader;
            self.mark_current_article_read()
        } else {
            self.view.article_selected_idx = target;
            self.view.reader_scroll_offset = 0;
            if self.config.mark_read_on_open {
                self.mark_current_article_read()
            } else {
                Vec::new()
            }
        }
    }

    fn reader_click(&mut self, col: u16, row: u16, pane_x: u32) -> (e: Vec<Effect>)
        ensures
            reader_clicked(*old(self), col, row, pane_x as int, *final(self), e@),
    {
        let rel_x: u32 = if (col as u32) >= pane_x { col as u32 - pane_x } else { 0 };
        if row == 1 && rel_x > 20 {
            let btn = rel_x - 20;
            if btn < 17 {
                return self.open_current_article_in_browser();
            } else if btn < 34 {
                return self.toggle_current_article_read();
            } else if btn < 44 {
                return self.toggle_current_article_star();
            } else {
                return self.copy_current_article_url();
            }
        }
        self.view.reader_scroll_offset = if row < 12 {
            self.view.reader_scroll_offset.saturating_sub(4)
        } else {
            self.view.reader_scroll_offset.saturating_add(4)
        };
        Vec::new()
    }

    fn pane_click(&mut self, col: u16, row: u16, pane_x: u32) -> (e: Vec<Effect>)
        ensures
            pane_clicked(*old(self), col, row, pane_x as int, *final(self), e@),
    {
        match self.layout.active_pane {
            ActivePane::Sidebar => self.sidebar_click(row),
            ActivePane::ArticleList => self.list_click(row),
            ActivePane::Reader => self.reader_click(col, row, pane_x),
        }
    }

    fn handle_mouse_click(&mut self, col: u16, row: u16, width: u16, height: u16) -> (e: Vec<Effect>)
        requires
            sized_popup_open(old(self).popups) ==> popup_sizes_fit(width, height),
        ensures
            mouse_clicked(*old(self), col, row, width, height, *final(self), e@),
    {
        if self.popups.show_theme_modal {
            return self.theme_modal_click(col, row, width, height);
        }
        if self.popups.show_config_modal {
            return self.config_modal_click(col, row, width, height);
        }
        if self.popups.show_help_modal {
            self.popups.show_help_modal = false;
            return Vec::new();
        }
        if self.popups.show_delete_modal {
            return self.delete_modal_click(col, row, width, height);
        }
        if self.popups.show_add_modal {
            return self.add_modal_click(col, row, width, height);
        }
        if self.popups.show_export_modal {
            return self.export_modal_click(col, row, width, height);
        }
        if row == 0 {
            return self.header_click(col, width);
        }
        if row == height.saturating_sub(1) {
            self.popups.show_config_modal = !self.popups.show_config_modal;
            self.config_menu.config_menu_subview = ConfigSubView::Main;
            return Vec::new();
        }
        if self.layout.is_zen_mode {
            return self.pane_click(col, row, 0);
        }
        let sw = pane_width(width, self.layout.sidebar_width_percent);
        let aw = pane_width(width, self.layout.article_width_percent);
        self.layout.active_pane = self.pane_under(width, col);
        self.pane_click(col, row, sw + aw)
    }

    /// Handles a mouse event at (`col`, `row`) on a `width` by `height`
    /// terminal and returns the work it leaves to the caller.
    pub fn handle_mouse_event(&mut self, kind: MouseKind, col: u16, row: u16, width: u16, height: u16) -> (e: Vec<Effect>)
        requires
            kind == MouseKind::LeftDown && sized_popup_open(old(self).popups) ==> popup_sizes_fit(width, height),
        ensures
            mouse_handled(*old(self), kind, col, row, width, height, *final(self), e@),
    {
        match kind {
            MouseKind::ScrollDown => self.handle_mouse_scroll(col, width, true),
            MouseKind::ScrollUp => self.handle_mouse_scroll(col, width, false),
            MouseKind::LeftDown => self.handle_mouse_click(col, row, width, height),
            MouseKind::Other => Vec::new(),
        }
    }
}

} // verus!
