use ratarss::app::keys::Action;
use ratarss::app::mouse::MouseKind;
use ratarss::app::{App, Effect};
use ratarss::config::{AppConfig, KeyCode, KeyPress};
use ratarss::model::{ActivePane, Article, CurrentFilter, Feed, SidebarItem, SmartFeedKind};
use ratarss::sample_data::default_feeds;
use ratarss::storage::{lookup_counts, record_count, UnreadCounts};
use ratarss::app::events::{sync_expired, toast_expired};

fn key(c: char, ctrl: bool) -> KeyPress {
    KeyPress { code: KeyCode::Char(c), ctrl, alt: false, shift: false }
}

fn code(c: KeyCode) -> KeyPress {
    KeyPress { code: c, ctrl: false, alt: false, shift: false }
}

fn themes() -> Vec<String> {
    vec!["RataRSS Dark".to_string(), "Nord".to_string(), "Dracula".to_string()]
}

fn app_with_feeds() -> App {
    let mut app = App::new(AppConfig::default(), themes(), "RataRSS Dark".to_string());
    app.load_library(default_feeds(), UnreadCounts::default(), Vec::new());
    app
}

fn article(n: usize, read: bool) -> Article {
    Article {
        id: format!("a{n}"),
        feed_id: "f".to_string(),
        feed_title: "Feed".to_string(),
        title: format!("Article {n}"),
        author: None,
        summary: Some("summary".to_string()),
        content: None,
        url: format!("https://example.com/{n}"),
        published: Some(1_700_000_000),
        read,
        starred: false,
        created_at: 1_700_000_000,
    }
}

#[test]
fn test_mouse_events_handling() {
    let mut app = app_with_feeds();

    app.handle_mouse_event(MouseKind::LeftDown, 5, 3, 100, 30);
    assert_eq!(app.layout.active_pane, ActivePane::Sidebar);

    app.handle_mouse_event(MouseKind::LeftDown, 35, 5, 100, 30);
    assert_eq!(app.layout.active_pane, ActivePane::ArticleList);

    app.handle_mouse_event(MouseKind::LeftDown, 80, 10, 100, 30);
    assert_eq!(app.layout.active_pane, ActivePane::Reader);

    let prev_offset = app.view.reader_scroll_offset;
    app.handle_mouse_event(MouseKind::ScrollDown, 80, 10, 100, 30);
    assert!(app.view.reader_scroll_offset >= prev_offset);
    assert_eq!(app.view.reader_scroll_offset, prev_offset + 3);
}

#[test]
fn search_bindings_enter_the_right_mode() {
    let mut app = app_with_feeds();
    let sidebar_len = app.library.sidebar_items.len();
    assert!(sidebar_len > 0, "smart views should always be listed");

    app.handle_key_event(key('f', true));
    assert!(app.search.is_searching_feeds);
    assert_eq!(app.layout.active_pane, ActivePane::Sidebar);

    for c in "zqxjv".chars() {
        app.handle_key_event(key(c, false));
    }
    assert_eq!(app.search.feed_search_query, "zqxjv");
    assert!(app.library.sidebar_items.is_empty(), "no feed should fuzzy-match gibberish");

    app.handle_key_event(code(KeyCode::Esc));
    assert!(!app.search.is_searching_feeds);
    assert!(app.search.feed_search_query.is_empty());
    assert_eq!(app.library.sidebar_items.len(), sidebar_len);

    app.handle_key_event(key('a', true));
    assert!(app.search.is_searching);
    assert_eq!(app.layout.active_pane, ActivePane::ArticleList);
}

#[test]
fn feed_finder_ranks_and_opens_matches() {
    let mut app = app_with_feeds();
    app.handle_key_event(key('f', true));
    for c in "hn".chars() {
        app.handle_key_event(key(c, false));
    }
    // "Hacker News" is an acronym match and ranks first.
    match &app.library.sidebar_items[0] {
        SidebarItem::Feed { title, .. } => assert_eq!(title, "Hacker News"),
        other => panic!("expected a feed row, got {other:?}"),
    }
    assert_eq!(app.view.sidebar_selected_idx, 0);
    let effects = app.handle_key_event(code(KeyCode::Enter));
    assert_eq!(effects, vec![Effect::ReloadArticles]);
    assert_eq!(app.view.current_filter, CurrentFilter::Feed("hacker-news".to_string()));
    assert_eq!(app.view.current_view_title, "Hacker News");
    assert!(!app.search.is_searching_feeds);
    assert_eq!(app.layout.active_pane, ActivePane::ArticleList);
}

#[test]
fn sidebar_lists_loose_feeds_then_folders() {
    let app = app_with_feeds();
    let items = &app.library.sidebar_items;
    assert_eq!(items[0], SidebarItem::SmartHeader);
    assert_eq!(items[1], SidebarItem::Smart(SmartFeedKind::Today, 0));
    // Feeds without a folder come first, sorted by title.
    match (&items[5], &items[6]) {
        (SidebarItem::Feed { title: a, folder: None, .. }, SidebarItem::Feed { title: b, folder: None, .. }) => {
            assert_eq!(a, "Hacker News");
            assert_eq!(b, "Rust Blog");
        }
        other => panic!("expected loose feeds, got {other:?}"),
    }
    // Then the folders in name order: "2020s" before "Fin Econ".
    match &items[7] {
        SidebarItem::FolderHeader { name, is_expanded, feed_count, .. } => {
            assert_eq!(name, "2020s");
            assert!(*is_expanded);
            assert_eq!(*feed_count, 3);
        }
        other => panic!("expected a folder, got {other:?}"),
    }
    match (&items[8], &items[9], &items[10]) {
        (SidebarItem::Feed { title: a, .. }, SidebarItem::Feed { title: b, .. }, SidebarItem::Feed { title: c, .. }) => {
            assert_eq!((a.as_str(), b.as_str(), c.as_str()), ("Ars Technica", "Data Colada", "xkcd.com"));
        }
        other => panic!("expected feeds, got {other:?}"),
    }
    assert_eq!(items.len(), 5 + 2 + 1 + 3 + 1 + 5);
    match items.last().unwrap() {
        SidebarItem::Feed { title, folder, .. } => {
            assert_eq!(title, "Marginal Revolution");
            assert_eq!(folder.as_deref(), Some("Fin Econ"));
        }
        other => panic!("expected a feed, got {other:?}"),
    }
}

#[test]
fn collapsed_folders_hide_their_feeds() {
    let mut app = App::new(AppConfig::default(), themes(), "RataRSS Dark".to_string());
    app.load_library(default_feeds(), UnreadCounts::default(), vec!["Fin Econ".to_string()]);
    assert_eq!(app.library.sidebar_items.len(), 5 + 1 + 3 + 1 + 2);
    assert!(app.library.sidebar_items.iter().any(|i| matches!(i,
        SidebarItem::FolderHeader { name, is_expanded: false, feed_count: 5, .. } if name == "Fin Econ")));
}

#[test]
fn navigation_opens_sidebar_rows() {
    let mut app = app_with_feeds();
    assert_eq!(app.view.sidebar_selected_idx, 1);
    let e = app.handle_key_event(key('j', false));
    assert_eq!(e, vec![Effect::ReloadArticles]);
    assert_eq!(app.view.sidebar_selected_idx, 2);
    assert_eq!(app.view.current_filter, CurrentFilter::Smart(SmartFeedKind::AllUnread));
    assert_eq!(app.view.current_view_title, "All Unread");
    // Up onto the header stays there: there is no row above it.
    app.handle_key_event(key('k', false));
    assert_eq!(app.view.sidebar_selected_idx, 1);
    app.handle_key_event(key('k', false));
    assert_eq!(app.view.sidebar_selected_idx, 0);
}

#[test]
fn articles_load_count_unread_and_mark_read_in_reader() {
    let mut app = app_with_feeds();
    app.view.article_selected_idx = 7;
    let e = app.load_articles(vec![article(0, false), article(1, true), article(2, false)]);
    assert!(e.is_empty());
    assert_eq!(app.view.current_view_unread_count, 2);
    assert_eq!(app.view.article_selected_idx, 2);

    app.layout.active_pane = ActivePane::Reader;
    let e = app.load_articles(vec![article(0, false), article(1, true), article(2, false)]);
    assert_eq!(
        e,
        vec![Effect::SetArticleRead { article_id: "a2".to_string(), read: true }, Effect::ReloadData]
    );
}

#[test]
fn article_search_filters_the_list() {
    let mut app = app_with_feeds();
    app.load_articles(vec![article(0, false), article(1, true), article(12, false)]);
    app.handle_key_event(key('a', true));
    for c in "article 1".chars() {
        app.handle_key_event(key(c, false));
    }
    assert_eq!(app.shown_positions(), vec![1, 2]);
    let shown: Vec<String> = app.get_filtered_articles().into_iter().map(|a| a.id).collect();
    assert_eq!(shown, vec!["a1".to_string(), "a12".to_string()]);
    app.handle_key_event(code(KeyCode::Esc));
    assert_eq!(app.shown_count(), 3);
    assert_eq!(app.get_filtered_articles().len(), 3);
}

#[test]
fn toggling_read_and_star_asks_for_the_write() {
    let mut app = app_with_feeds();
    app.load_articles(vec![article(0, false)]);
    app.layout.active_pane = ActivePane::ArticleList;
    let e = app.handle_key_event(key('m', false));
    assert_eq!(e[0], Effect::SetArticleRead { article_id: "a0".to_string(), read: true });
    assert_eq!(e[1], Effect::ReloadData);
    assert_eq!(e[2], Effect::Toast("Marked article as read".to_string()));
    let e = app.handle_key_event(key('s', false));
    assert_eq!(e[0], Effect::SetArticleStarred { article_id: "a0".to_string(), starred: true });
    assert_eq!(e[2], Effect::Toast("Article starred ★".to_string()));
    let e = app.handle_key_event(key('y', false));
    assert_eq!(e, vec![Effect::CopyUrl("https://example.com/0".to_string())]);
}

#[test]
fn resizing_keeps_the_total_width() {
    let mut app = app_with_feeds();
    app.perform_action(Action::ResizeSidebarInc);
    assert_eq!(
        (app.layout.sidebar_width_percent, app.layout.article_width_percent, app.layout.reader_width_percent),
        (24, 33, 43)
    );
    app.perform_action(Action::ResizeReaderInc);
    assert_eq!(
        (app.layout.sidebar_width_percent, app.layout.article_width_percent, app.layout.reader_width_percent),
        (24, 31, 45)
    );
    for _ in 0..20 {
        app.perform_action(Action::ResizeSidebarInc);
    }
    assert_eq!(app.layout.sidebar_width_percent, 40);
    let e = app.handle_key_event(key('=', false));
    assert_eq!(e, vec![Effect::Toast("Reset pane layout ratios".to_string())]);
    assert_eq!(app.layout.sidebar_width_percent, 22);
}

#[test]
fn popups_take_the_keyboard() {
    let mut app = app_with_feeds();
    app.handle_key_event(key('?', false));
    assert!(app.popups.show_help_modal);
    app.handle_key_event(key('j', false));
    assert!(app.popups.show_help_modal);
    app.handle_key_event(code(KeyCode::Esc));
    assert!(!app.popups.show_help_modal);

    app.handle_key_event(key('q', false));
    assert!(app.should_quit);
}

#[test]
fn theme_picker_applies_the_selection() {
    let mut app = app_with_feeds();
    app.handle_key_event(key('t', false));
    assert!(app.popups.show_theme_modal);
    assert_eq!(app.themes.theme_picker_selected_idx, 0);
    app.handle_key_event(key('j', false));
    let e = app.handle_key_event(code(KeyCode::Enter));
    assert_eq!(e, vec![Effect::ApplyTheme(1), Effect::SaveConfig, Effect::Toast("Applied theme: Nord".to_string())]);
    assert_eq!(app.themes.theme_name, "Nord");
    assert_eq!(app.config.theme, "Nord");
    assert!(!app.popups.show_theme_modal);
}

#[test]
fn settings_menu_steps_and_cycles() {
    let mut app = app_with_feeds();
    app.handle_key_event(key('/', false));
    assert!(app.popups.show_config_modal);
    // Left on the theme item goes back, wrapping to the last theme.
    let e = app.handle_key_event(code(KeyCode::Left));
    assert_eq!(e[0], Effect::ApplyTheme(2));
    app.handle_key_event(key('j', false));
    app.handle_key_event(key('j', false));
    let e = app.handle_key_event(code(KeyCode::Enter));
    assert_eq!(app.config.refresh_interval_minutes, 30);
    assert_eq!(e[1], Effect::Toast("Refresh interval: 30 min".to_string()));
    let e = app.handle_key_event(code(KeyCode::Right));
    assert_eq!(app.config.refresh_interval_minutes, 35);
    assert_eq!(e[0], Effect::SaveConfig);
}

#[test]
fn add_feed_popup_submits_or_refuses() {
    let mut app = app_with_feeds();
    app.handle_key_event(key('a', false));
    assert!(app.popups.show_add_modal);
    let e = app.handle_key_event(code(KeyCode::Enter));
    assert!(e.is_empty());
    assert_eq!(app.add_form.modal_error.as_deref(), Some("Input cannot be empty"));
    for c in " https://x.org/rss ".chars() {
        app.handle_key_event(key(c, false));
    }
    app.handle_key_event(code(KeyCode::Tab));
    for c in "Tech".chars() {
        app.handle_key_event(key(c, false));
    }
    let e = app.handle_key_event(code(KeyCode::Enter));
    assert_eq!(
        e,
        vec![Effect::AddFeed { url: "https://x.org/rss".to_string(), folder: Some("Tech".to_string()) }]
    );
    assert!(app.add_form.modal_is_loading);
    assert!(app.sync.is_syncing);
    assert_eq!(app.sync.pending_fetches, 1);

    let e = app.add_feed_finished(None, Vec::new(), Some("boom".to_string()));
    assert!(e.is_empty());
    assert_eq!(app.add_form.modal_error.as_deref(), Some("boom"));
    assert!(!app.sync.is_syncing);
}

#[test]
fn delete_confirmation_names_what_goes() {
    let mut app = app_with_feeds();
    app.view.sidebar_selected_idx = 7;
    assert_eq!(app.get_delete_target_info(), ("2020s".to_string(), true));
    app.handle_key_event(key('d', false));
    assert!(app.popups.show_delete_modal);
    let e = app.handle_key_event(key('y', false));
    assert_eq!(e[0], Effect::DeleteFolder("2020s".to_string()));
    assert_eq!(e[2], Effect::Toast("Deleted folder: 2020s".to_string()));
    assert!(!app.popups.show_delete_modal);
}

#[test]
fn refreshing_a_feed_view_fetches_that_feed() {
    let mut app = app_with_feeds();
    app.view.current_filter = CurrentFilter::Feed("rust-blog".to_string());
    let e = app.handle_key_event(key('r', false));
    match &e[0] {
        Effect::FetchFeeds(fs) => {
            assert_eq!(fs.len(), 1);
            assert_eq!(fs[0].id, "rust-blog");
        }
        other => panic!("expected a fetch, got {other:?}"),
    }
    assert_eq!(e[1], Effect::Toast("Refreshing Rust Blog...".to_string()));
    assert_eq!(app.sync.pending_fetches, 1);
    let e = app.feed_refresh_finished(false, Some("timeout".to_string()));
    assert_eq!(e, vec![Effect::Toast("Feed sync notice: timeout".to_string())]);
    assert!(!app.sync.is_syncing);
}

#[test]
fn header_shortcuts_and_status_bar_clicks() {
    let mut app = app_with_feeds();
    // The shortcut list takes the last 75 columns of a 120-column bar.
    app.handle_mouse_event(MouseKind::LeftDown, 45 + 2, 0, 120, 30);
    assert!(app.popups.show_help_modal);
    app.handle_mouse_event(MouseKind::LeftDown, 10, 10, 120, 30);
    assert!(!app.popups.show_help_modal);
    app.handle_mouse_event(MouseKind::LeftDown, 119, 0, 120, 30);
    assert!(app.should_quit);
    app.handle_mouse_event(MouseKind::LeftDown, 10, 29, 120, 30);
    assert!(app.popups.show_config_modal);
}

#[test]
fn unread_counts_are_looked_up_by_key() {
    let entries = vec![("a".to_string(), 3, 10), ("b".to_string(), 0, 4), ("a".to_string(), 9, 9)];
    assert_eq!(lookup_counts(&entries, "a"), (3, 10));
    assert_eq!(lookup_counts(&entries, "b"), (0, 4));
    assert_eq!(lookup_counts(&entries, "c"), (0, 0));
}

#[test]
fn recording_counts_again_replaces_them() {
    let mut entries: Vec<(String, usize, usize)> = Vec::new();
    record_count(&mut entries, "a".to_string(), 3, 10);
    record_count(&mut entries, "b".to_string(), 0, 4);
    record_count(&mut entries, "a".to_string(), 1, 11);
    assert_eq!(entries.len(), 2);
    assert_eq!(lookup_counts(&entries, "a"), (1, 11));
    assert_eq!(lookup_counts(&entries, "b"), (0, 4));
    assert_eq!(lookup_counts(&entries, "c"), (0, 0));
}

#[test]
fn sync_timeout_reloads_once() {
    let mut app = app_with_feeds();
    assert!(app.sync_timed_out().is_empty());
    let e = app.refresh_all_feeds();
    assert_eq!(app.sync.pending_fetches, 10);
    assert!(matches!(&e[0], Effect::FetchFeeds(fs) if fs.len() == 10));
    let e = app.sync_timed_out();
    assert_eq!(e, vec![Effect::Toast("Feed sync completed.".to_string()), Effect::ReloadData]);
    assert_eq!(app.sync.pending_fetches, 0);
    let mut fresh = App::new(AppConfig::default(), themes(), "Nord".to_string());
    let f: Feed = default_feeds().remove(0);
    fresh.load_library(vec![f], UnreadCounts::default(), Vec::new());
    let e = fresh.export_finished("out.opml", Ok(()));
    assert_eq!(e, vec![Effect::Toast("Exported 1 feeds to out.opml".to_string())]);
}

#[test]
fn sync_and_toast_expire_after_their_limits() {
    assert!(!sync_expired(15));
    assert!(sync_expired(16));
    assert!(!toast_expired(4));
    assert!(toast_expired(5));
}

#[test]
fn ctrl_r_resets_the_layout_like_equals() {
    let mut app = app_with_feeds();
    for _ in 0..5 {
        app.perform_action(Action::ResizeSidebarInc);
    }
    assert_ne!(app.layout.sidebar_width_percent, 22);
    let e = app.handle_key_event(key('r', true));
    assert_eq!(e, vec![Effect::Toast("Reset pane layout ratios".to_string())]);
    assert_eq!(
        (app.layout.sidebar_width_percent, app.layout.article_width_percent, app.layout.reader_width_percent),
        (22, 33, 45)
    );
}

#[test]
fn clicks_without_a_popup_work_on_very_wide_screens() {
    let mut app = app_with_feeds();
    // A click on the bottom row toggles the settings, whatever the width.
    app.handle_mouse_event(MouseKind::LeftDown, 10, 99, 2000, 100);
    assert!(app.popups.show_config_modal);
}
